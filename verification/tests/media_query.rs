use vesper::events::{MediaQuery, SortOrder, TagMode};
use vesper::media_query::{plan_media_query, SqlParam};
use vesper::search_keys::{compose_search_text, search_basename};
use vesper::state::TagFilter;
use vesper::media_query::descendant_like_pattern;
use vesper::media_query::{subtree_params, SUBTREE_PATH_CONDITION};
use vesper::migrations::{pending_migrations, MIGRATION_NAMES, MIGRATION_VERSIONS};
use vesper::migrations::migration_failure_message;

/// The statements as the database layer writes them out, for comparison.
fn expected(q: &MediaQuery, search: Option<&str>) -> (String, String) {
    let mut base = String::from("FROM media m JOIN source_roots sr ON sr.id = m.source_root_id");
    let mut where_clauses = vec!["sr.is_available = 1".to_string()];
    let mut arg_idx = 1;
    if !q.tags.is_empty() {
        base.push_str(" JOIN media_tags mt ON m.id = mt.media_id");
        base.push_str(" JOIN tags t ON mt.tag_id = t.id");
        let mut identities = Vec::new();
        for _ in &q.tags {
            identities.push(format!(
                "(t.source_root_id = ?{} AND t.relative_folder_path = ?{})",
                arg_idx,
                arg_idx + 1
            ));
            arg_idx += 2;
        }
        where_clauses.push(format!("({})", identities.join(" OR ")));
    }
    let mut search_idx = None;
    if search.is_some() {
        search_idx = Some(arg_idx);
        where_clauses.push(format!(
            "(instr(m.basename_search, ?{0}) > 0 OR instr(m.path_search, ?{0}) > 0 OR \
              EXISTS (SELECT 1 FROM media_tags search_mt \
                      JOIN tags search_t ON search_mt.tag_id = search_t.id \
                     WHERE search_mt.media_id = m.id \
                       AND (instr(search_t.display_name_search, ?{0}) > 0 \
                            OR instr(search_t.display_path_search, ?{0}) > 0)))",
            arg_idx
        ));
    }
    let where_sql = format!("WHERE {}", where_clauses.join(" AND "));
    let group_by = if !q.tags.is_empty() {
        if q.tag_mode == TagMode::All {
            format!("GROUP BY m.id HAVING COUNT(DISTINCT t.id) = {}", q.tags.len())
        } else {
            "GROUP BY m.id".to_string()
        }
    } else {
        String::new()
    };
    let count_query = format!("SELECT COUNT(*) FROM (SELECT m.id {} {} {})", base, where_sql, group_by);
    let order_by_base = match q.sort {
        SortOrder::DateModifiedDesc => "m.modified_at DESC",
        SortOrder::DateModifiedAsc => "m.modified_at ASC",
        SortOrder::DateAddedDesc => "m.date_added DESC",
        SortOrder::DateAddedAsc => "m.date_added ASC",
        SortOrder::FilenameAsc => "m.filename ASC",
        SortOrder::FilenameDesc => "m.filename DESC",
        SortOrder::FileSizeDesc => "m.size_bytes DESC",
        SortOrder::FileSizeAsc => "m.size_bytes ASC",
    };
    let order_by = if let Some(search_idx) = search_idx {
        format!(
            "ORDER BY CASE \
                WHEN m.basename_search = ?{0} THEN 1 \
                WHEN instr(m.basename_search, ?{0}) = 1 THEN 2 \
                WHEN instr(m.basename_search, ?{0}) > 0 THEN 3 \
                WHEN EXISTS (SELECT 1 FROM media_tags rank_mt \
                             JOIN tags rank_t ON rank_mt.tag_id = rank_t.id \
                            WHERE rank_mt.media_id = m.id \
                              AND (rank_t.display_name_search = ?{0} \
                                   OR rank_t.display_path_search = ?{0})) THEN 4 \
                WHEN EXISTS (SELECT 1 FROM media_tags rank_mt \
                             JOIN tags rank_t ON rank_mt.tag_id = rank_t.id \
                            WHERE rank_mt.media_id = m.id \
                              AND (instr(rank_t.display_name_search, ?{0}) > 0 \
                                   OR instr(rank_t.display_path_search, ?{0}) > 0)) THEN 5 \
                WHEN instr(m.path_search, ?{0}) > 0 THEN 6 \
                ELSE 7 \
             END ASC, {1}, m.path ASC",
            search_idx, order_by_base
        )
    } else {
        format!("ORDER BY {}, m.path ASC", order_by_base)
    };
    let select_cols = "m.id, m.path, m.filename, m.source_root_id, m.media_type, \
                       m.size_bytes, m.created_at, m.modified_at, m.thumbnail_path, m.duration_secs, \
                       (SELECT GROUP_CONCAT(tags.display_name, ',') FROM tags JOIN media_tags ON tags.id = media_tags.tag_id WHERE media_tags.media_id = m.id) AS all_tags, \
                       sr.is_available, m.date_added";
    let data_query = format!(
        "SELECT {} {} {} {} {}",
        select_cols, base, where_sql, group_by, order_by
    );
    (count_query, data_query)
}

fn filter(root: i64, path: &str) -> TagFilter {
    TagFilter {
        source_root_id: root,
        relative_folder_path: path.to_string(),
        display_name: path.to_string(),
    }
}

fn query(tags: Vec<TagFilter>, mode: TagMode, sort: SortOrder) -> MediaQuery {
    MediaQuery { tags, tag_mode: mode, search: None, sort }
}

#[test]
fn plain_query_reads_available_media_in_sort_order() {
    let q = query(vec![], TagMode::Any, SortOrder::DateModifiedDesc);
    let plan = plan_media_query(&q, None);
    let (count_sql, data_sql) = expected(&q, None);
    assert_eq!(plan.count_sql, count_sql);
    assert_eq!(plan.data_sql, data_sql);
    assert!(plan.params.is_empty());
}

#[test]
fn tag_filters_bind_identities_in_order() {
    let q = query(
        vec![filter(1, "Travel/2023"), filter(2, "Archive/2023")],
        TagMode::All,
        SortOrder::FilenameAsc,
    );
    let plan = plan_media_query(&q, None);
    let (count_sql, data_sql) = expected(&q, None);
    assert_eq!(plan.count_sql, count_sql);
    assert_eq!(plan.data_sql, data_sql);
    assert!(plan.count_sql.contains("HAVING COUNT(DISTINCT t.id) = 2"));
    assert_eq!(
        plan.params,
        vec![
            SqlParam::Int(1),
            SqlParam::Text("Travel/2023".to_string()),
            SqlParam::Int(2),
            SqlParam::Text("Archive/2023".to_string()),
        ]
    );
}

#[test]
fn search_follows_the_tag_parameters_and_ranks_results() {
    let q = query(vec![filter(3, "Japan")], TagMode::Any, SortOrder::FileSizeAsc);
    let plan = plan_media_query(&q, Some("japan".to_string()));
    let (count_sql, data_sql) = expected(&q, Some("japan"));
    assert_eq!(plan.count_sql, count_sql);
    assert_eq!(plan.data_sql, data_sql);
    assert!(plan.data_sql.contains("ORDER BY CASE WHEN m.basename_search = ?3 THEN 1"));
    assert_eq!(
        plan.params,
        vec![
            SqlParam::Int(3),
            SqlParam::Text("Japan".to_string()),
            SqlParam::Text("japan".to_string()),
        ]
    );
}

#[test]
fn an_empty_search_searches_nothing() {
    let q = query(vec![], TagMode::Any, SortOrder::DateAddedAsc);
    let plan = plan_media_query(&q, Some(String::new()));
    let (count_sql, data_sql) = expected(&q, None);
    assert_eq!(plan.count_sql, count_sql);
    assert_eq!(plan.data_sql, data_sql);
    assert!(plan.params.is_empty());
}

#[test]
fn every_sort_option_has_its_key() {
    for sort in [
        SortOrder::DateModifiedDesc,
        SortOrder::DateModifiedAsc,
        SortOrder::DateAddedDesc,
        SortOrder::DateAddedAsc,
        SortOrder::FilenameAsc,
        SortOrder::FilenameDesc,
        SortOrder::FileSizeDesc,
        SortOrder::FileSizeAsc,
    ] {
        let q = query(vec![filter(1, "a")], TagMode::Any, sort);
        let plan = plan_media_query(&q, Some("x".to_string()));
        assert_eq!(plan.data_sql, expected(&q, Some("x")).1);
    }
}

#[test]
fn composition_joins_decomposed_accents() {
    assert_eq!(compose_search_text("cafe\u{301}"), "caf\u{e9}");
    assert_eq!(compose_search_text("plain"), "plain");
}

#[test]
fn base_name_search_looks_at_the_stem() {
    assert_eq!(search_basename("trip.backup.jpg"), "trip.backup");
    assert_eq!(search_basename("noext"), "noext");
    assert_eq!(search_basename(".hidden"), ".hidden");
}

#[test]
fn remove_media_and_descendants_with_wildcards() {
    assert_eq!(descendant_like_pattern("/media/100%_done"), "/media/100\\%\\_done/%");
    assert_eq!(descendant_like_pattern("/media/a\\b"), "/media/a\\\\b/%");
    assert_eq!(descendant_like_pattern("/media/plain"), "/media/plain/%");
}

#[test]
fn subtree_params_select_the_folder_and_what_lies_below() {
    assert_eq!(
        subtree_params("/media/sub"),
        ("/media/sub".to_string(), "/media/sub/%".to_string())
    );
    assert_eq!(subtree_params("/m_1%"), ("/m_1%".to_string(), "/m\\_1\\%/%".to_string()));
    assert_eq!(SUBTREE_PATH_CONDITION, "(path = ? OR path LIKE ? ESCAPE '\\')");
}

#[test]
fn run_is_idempotent_and_records_versions() {
    let fresh = pending_migrations(&[]);
    assert_eq!(fresh, vec![0, 1, 2, 3, 4]);
    let applied: Vec<i64> = fresh.iter().map(|&i| MIGRATION_VERSIONS[i]).collect();
    assert_eq!(applied, vec![1, 2, 3, 4, 5]);
    assert!(pending_migrations(&applied).is_empty());
    assert_eq!(pending_migrations(&[1, 2, 4]), vec![2, 4]);
    assert_eq!(MIGRATION_NAMES[4], "normalized_search_keys");
}

#[test]
fn failed_migration_message_names_version_and_cause() {
    assert_eq!(
        migration_failure_message(3, "media_schema_fixes", "no such table: media"),
        "migration 3 ('media_schema_fixes') failed: no such table: media"
    );
    assert_eq!(migration_failure_message(-7, "x", "e"), "migration -7 ('x') failed: e");
    assert_eq!(
        migration_failure_message(i64::MIN, "x", "e"),
        format!("migration {} ('x') failed: e", i64::MIN)
    );
}

#[test]
fn subtree_condition_leaves_sibling_prefixes_alone() {
    let conn = rusqlite::Connection::open_in_memory().unwrap();
    conn.execute("CREATE TABLE scan_errors (path TEXT)", []).unwrap();
    for p in ["/media/sub", "/media/sub/a.jpg", "/media/other/b.jpg", "/media/sub2/c.jpg", "/media/sub_x/d.jpg"] {
        conn.execute("INSERT INTO scan_errors (path) VALUES (?1)", [p]).unwrap();
    }
    let (exact, below) = subtree_params("/media/sub");
    let sql = format!("DELETE FROM scan_errors WHERE {SUBTREE_PATH_CONDITION}");
    let removed = conn.execute(&sql, [exact.as_str(), below.as_str()]).unwrap();
    assert_eq!(removed, 2);
    let mut stmt = conn.prepare("SELECT path FROM scan_errors ORDER BY path").unwrap();
    let left: Vec<String> = stmt.query_map([], |r| r.get(0)).unwrap().map(|r| r.unwrap()).collect();
    assert_eq!(left, vec!["/media/other/b.jpg", "/media/sub2/c.jpg", "/media/sub_x/d.jpg"]);
}
