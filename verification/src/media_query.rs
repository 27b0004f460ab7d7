//! The SQL behind a media query: which rows a filter admits and in what
//! order they come.
//!
//! Media of offline roots is never published. Selected tags filter by full
//! identity (root and folder path); with the All mode an item must carry every
//! selected tag. A search text (already normalized) must occur in the file's
//! base name, its path, or a tag's name or display path, and ranks the result:
//! exact base name, base-name prefix, base-name substring, exact tag, tag
//! substring, path substring. Within a rank the sort option applies, and the
//! full path breaks ties.

use vstd::prelude::*;

use crate::events::{MediaQuery, SortOrder};
use crate::path::views;
use crate::text::{append_chars, append_str, chars_of, decimal, decimal_chars, join_chars, join_str, string_from_chars};

verus! {

/// A value bound to a numbered `?N` placeholder.
#[derive(Debug, Clone, PartialEq, Eq)]
pub enum SqlParam {
    Int(i64),
    Text(String),
}

/// The two statements of a media query and their parameters, in placeholder
/// order (`?1` is the first).
pub struct MediaQueryPlan {
    pub count_sql: String,
    pub data_sql: String,
    pub params: Vec<SqlParam>,
}

/// A text parameter holding exactly `s`.
pub open spec fn is_text_param(p: SqlParam, s: Seq<char>) -> bool {
    match p {
        SqlParam::Text(t) => t@ == s,
        SqlParam::Int(_) => false,
    }
}

pub open spec fn base_from(has_tags: bool) -> Seq<char> {
    if has_tags {
        "FROM media m JOIN source_roots sr ON sr.id = m.source_root_id JOIN media_tags mt ON m.id = mt.media_id JOIN tags t ON mt.tag_id = t.id"@
    } else {
        "FROM media m JOIN source_roots sr ON sr.id = m.source_root_id"@
    }
}

/// The identity test of the `k`-th selected tag (0-based), on placeholders
/// `2k+1` and `2k+2`.
pub open spec fn identity_clause(k: nat) -> Seq<char> {
    "(t.source_root_id = ?"@ + decimal(2 * k + 1) + " AND t.relative_folder_path = ?"@ + decimal(
        2 * k + 2,
    ) + ")"@
}

pub open spec fn tags_clause(n: nat) -> Seq<char> {
    "("@ + join_str(Seq::new(n, |k: int| identity_clause(k as nat)), " OR "@) + ")"@
}

pub open spec fn search_clause(i: nat) -> Seq<char> {
    let p = "?"@ + decimal(i);
    "(instr(m.basename_search, "@ + p + ") > 0 OR instr(m.path_search, "@ + p
        + ") > 0 OR EXISTS (SELECT 1 FROM media_tags search_mt JOIN tags search_t ON search_mt.tag_id = search_t.id WHERE search_mt.media_id = m.id AND (instr(search_t.display_name_search, "@
        + p + ") > 0 OR instr(search_t.display_path_search, "@ + p + ") > 0)))"@
}

/// The filter conditions: availability, then the tag identities, then the search.
pub open spec fn where_clauses(n_tags: nat, has_search: bool) -> Seq<Seq<char>> {
    let base = seq!["sr.is_available = 1"@];
    let with_tags = if n_tags > 0 {
        base.push(tags_clause(n_tags))
    } else {
        base
    };
    if has_search {
        with_tags.push(search_clause(2 * n_tags + 1))
    } else {
        with_tags
    }
}

pub open spec fn where_sql(n_tags: nat, has_search: bool) -> Seq<char> {
    "WHERE "@ + join_str(where_clauses(n_tags, has_search), " AND "@)
}

pub open spec fn group_by_sql(n_tags: nat, match_all: bool) -> Seq<char> {
    if n_tags == 0 {
        seq![]
    } else if match_all {
        "GROUP BY m.id HAVING COUNT(DISTINCT t.id) = "@ + decimal(n_tags)
    } else {
        "GROUP BY m.id"@
    }
}

pub open spec fn sort_key_sql(sort: SortOrder) -> Seq<char> {
    match sort {
        SortOrder::DateModifiedDesc => "m.modified_at DESC"@,
        SortOrder::DateModifiedAsc => "m.modified_at ASC"@,
        SortOrder::DateAddedDesc => "m.date_added DESC"@,
        SortOrder::DateAddedAsc => "m.date_added ASC"@,
        SortOrder::FilenameAsc => "m.filename ASC"@,
        SortOrder::FilenameDesc => "m.filename DESC"@,
        SortOrder::FileSizeDesc => "m.size_bytes DESC"@,
        SortOrder::FileSizeAsc => "m.size_bytes ASC"@,
    }
}

/// The search ranking, on placeholder `i`.
pub open spec fn rank_sql(i: nat) -> Seq<char> {
    let p = "?"@ + decimal(i);
    "CASE WHEN m.basename_search = "@ + p + " THEN 1 WHEN instr(m.basename_search, "@ + p
        + ") = 1 THEN 2 WHEN instr(m.basename_search, "@ + p
        + ") > 0 THEN 3 WHEN EXISTS (SELECT 1 FROM media_tags rank_mt JOIN tags rank_t ON rank_mt.tag_id = rank_t.id WHERE rank_mt.media_id = m.id AND (rank_t.display_name_search = "@
        + p + " OR rank_t.display_path_search = "@ + p
        + ")) THEN 4 WHEN EXISTS (SELECT 1 FROM media_tags rank_mt JOIN tags rank_t ON rank_mt.tag_id = rank_t.id WHERE rank_mt.media_id = m.id AND (instr(rank_t.display_name_search, "@
        + p + ") > 0 OR instr(rank_t.display_path_search, "@ + p + ") > 0)) THEN 5 WHEN instr(m.path_search, "@
        + p + ") > 0 THEN 6 ELSE 7 END ASC"@
}

pub open spec fn order_by_sql(sort: SortOrder, search_index: Option<nat>) -> Seq<char> {
    match search_index {
        Some(i) => "ORDER BY "@ + rank_sql(i) + ", "@ + sort_key_sql(sort) + ", m.path ASC"@,
        None => "ORDER BY "@ + sort_key_sql(sort) + ", m.path ASC"@,
    }
}

pub open spec fn select_columns() -> Seq<char> {
    "m.id, m.path, m.filename, m.source_root_id, m.media_type, m.size_bytes, m.created_at, m.modified_at, m.thumbnail_path, m.duration_secs, (SELECT GROUP_CONCAT(tags.display_name, ',') FROM tags JOIN media_tags ON tags.id = media_tags.tag_id WHERE media_tags.media_id = m.id) AS all_tags, sr.is_available, m.date_added"@
}

pub open spec fn count_sql_spec(n_tags: nat, match_all: bool, has_search: bool) -> Seq<char> {
    "SELECT COUNT(*) FROM (SELECT m.id "@ + base_from(n_tags > 0) + " "@ + where_sql(
        n_tags,
        has_search,
    ) + " "@ + group_by_sql(n_tags, match_all) + ")"@
}

pub open spec fn data_sql_spec(n_tags: nat, match_all: bool, has_search: bool, sort: SortOrder) -> Seq<
    char,
> {
    "SELECT "@ + select_columns() + " "@ + base_from(n_tags > 0) + " "@ + where_sql(
        n_tags,
        has_search,
    ) + " "@ + group_by_sql(n_tags, match_all) + " "@ + order_by_sql(
        sort,
        if has_search {
            Some(2 * n_tags + 1)
        } else {
            None
        },
    )
}

/// The parameters of the selected tags: each tag's root id, then its folder path.
pub open spec fn tag_params_ok(params: Seq<SqlParam>, q: MediaQuery) -> bool {
    &&& params.len() >= 2 * q.tags@.len()
    &&& forall|k: int|
        0 <= k < q.tags@.len() ==> params[2 * k] == SqlParam::Int(
            (#[trigger] q.tags@[k]).source_root_id,
        ) && is_text_param(params[2 * k + 1], q.tags@[k].relative_folder_path@)
}

/// The search text that takes part in the query: the normalized text, unless empty.
pub open spec fn effective_search(normalized: Option<Seq<char>>) -> Option<Seq<char>> {
    match normalized {
        Some(s) => if s.len() > 0 {
            Some(s)
        } else {
            None
        },
        None => None,
    }
}

pub open spec fn plan_ok(plan: MediaQueryPlan, q: MediaQuery, normalized: Option<Seq<char>>) -> bool {
    let n = q.tags@.len();
    let match_all = q.tag_mode == crate::events::TagMode::All;
    let search = effective_search(normalized);
    &&& plan.count_sql@ == count_sql_spec(n, match_all, search is Some)
    &&& plan.data_sql@ == data_sql_spec(n, match_all, search is Some, q.sort)
    &&& tag_params_ok(plan.params@, q)
    &&& match search {
        Some(s) => plan.params@.len() == 2 * n + 1 && is_text_param(plan.params@[2 * n as int], s),
        None => plan.params@.len() == 2 * n,
    }
}

fn placeholder(i: u64) -> (r: Vec<char>)
    ensures
        r@ == "?"@ + decimal(i as nat),
{
    let mut out = chars_of("?");
    let digits = decimal_chars(i);
    append_chars(&mut out, &digits);
    out
}

fn identity_clause_exec(k: u64) -> (r: Vec<char>)
    requires
        2 * k + 2 <= u64::MAX,
    ensures
        r@ == identity_clause(k as nat),
{
    let mut out = chars_of("(t.source_root_id = ?");
    append_chars(&mut out, &decimal_chars(2 * k + 1));
    append_str(&mut out, " AND t.relative_folder_path = ?");
    append_chars(&mut out, &decimal_chars(2 * k + 2));
    append_str(&mut out, ")");
    out
}

fn search_clause_exec(i: u64) -> (r: Vec<char>)
    ensures
        r@ == search_clause(i as nat),
{
    let p = placeholder(i);
    let mut out = chars_of("(instr(m.basename_search, ");
    append_chars(&mut out, &p);
    append_str(&mut out, ") > 0 OR instr(m.path_search, ");
    append_chars(&mut out, &p);
    append_str(
        &mut out,
        ") > 0 OR EXISTS (SELECT 1 FROM media_tags search_mt JOIN tags search_t ON search_mt.tag_id = search_t.id WHERE search_mt.media_id = m.id AND (instr(search_t.display_name_search, ",
    );
    append_chars(&mut out, &p);
    append_str(&mut out, ") > 0 OR instr(search_t.display_path_search, ");
    append_chars(&mut out, &p);
    append_str(&mut out, ") > 0)))");
    out
}

fn rank_sql_exec(i: u64) -> (r: Vec<char>)
    ensures
        r@ == rank_sql(i as nat),
{
    let p = placeholder(i);
    let mut out = chars_of("CASE WHEN m.basename_search = ");
    append_chars(&mut out, &p);
    append_str(&mut out, " THEN 1 WHEN instr(m.basename_search, ");
    append_chars(&mut out, &p);
    append_str(&mut out, ") = 1 THEN 2 WHEN instr(m.basename_search, ");
    append_chars(&mut out, &p);
    append_str(
        &mut out,
        ") > 0 THEN 3 WHEN EXISTS (SELECT 1 FROM media_tags rank_mt JOIN tags rank_t ON rank_mt.tag_id = rank_t.id WHERE rank_mt.media_id = m.id AND (rank_t.display_name_search = ",
    );
    append_chars(&mut out, &p);
    append_str(&mut out, " OR rank_t.display_path_search = ");
    append_chars(&mut out, &p);
    append_str(
        &mut out,
        ")) THEN 4 WHEN EXISTS (SELECT 1 FROM media_tags rank_mt JOIN tags rank_t ON rank_mt.tag_id = rank_t.id WHERE rank_mt.media_id = m.id AND (instr(rank_t.display_name_search, ",
    );
    append_chars(&mut out, &p);
    append_str(&mut out, ") > 0 OR instr(rank_t.display_path_search, ");
    append_chars(&mut out, &p);
    append_str(&mut out, ") > 0)) THEN 5 WHEN instr(m.path_search, ");
    append_chars(&mut out, &p);
    append_str(&mut out, ") > 0 THEN 6 ELSE 7 END ASC");
    out
}

fn sort_key_exec(sort: SortOrder) -> (r: &'static str)
    ensures
        r@ == sort_key_sql(sort),
{
    match sort {
        SortOrder::DateModifiedDesc => "m.modified_at DESC",
        SortOrder::DateModifiedAsc => "m.modified_at ASC",
        SortOrder::DateAddedDesc => "m.date_added DESC",
        SortOrder::DateAddedAsc => "m.date_added ASC",
        SortOrder::FilenameAsc => "m.filename ASC",
        SortOrder::FilenameDesc => "m.filename DESC",
        SortOrder::FileSizeDesc => "m.size_bytes DESC",
        SortOrder::FileSizeAsc => "m.size_bytes ASC",
    }
}

/// Builds the count and data statements of `q` and their parameters.
/// `normalized_search` is the query's search text, trimmed and normalized as
/// the stored search keys are; an empty one searches nothing.
pub fn plan_media_query(q: &MediaQuery, normalized_search: Option<String>) -> (plan: MediaQueryPlan)
    requires
        2 * q.tags@.len() + 2 <= u64::MAX,
    ensures
        plan_ok(
            plan,
            *q,
            match normalized_search {
                Some(s) => Some(s@),
                None => None,
            },
        ),
{
    let n = q.tags.len();
    let mut params: Vec<SqlParam> = Vec::new();
    let mut identities: Vec<Vec<char>> = Vec::new();
    let mut k: usize = 0;
    while k < n
        invariant
            0 <= k <= n,
            n == q.tags@.len(),
            2 * n + 2 <= u64::MAX,
            params@.len() == 2 * k,
            forall|j: int|
                0 <= j < k ==> params@[2 * j] == SqlParam::Int((#[trigger] q.tags@[j]).source_root_id)
                    && is_text_param(params@[2 * j + 1], q.tags@[j].relative_folder_path@),
            views(identities@) == Seq::new(k as nat, |j: int| identity_clause(j as nat)),
        decreases n - k,
    {
        let clause = identity_clause_exec(k as u64);
        proof {
            crate::path::lemma_views_push(identities@, clause);
        }
        identities.push(clause);
        params.push(SqlParam::Int(q.tags[k].source_root_id));
        params.push(SqlParam::Text(string_from_chars(&chars_of(q.tags[k].relative_folder_path.as_str()))));
        proof {
            assert(views(identities@) =~= Seq::new((k + 1) as nat, |j: int| identity_clause(j as nat)));
        }
        k += 1;
    }
    let mut clauses: Vec<Vec<char>> = Vec::new();
    clauses.push(chars_of("sr.is_available = 1"));
    if n > 0 {
        let mut tc = chars_of("(");
        append_chars(&mut tc, &join_chars(&identities, " OR "));
        append_str(&mut tc, ")");
        proof {
            crate::path::lemma_views_push(clauses@, tc);
        }
        clauses.push(tc);
    }
    let search: Option<String> = match normalized_search {
        Some(s) => {
            let c = chars_of(s.as_str());
            if c.len() > 0 {
                Some(s)
            } else {
                None
            }
        },
        None => None,
    };
    let search_index: u64 = 2 * (n as u64) + 1;
    let has_search = search.is_some();
    match search {
        Some(s) => {
            let sc = search_clause_exec(search_index);
            proof {
                crate::path::lemma_views_push(clauses@, sc);
            }
            clauses.push(sc);
            params.push(SqlParam::Text(s));
        },
        None => {},
    }
    proof {
        assert(views(clauses@) =~= where_clauses(n as nat, has_search));
    }
    let mut where_text = chars_of("WHERE ");
    append_chars(&mut where_text, &join_chars(&clauses, " AND "));
    let mut group_by: Vec<char> = Vec::new();
    if n > 0 {
        if q.tag_mode == crate::events::TagMode::All {
            group_by = chars_of("GROUP BY m.id HAVING COUNT(DISTINCT t.id) = ");
            append_chars(&mut group_by, &decimal_chars(n as u64));
        } else {
            group_by = chars_of("GROUP BY m.id");
        }
    }
    let base: Vec<char> = if n > 0 {
        chars_of(
            "FROM media m JOIN source_roots sr ON sr.id = m.source_root_id JOIN media_tags mt ON m.id = mt.media_id JOIN tags t ON mt.tag_id = t.id",
        )
    } else {
        chars_of("FROM media m JOIN source_roots sr ON sr.id = m.source_root_id")
    };
    let mut count_sql = chars_of("SELECT COUNT(*) FROM (SELECT m.id ");
    append_chars(&mut count_sql, &base);
    append_str(&mut count_sql, " ");
    append_chars(&mut count_sql, &where_text);
    append_str(&mut count_sql, " ");
    append_chars(&mut count_sql, &group_by);
    append_str(&mut count_sql, ")");
    let mut order_by = chars_of("ORDER BY ");
    if has_search {
        append_chars(&mut order_by, &rank_sql_exec(search_index));
        append_str(&mut order_by, ", ");
    }
    append_str(&mut order_by, sort_key_exec(q.sort));
    append_str(&mut order_by, ", m.path ASC");
    let mut data_sql = chars_of("SELECT ");
    append_str(
        &mut data_sql,
        "m.id, m.path, m.filename, m.source_root_id, m.media_type, m.size_bytes, m.created_at, m.modified_at, m.thumbnail_path, m.duration_secs, (SELECT GROUP_CONCAT(tags.display_name, ',') FROM tags JOIN media_tags ON tags.id = media_tags.tag_id WHERE media_tags.media_id = m.id) AS all_tags, sr.is_available, m.date_added",
    );
    append_str(&mut data_sql, " ");
    append_chars(&mut data_sql, &base);
    append_str(&mut data_sql, " ");
    append_chars(&mut data_sql, &where_text);
    append_str(&mut data_sql, " ");
    append_chars(&mut data_sql, &group_by);
    append_str(&mut data_sql, " ");
    append_chars(&mut data_sql, &order_by);
    MediaQueryPlan {
        count_sql: string_from_chars(&count_sql),
        data_sql: string_from_chars(&data_sql),
        params,
    }
}

/// `s` with the LIKE wildcards `%` and `_`, and the escape character `\`
/// itself, escaped by `\`.
pub open spec fn like_escape(s: Seq<char>) -> Seq<char>
    decreases s.len(),
{
    if s.len() == 0 {
        seq![]
    } else {
        let c = s.last();
        like_escape(s.drop_last()) + if c == '\\' || c == '%' || c == '_' {
            seq!['\\', c]
        } else {
            seq![c]
        }
    }
}

/// The LIKE pattern (with `\` as escape character) of everything strictly
/// below the folder `path`: the escaped path, a separator, and a wildcard.
pub fn descendant_like_pattern(path: &str) -> (r: String)
    ensures
        r@ == like_escape(path@) + "/%"@,
{
    let chars = chars_of(path);
    let mut out: Vec<char> = Vec::new();
    let mut i: usize = 0;
    while i < chars.len()
        invariant
            0 <= i <= chars@.len(),
            chars@ == path@,
            out@ == like_escape(path@.take(i as int)),
        decreases chars@.len() - i,
    {
        assert(path@.take(i as int + 1).drop_last() =~= path@.take(i as int));
        let c = chars[i];
        if c == '\\' || c == '%' || c == '_' {
            out.push('\\');
        }
        out.push(c);
        proof {
            assert(out@ =~= like_escape(path@.take(i as int + 1)));
        }
        i += 1;
    }
    assert(path@.take(chars@.len() as int) =~= path@);
    append_str(&mut out, "/%");
    string_from_chars(&out)
}

/// SQL condition selecting the rows of a folder's subtree: the folder itself
/// (first parameter) or anything strictly below it (second parameter, the
/// pattern [`descendant_like_pattern`] gives). A sibling that merely shares
/// the folder's name as a prefix (`/media/sub2` for `/media/sub`) is not
/// selected.
pub const SUBTREE_PATH_CONDITION: &'static str = "(path = ? OR path LIKE ? ESCAPE '\\')";

/// The two parameters of [`SUBTREE_PATH_CONDITION`] for the folder `subtree`:
/// the folder's own path, and the escaped pattern of everything below it.
pub fn subtree_params(subtree: &str) -> (r: (String, String))
    ensures
        r.0@ == subtree@,
        r.1@ == like_escape(subtree@) + "/%"@,
{
    (string_from_chars(&chars_of(subtree)), descendant_like_pattern(subtree))
}

} // verus!
