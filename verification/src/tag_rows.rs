//! The sidebar's tag list: rows sorted by file count (most first), then by
//! case-insensitive name, then by path identity, with lineage text added only
//! where names collide.
//!
//! Two tags with one display name show their display paths; when even those
//! are equal, the source root's path follows, so no two rows look alike.

use vstd::prelude::*;

use crate::events::UiTag;
use crate::text::{
    append_chars, append_str, chars_equal, chars_less, chars_of, lemma_seq_less_irreflexive,
    lemma_seq_less_transitive, lowercase_of, seq_less, string_from_chars, unicode_lowercase,
};

verus! {

broadcast use vstd::seq_lib::group_to_multiset_ensures;

/// Shown in place of a root path when the tag's root is not in the list.
pub const UNKNOWN_SOURCE: &'static str = "Unknown source";

/// Separates a display path from its root path in lineage text.
pub const LINEAGE_SEPARATOR: &'static str = " — ";

/// One row of the tag list.
pub struct TagRowPresentation {
    pub tag: UiTag,
    /// Text that tells a row apart from others with the same name; `None`
    /// when the name is unique.
    pub lineage: Option<String>,
}

/// The name tags are ordered by: the display name in Unicode lowercase.
pub open spec fn sort_name(t: UiTag) -> Seq<char> {
    unicode_lowercase(t.display_name@)
}

/// Whether row `a` goes strictly before row `b`: more files first, then the
/// lowercase name, then the root id, then the relative folder path.
pub open spec fn tag_before(a: UiTag, b: UiTag) -> bool {
    ||| a.file_count > b.file_count
    ||| a.file_count == b.file_count && seq_less(sort_name(a), sort_name(b))
    ||| a.file_count == b.file_count && sort_name(a) == sort_name(b) && a.source_root_id
        < b.source_root_id
    ||| a.file_count == b.file_count && sort_name(a) == sort_name(b) && a.source_root_id
        == b.source_root_id && seq_less(a.relative_folder_path@, b.relative_folder_path@)
}

/// No row goes before one that precedes it.
pub open spec fn tags_sorted(s: Seq<UiTag>) -> bool {
    forall|i: int, j: int| 0 <= i < j < s.len() ==> !tag_before(#[trigger] s[j], #[trigger] s[i])
}

pub proof fn lemma_tag_before_irreflexive(a: UiTag)
    ensures
        !tag_before(a, a),
{
    lemma_seq_less_irreflexive(sort_name(a));
    lemma_seq_less_irreflexive(a.relative_folder_path@);
}

pub proof fn lemma_tag_before_transitive(a: UiTag, b: UiTag, c: UiTag)
    requires
        tag_before(a, b),
        tag_before(b, c),
    ensures
        tag_before(a, c),
{
    if a.file_count == b.file_count && b.file_count == c.file_count {
        let (na, nb, nc) = (sort_name(a), sort_name(b), sort_name(c));
        if seq_less(na, nb) && seq_less(nb, nc) {
            lemma_seq_less_transitive(na, nb, nc);
        }
        if na == nb && nb == nc && a.source_root_id == b.source_root_id && b.source_root_id
            == c.source_root_id && seq_less(a.relative_folder_path@, b.relative_folder_path@)
            && seq_less(b.relative_folder_path@, c.relative_folder_path@) {
            lemma_seq_less_transitive(
                a.relative_folder_path@,
                b.relative_folder_path@,
                c.relative_folder_path@,
            );
        }
    }
}

fn copy_tag(t: &UiTag) -> (r: UiTag)
    ensures
        r == *t,
{
    UiTag {
        id: t.id,
        source_root_id: t.source_root_id,
        relative_folder_path: t.relative_folder_path.clone(),
        display_name: t.display_name.clone(),
        display_path: t.display_path.clone(),
        file_count: t.file_count,
    }
}

fn before_exec(a: &UiTag, a_name: &Vec<char>, b: &UiTag, b_name: &Vec<char>) -> (r: bool)
    requires
        a_name@ == sort_name(*a),
        b_name@ == sort_name(*b),
    ensures
        r == tag_before(*a, *b),
{
    if a.file_count != b.file_count {
        return a.file_count > b.file_count;
    }
    if chars_less(a_name, b_name) {
        return true;
    }
    if !chars_equal(a_name, b_name) {
        return false;
    }
    if a.source_root_id != b.source_root_id {
        return a.source_root_id < b.source_root_id;
    }
    let pa = chars_of(a.relative_folder_path.as_str());
    let pb = chars_of(b.relative_folder_path.as_str());
    chars_less(&pa, &pb)
}

/// `s` with `x` placed before its first row that `x` goes before: after every
/// row it ties with.
pub open spec fn insert_row(s: Seq<UiTag>, x: UiTag) -> Seq<UiTag>
    decreases s.len(),
{
    if s.len() == 0 {
        seq![x]
    } else if tag_before(x, s[0]) {
        seq![x] + s
    } else {
        seq![s[0]] + insert_row(s.drop_first(), x)
    }
}

/// The tags in row order, rows that tie on every key kept in their input
/// order (a stable sort).
pub open spec fn stable_sorted(tags: Seq<UiTag>) -> Seq<UiTag>
    decreases tags.len(),
{
    if tags.len() == 0 {
        seq![]
    } else {
        insert_row(stable_sorted(tags.drop_last()), tags.last())
    }
}

proof fn lemma_insert_row_at(s: Seq<UiTag>, x: UiTag, j: int)
    requires
        0 <= j <= s.len(),
        forall|k: int| 0 <= k < j ==> !tag_before(x, #[trigger] s[k]),
        j < s.len() ==> tag_before(x, s[j]),
    ensures
        insert_row(s, x) == s.insert(j, x),
    decreases j,
{
    if j == 0 {
        if s.len() == 0 {
            assert(s.insert(0, x) =~= seq![x]);
        } else {
            assert(s.insert(0, x) =~= seq![x] + s);
        }
    } else {
        assert(!tag_before(x, s[0]));
        let d = s.drop_first();
        assert forall|k: int| 0 <= k < j - 1 implies !tag_before(x, #[trigger] d[k]) by {
            assert(d[k] == s[k + 1]);
        }
        if j < s.len() {
            assert(d[j - 1] == s[j]);
        }
        lemma_insert_row_at(d, x, j - 1);
        assert(seq![s[0]] + d.insert(j - 1, x) =~= s.insert(j, x));
    }
}

/// The tags in row order: sorted as `tag_before` says, the same tags with the
/// same multiplicities, ties in input order.
pub fn sort_tags(tags: &[UiTag]) -> (r: Vec<UiTag>)
    ensures
        tags_sorted(r@),
        r@.to_multiset() == tags@.to_multiset(),
        r@ == stable_sorted(tags@),
{
    let mut sorted: Vec<UiTag> = Vec::new();
    let mut names: Vec<Vec<char>> = Vec::new();
    let mut i: usize = 0;
    while i < tags.len()
        invariant
            0 <= i <= tags.len(),
            sorted@.len() == names@.len(),
            forall|k: int| 0 <= k < names@.len() ==> (#[trigger] names@[k])@ == sort_name(sorted@[k]),
            tags_sorted(sorted@),
            sorted@.to_multiset() == tags@.take(i as int).to_multiset(),
            sorted@ == stable_sorted(tags@.take(i as int)),
        decreases tags.len() - i,
    {
        let x = copy_tag(&tags[i]);
        let lowered = lowercase_of(x.display_name.as_str());
        let x_name = chars_of(lowered.as_str());
        let mut j: usize = 0;
        let mut found = false;
        while j < sorted.len() && !found
            invariant
                0 <= j <= sorted@.len(),
                found ==> j < sorted@.len() && tag_before(x, sorted@[j as int]),
                sorted@.len() == names@.len(),
                forall|k: int| 0 <= k < names@.len() ==> (#[trigger] names@[k])@ == sort_name(sorted@[k]),
                x_name@ == sort_name(x),
                forall|k: int| 0 <= k < j ==> !tag_before(x, #[trigger] sorted@[k]),
            decreases sorted@.len() - j + if found {
                0int
            } else {
                1int
            },
        {
            if before_exec(&x, &x_name, &sorted[j], &names[j]) {
                found = true;
            } else {
                j += 1;
            }
        }
        let ghost old_sorted = sorted@;
        let ghost old_names = names@;
        proof {
            assert(j < old_sorted.len() ==> tag_before(x, old_sorted[j as int]));
        }
        proof {
            lemma_insert_row_at(old_sorted, x, j as int);
            assert(tags@.take(i as int + 1).drop_last() =~= tags@.take(i as int));
            assert(x == tags@.take(i as int + 1).last());
        }
        sorted.insert(j, x);
        names.insert(j, x_name);
        proof {
            let s = sorted@;
            assert(s[j as int] == x);
            assert forall|k: int| 0 <= k < names@.len() implies (#[trigger] names@[k])@ == sort_name(
                s[k],
            ) by {
                if k < j {
                    assert(names@[k] == old_names[k]);
                    assert(s[k] == old_sorted[k]);
                } else if k > j {
                    assert(names@[k] == old_names[k - 1]);
                    assert(s[k] == old_sorted[k - 1]);
                }
            }
            assert forall|a: int, b: int| 0 <= a < b < s.len() implies !tag_before(
                #[trigger] s[b],
                #[trigger] s[a],
            ) by {
                if b < j {
                    assert(s[a] == old_sorted[a] && s[b] == old_sorted[b]);
                } else if b == j {
                    assert(s[a] == old_sorted[a]);
                } else if a == j {
                    assert(s[b] == old_sorted[b - 1]);
                    if tag_before(old_sorted[b - 1], x) {
                        lemma_tag_before_transitive(old_sorted[b - 1], x, old_sorted[j as int]);
                        if b - 1 == j {
                            lemma_tag_before_irreflexive(old_sorted[j as int]);
                        } else {
                            assert(!tag_before(old_sorted[b - 1], old_sorted[j as int]));
                        }
                    }
                } else if a < j {
                    assert(s[a] == old_sorted[a] && s[b] == old_sorted[b - 1]);
                } else {
                    assert(s[a] == old_sorted[a - 1] && s[b] == old_sorted[b - 1]);
                }
            }
            assert(s.remove(j as int) =~= old_sorted);
            assert(s.to_multiset() =~= old_sorted.to_multiset().insert(x));
            assert(tags@.take(i as int + 1) =~= tags@.take(i as int).push(tags@[i as int]));
        }
        i += 1;
    }
    proof {
        assert(tags@.take(tags.len() as int) =~= tags@);
    }
    sorted
}

/// How many rows carry the display name `name`.
pub open spec fn count_named(s: Seq<UiTag>, name: Seq<char>) -> nat
    decreases s.len(),
{
    if s.len() == 0 {
        0
    } else {
        count_named(s.drop_last(), name) + if s.last().display_name@ == name {
            1nat
        } else {
            0nat
        }
    }
}

/// How many rows carry both the display name `name` and the display path `path`.
pub open spec fn count_named_at(s: Seq<UiTag>, name: Seq<char>, path: Seq<char>) -> nat
    decreases s.len(),
{
    if s.len() == 0 {
        0
    } else {
        count_named_at(s.drop_last(), name, path) + if s.last().display_name@ == name
            && s.last().display_path@ == path {
            1nat
        } else {
            0nat
        }
    }
}

/// The path of the first listed root with id `id`, or the unknown-source text.
pub open spec fn root_label(roots: Seq<(i64, String)>, id: i64) -> Seq<char>
    decreases roots.len(),
{
    if roots.len() == 0 {
        UNKNOWN_SOURCE@
    } else if roots[0].0 == id {
        roots[0].1@
    } else {
        root_label(roots.drop_first(), id)
    }
}

/// The lineage text of row `t` among `rows`.
pub open spec fn lineage_spec(rows: Seq<UiTag>, roots: Seq<(i64, String)>, t: UiTag) -> Option<
    Seq<char>,
> {
    if count_named(rows, t.display_name@) > 1 {
        if count_named_at(rows, t.display_name@, t.display_path@) > 1 {
            Some(t.display_path@ + LINEAGE_SEPARATOR@ + root_label(roots, t.source_root_id))
        } else {
            Some(t.display_path@)
        }
    } else {
        None
    }
}

pub open spec fn opt_view(o: Option<String>) -> Option<Seq<char>> {
    match o {
        Some(s) => Some(s@),
        None => None,
    }
}

pub open spec fn row_tags(rows: Seq<TagRowPresentation>) -> Seq<UiTag> {
    rows.map_values(|r: TagRowPresentation| r.tag)
}

fn count_names(rows: &Vec<UiTag>, t: &UiTag) -> (r: (u64, u64))
    ensures
        r.0 == count_named(rows@, t.display_name@),
        r.1 == count_named_at(rows@, t.display_name@, t.display_path@),
{
    let name = chars_of(t.display_name.as_str());
    let path = chars_of(t.display_path.as_str());
    let mut same_name: u64 = 0;
    let mut same_path: u64 = 0;
    let mut i: usize = 0;
    while i < rows.len()
        invariant
            0 <= i <= rows@.len(),
            name@ == t.display_name@,
            path@ == t.display_path@,
            same_name == count_named(rows@.take(i as int), name@),
            same_path == count_named_at(rows@.take(i as int), name@, path@),
            same_path <= same_name <= i,
        decreases rows@.len() - i,
    {
        proof {
            assert(rows@.take(i as int + 1).drop_last() =~= rows@.take(i as int));
        }
        let other_name = chars_of(rows[i].display_name.as_str());
        if chars_equal(&other_name, &name) {
            same_name = same_name + 1;
            let other_path = chars_of(rows[i].display_path.as_str());
            if chars_equal(&other_path, &path) {
                same_path = same_path + 1;
            }
        }
        i += 1;
    }
    proof {
        assert(rows@.take(rows@.len() as int) =~= rows@);
    }
    (same_name, same_path)
}

fn root_label_exec(roots: &[(i64, String)], id: i64) -> (r: Vec<char>)
    ensures
        r@ == root_label(roots@, id),
{
    let mut i: usize = 0;
    proof {
        assert(roots@.skip(0) =~= roots@);
    }
    while i < roots.len()
        invariant
            0 <= i <= roots@.len(),
            root_label(roots@, id) == root_label(roots@.skip(i as int), id),
        decreases roots@.len() - i,
    {
        proof {
            assert(roots@.skip(i as int).drop_first() =~= roots@.skip(i as int + 1));
        }
        if roots[i].0 == id {
            return chars_of(roots[i].1.as_str());
        }
        i += 1;
    }
    chars_of(UNKNOWN_SOURCE)
}

/// The tag list's rows: sorted, with collision-only lineage text.
pub fn prepare_tag_rows(tags: &[UiTag], roots: &[(i64, String)]) -> (r: Vec<TagRowPresentation>)
    ensures
        tags_sorted(row_tags(r@)),
        row_tags(r@) == stable_sorted(tags@),
        row_tags(r@).to_multiset() == tags@.to_multiset(),
        forall|i: int|
            0 <= i < r@.len() ==> opt_view(#[trigger] r@[i].lineage) == lineage_spec(
                row_tags(r@),
                roots@,
                r@[i].tag,
            ),
{
    let sorted = sort_tags(tags);
    let mut rows: Vec<TagRowPresentation> = Vec::new();
    let mut i: usize = 0;
    while i < sorted.len()
        invariant
            0 <= i <= sorted@.len(),
            row_tags(rows@) == sorted@.take(i as int),
            forall|k: int|
                0 <= k < rows@.len() ==> opt_view(#[trigger] rows@[k].lineage) == lineage_spec(
                    sorted@,
                    roots@,
                    rows@[k].tag,
                ),
        decreases sorted@.len() - i,
    {
        let t = copy_tag(&sorted[i]);
        let (same_name, same_path) = count_names(&sorted, &t);
        let lineage = if same_name > 1 {
            if same_path > 1 {
                let mut text = chars_of(t.display_path.as_str());
                append_str(&mut text, LINEAGE_SEPARATOR);
                let root = root_label_exec(roots, t.source_root_id);
                append_chars(&mut text, &root);
                Some(string_from_chars(&text))
            } else {
                Some(t.display_path.clone())
            }
        } else {
            None
        };
        let ghost before = rows@;
        rows.push(TagRowPresentation { tag: t, lineage });
        proof {
            assert(row_tags(rows@) =~= row_tags(before).push(sorted@[i as int]));
            assert(sorted@.take(i as int + 1) =~= sorted@.take(i as int).push(sorted@[i as int]));
            assert forall|k: int|
                0 <= k < rows@.len() implies opt_view(#[trigger] rows@[k].lineage) == lineage_spec(
                sorted@,
                roots@,
                rows@[k].tag,
            ) by {
                if k < before.len() {
                    assert(rows@[k] == before[k]);
                }
            }
        }
        i += 1;
    }
    proof {
        assert(sorted@.take(sorted@.len() as int) =~= sorted@);
    }
    rows
}

} // verus!
