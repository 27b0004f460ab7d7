//! Which media the grid shows and in what order.
//!
//! The grid keeps an item when it carries the selected tags (all of them or
//! any, by the match mode) and, with a search text, when the text occurs,
//! ignoring case, in its file stem, its path or one of its tags. With a search
//! text, items rank by how well they match (exact name, then tag, then name or
//! path substring); within a rank the chosen sort order applies.

use std::cmp::Ordering;
use vstd::prelude::*;

use crate::events::{SortOrder, UiMediaItem};
use crate::filter_state::sort_order_at;
use crate::path::{file_name_of, file_stem, split_name};
use crate::text::{
    chars_contains, chars_equal, chars_less, chars_of, contains_seq, lowercase_of, seq_less,
    split_chars, split_on, unicode_lowercase,
};

verus! {

/// The tags of an item, as its comma-joined tag text splits.
pub open spec fn item_tags(item: UiMediaItem) -> Seq<Seq<char>> {
    split_on(item.tags@, ',')
}

/// The tag selection admits an item with tags `tags`.
pub open spec fn selection_admits(selected: Seq<String>, match_all: bool, tags: Seq<Seq<char>>) -> bool {
    if selected.len() == 0 {
        true
    } else if match_all {
        forall|i: int| 0 <= i < selected.len() ==> tags.contains(#[trigger] selected[i]@)
    } else {
        exists|i: int| 0 <= i < selected.len() && tags.contains(#[trigger] selected[i]@)
    }
}

/// The file stem shown for a file name; the whole name when it has none.
pub open spec fn display_stem(filename: Seq<char>) -> Seq<char> {
    match file_stem(filename) {
        Some(s) => s,
        None => filename,
    }
}

/// Some tag, in lowercase, contains `q`.
pub open spec fn some_tag_contains(tags: Seq<Seq<char>>, q: Seq<char>) -> bool {
    exists|i: int| 0 <= i < tags.len() && contains_seq(unicode_lowercase(#[trigger] tags[i]), q)
}

/// The search text admits the item.
pub open spec fn search_admits(query: Seq<char>, item: UiMediaItem) -> bool {
    if query.len() == 0 {
        true
    } else {
        let q = unicode_lowercase(query);
        ||| contains_seq(unicode_lowercase(display_stem(item.filename@)), q)
        ||| contains_seq(unicode_lowercase(item.path@), q)
        ||| some_tag_contains(item_tags(item), q)
    }
}

pub open spec fn shown_in_grid(
    selected: Seq<String>,
    match_all: bool,
    query: Seq<char>,
    item: UiMediaItem,
) -> bool {
    selection_admits(selected, match_all, item_tags(item)) && search_admits(query, item)
}

fn seq_list_contains(list: &Vec<Vec<char>>, s: &[char]) -> (r: bool)
    ensures
        r == crate::path::views(list@).contains(s@),
{
    let mut i: usize = 0;
    while i < list.len()
        invariant
            0 <= i <= list@.len(),
            forall|k: int| 0 <= k < i ==> (#[trigger] list@[k])@ != s@,
        decreases list@.len() - i,
    {
        if chars_equal(&list[i], s) {
            assert(crate::path::views(list@)[i as int] == s@);
            return true;
        }
        i += 1;
    }
    proof {
        if crate::path::views(list@).contains(s@) {
            let k = choose|k: int|
                0 <= k < crate::path::views(list@).len() && crate::path::views(list@)[k] == s@;
            assert(list@[k]@ == s@);
        }
    }
    false
}

fn lowered(s: &[char]) -> (r: Vec<char>)
    ensures
        r@ == unicode_lowercase(s@),
{
    let text = crate::text::string_from_chars(s);
    let low = lowercase_of(text.as_str());
    chars_of(low.as_str())
}

fn display_stem_exec(filename: &[char]) -> (r: Vec<char>)
    ensures
        r@ == display_stem(filename@),
{
    match file_name_of(filename) {
        Some(name) => {
            let (stem, _) = split_name(&name);
            stem
        },
        None => crate::text::copy_chars(filename),
    }
}

fn some_tag_contains_exec(tags: &Vec<Vec<char>>, q: &Vec<char>) -> (r: bool)
    ensures
        r == some_tag_contains(crate::path::views(tags@), q@),
{
    let mut i: usize = 0;
    while i < tags.len()
        invariant
            0 <= i <= tags@.len(),
            forall|k: int|
                0 <= k < i ==> !contains_seq(unicode_lowercase((#[trigger] tags@[k])@), q@),
        decreases tags@.len() - i,
    {
        let low = lowered(&tags[i]);
        if chars_contains(&low, q) {
            assert(crate::path::views(tags@)[i as int] == tags@[i as int]@);
            return true;
        }
        i += 1;
    }
    proof {
        let v = crate::path::views(tags@);
        assert forall|k: int| 0 <= k < v.len() implies !contains_seq(
            unicode_lowercase(#[trigger] v[k]),
            q@,
        ) by {
            assert(v[k] == tags@[k]@);
        }
    }
    false
}

/// Whether the grid shows `item` under the tag selection and search text.
pub fn media_matches_filter(selected: &[String], match_all: bool, query: &str, item: &UiMediaItem) -> (r:
    bool)
    ensures
        r == shown_in_grid(selected@, match_all, query@, *item),
{
    let tag_chars = chars_of(item.tags.as_str());
    let tags = split_chars(&tag_chars, ',');
    if selected.len() > 0 {
        let mut i: usize = 0;
        let mut all = true;
        let mut any = false;
        while i < selected.len()
            invariant
                0 <= i <= selected@.len(),
                crate::path::views(tags@) == item_tags(*item),
                all == forall|k: int|
                    0 <= k < i ==> item_tags(*item).contains(#[trigger] selected@[k]@),
                any == exists|k: int|
                    0 <= k < i && item_tags(*item).contains(#[trigger] selected@[k]@),
            decreases selected@.len() - i,
        {
            let s = chars_of(selected[i].as_str());
            let has = seq_list_contains(&tags, &s);
            proof {
                if any || has {
                    if has {
                        assert(item_tags(*item).contains(selected@[i as int]@));
                    }
                }
            }
            all = all && has;
            any = any || has;
            i += 1;
        }
        let admitted = if match_all {
            all
        } else {
            any
        };
        if !admitted {
            return false;
        }
    }
    let query_chars = chars_of(query);
    if query_chars.len() == 0 {
        return true;
    }
    let q = lowered(&query_chars);
    let filename = chars_of(item.filename.as_str());
    let stem = display_stem_exec(&filename);
    if chars_contains(&lowered(&stem), &q) {
        return true;
    }
    let path = chars_of(item.path.as_str());
    if chars_contains(&lowered(&path), &q) {
        return true;
    }
    some_tag_contains_exec(&tags, &q)
}

/// How well an item matches the lowercase search text `q`: 1 for a file name
/// or stem equal to it, 2 for a tag containing it, 3 for a file name or path
/// containing it, 4 otherwise.
pub open spec fn search_rank_spec(q: Seq<char>, item: UiMediaItem) -> u8 {
    let name = unicode_lowercase(item.filename@);
    let stem = unicode_lowercase(
        match file_stem(item.filename@) {
            Some(s) => s,
            None => Seq::<char>::empty(),
        },
    );
    if name == q || stem == q {
        1
    } else if some_tag_contains(item_tags(item), q) {
        2
    } else if contains_seq(name, q) || contains_seq(unicode_lowercase(item.path@), q) {
        3
    } else {
        4
    }
}

pub open spec fn int_order(a: i64, b: i64) -> Ordering {
    if a < b {
        Ordering::Less
    } else if a == b {
        Ordering::Equal
    } else {
        Ordering::Greater
    }
}

pub open spec fn rank_order(a: u8, b: u8) -> Ordering {
    if a < b {
        Ordering::Less
    } else if a == b {
        Ordering::Equal
    } else {
        Ordering::Greater
    }
}

pub open spec fn seq_order(a: Seq<char>, b: Seq<char>) -> Ordering {
    if seq_less(a, b) {
        Ordering::Less
    } else if a == b {
        Ordering::Equal
    } else {
        Ordering::Greater
    }
}

pub open spec fn reversed(o: Ordering) -> Ordering {
    match o {
        Ordering::Less => Ordering::Greater,
        Ordering::Equal => Ordering::Equal,
        Ordering::Greater => Ordering::Less,
    }
}

/// Creation time as the grid holds it: 0 when unknown.
pub open spec fn created_or_zero(item: UiMediaItem) -> i64 {
    match item.created_at {
        Some(c) => c,
        None => 0,
    }
}

/// The order of the eight sort options, by index: modified newest and oldest
/// first, created newest and oldest first, file name A to Z and Z to A
/// ignoring case, size largest and smallest first. Other indices keep order.
pub open spec fn sort_option_order(sort_index: u32, a: UiMediaItem, b: UiMediaItem) -> Ordering {
    if sort_index == 0 {
        reversed(int_order(a.modified_at, b.modified_at))
    } else if sort_index == 1 {
        int_order(a.modified_at, b.modified_at)
    } else if sort_index == 2 {
        reversed(int_order(created_or_zero(a), created_or_zero(b)))
    } else if sort_index == 3 {
        int_order(created_or_zero(a), created_or_zero(b))
    } else if sort_index == 4 {
        seq_order(unicode_lowercase(a.filename@), unicode_lowercase(b.filename@))
    } else if sort_index == 5 {
        reversed(seq_order(unicode_lowercase(a.filename@), unicode_lowercase(b.filename@)))
    } else if sort_index == 6 {
        reversed(int_order(a.size_bytes, b.size_bytes))
    } else if sort_index == 7 {
        int_order(a.size_bytes, b.size_bytes)
    } else {
        Ordering::Equal
    }
}

/// The grid's order of two items: by search rank first when there is a
/// search text, then by the sort option.
pub open spec fn grid_order_spec(sort_index: u32, query: Seq<char>, a: UiMediaItem, b: UiMediaItem) -> Ordering {
    if query.len() > 0 && search_rank_spec(unicode_lowercase(query), a) != search_rank_spec(
        unicode_lowercase(query),
        b,
    ) {
        rank_order(
            search_rank_spec(unicode_lowercase(query), a),
            search_rank_spec(unicode_lowercase(query), b),
        )
    } else {
        sort_option_order(sort_index, a, b)
    }
}

fn search_rank(q: &Vec<char>, item: &UiMediaItem) -> (r: u8)
    ensures
        r == search_rank_spec(q@, *item),
{
    let filename = chars_of(item.filename.as_str());
    let name = lowered(&filename);
    let stem_chars = match file_name_of(&filename) {
        Some(n) => {
            let (stem, _) = split_name(&n);
            stem
        },
        None => Vec::new(),
    };
    let stem = lowered(&stem_chars);
    if chars_equal(&name, q) || chars_equal(&stem, q) {
        return 1;
    }
    let tag_chars = chars_of(item.tags.as_str());
    let tags = split_chars(&tag_chars, ',');
    if some_tag_contains_exec(&tags, q) {
        return 2;
    }
    let path = chars_of(item.path.as_str());
    if chars_contains(&name, q) || chars_contains(&lowered(&path), q) {
        return 3;
    }
    4
}

fn i64_order(a: i64, b: i64) -> (r: Ordering)
    ensures
        r == int_order(a, b),
{
    if a < b {
        Ordering::Less
    } else if a == b {
        Ordering::Equal
    } else {
        Ordering::Greater
    }
}

fn reverse_order(o: Ordering) -> (r: Ordering)
    ensures
        r == reversed(o),
{
    match o {
        Ordering::Less => Ordering::Greater,
        Ordering::Equal => Ordering::Equal,
        Ordering::Greater => Ordering::Less,
    }
}

fn name_order(a: &UiMediaItem, b: &UiMediaItem) -> (r: Ordering)
    ensures
        r == seq_order(unicode_lowercase(a.filename@), unicode_lowercase(b.filename@)),
{
    let la = chars_of(lowercase_of(a.filename.as_str()).as_str());
    let lb = chars_of(lowercase_of(b.filename.as_str()).as_str());
    if chars_less(&la, &lb) {
        Ordering::Less
    } else if chars_equal(&la, &lb) {
        Ordering::Equal
    } else {
        Ordering::Greater
    }
}

fn created_value(item: &UiMediaItem) -> (r: i64)
    ensures
        r == created_or_zero(*item),
{
    match item.created_at {
        Some(c) => c,
        None => 0,
    }
}

/// The order of two grid items under sort option `sort_index` and search text `query`.
pub fn compare_grid_items(sort_index: u32, query: &str, a: &UiMediaItem, b: &UiMediaItem) -> (r:
    Ordering)
    ensures
        r == grid_order_spec(sort_index, query@, *a, *b),
{
    let query_chars = chars_of(query);
    if query_chars.len() > 0 {
        let q = lowered(&query_chars);
        let r1 = search_rank(&q, a);
        let r2 = search_rank(&q, b);
        if r1 != r2 {
            return if r1 < r2 {
                Ordering::Less
            } else {
                Ordering::Greater
            };
        }
    }
    if sort_index == 0 {
        reverse_order(i64_order(a.modified_at, b.modified_at))
    } else if sort_index == 1 {
        i64_order(a.modified_at, b.modified_at)
    } else if sort_index == 2 {
        reverse_order(i64_order(created_value(a), created_value(b)))
    } else if sort_index == 3 {
        i64_order(created_value(a), created_value(b))
    } else if sort_index == 4 {
        name_order(a, b)
    } else if sort_index == 5 {
        reverse_order(name_order(a, b))
    } else if sort_index == 6 {
        reverse_order(i64_order(a.size_bytes, b.size_bytes))
    } else if sort_index == 7 {
        i64_order(a.size_bytes, b.size_bytes)
    } else {
        Ordering::Equal
    }
}

/// A search rank decides only between different ranks: with a search text,
/// two items of equal rank are ordered exactly as the sort option orders them
/// with no search text at all.
pub proof fn law_equal_rank_falls_back_to_sort_option(
    sort_index: u32,
    query: Seq<char>,
    a: UiMediaItem,
    b: UiMediaItem,
)
    requires
        search_rank_spec(unicode_lowercase(query), a) == search_rank_spec(
            unicode_lowercase(query),
            b,
        ),
    ensures
        grid_order_spec(sort_index, query, a, b) == grid_order_spec(
            sort_index,
            Seq::<char>::empty(),
            a,
            b,
        ),
{
}

/// With a search text, the better-ranked item (lower rank) always comes
/// first, whatever the sort option.
pub proof fn law_better_rank_first(sort_index: u32, query: Seq<char>, a: UiMediaItem, b: UiMediaItem)
    requires
        query.len() > 0,
        search_rank_spec(unicode_lowercase(query), a) < search_rank_spec(
            unicode_lowercase(query),
            b,
        ),
    ensures
        grid_order_spec(sort_index, query, a, b) == Ordering::Less,
        grid_order_spec(sort_index, query, b, a) == Ordering::Greater,
{
}

/// What each sort option means, for two items and no search text: newest or
/// oldest modification first, newest or oldest creation first, file name
/// A to Z or Z to A ignoring case, largest or smallest first.
pub proof fn law_sort_options_follow_their_labels(a: UiMediaItem, b: UiMediaItem)
    ensures
        a.modified_at > b.modified_at ==> grid_order_spec(0, Seq::<char>::empty(), a, b)
            == Ordering::Less && grid_order_spec(1, Seq::<char>::empty(), a, b)
            == Ordering::Greater,
        created_or_zero(a) > created_or_zero(b) ==> grid_order_spec(2, Seq::<char>::empty(), a, b)
            == Ordering::Less && grid_order_spec(3, Seq::<char>::empty(), a, b)
            == Ordering::Greater,
        seq_less(unicode_lowercase(a.filename@), unicode_lowercase(b.filename@)) ==> grid_order_spec(
            4,
            Seq::<char>::empty(),
            a,
            b,
        ) == Ordering::Less && grid_order_spec(5, Seq::<char>::empty(), a, b)
            == Ordering::Greater,
        a.size_bytes > b.size_bytes ==> grid_order_spec(6, Seq::<char>::empty(), a, b)
            == Ordering::Less && grid_order_spec(7, Seq::<char>::empty(), a, b)
            == Ordering::Greater,
{
}

/// How a query sort order arranges two items, read off its name: the field it
/// sorts by and whether larger (newer) values come first.
pub open spec fn named_order(o: SortOrder, a: UiMediaItem, b: UiMediaItem) -> Ordering {
    match o {
        SortOrder::DateModifiedDesc => reversed(int_order(a.modified_at, b.modified_at)),
        SortOrder::DateModifiedAsc => int_order(a.modified_at, b.modified_at),
        SortOrder::DateAddedDesc => reversed(int_order(created_or_zero(a), created_or_zero(b))),
        SortOrder::DateAddedAsc => int_order(created_or_zero(a), created_or_zero(b)),
        SortOrder::FilenameAsc => seq_order(
            unicode_lowercase(a.filename@),
            unicode_lowercase(b.filename@),
        ),
        SortOrder::FilenameDesc => reversed(
            seq_order(unicode_lowercase(a.filename@), unicode_lowercase(b.filename@)),
        ),
        SortOrder::FileSizeDesc => reversed(int_order(a.size_bytes, b.size_bytes)),
        SortOrder::FileSizeAsc => int_order(a.size_bytes, b.size_bytes),
    }
}

/// The query sort order a radio asks the backend for arranges items as the
/// grid's own sort option for that radio does, so both sides agree on what
/// each radio means.
pub proof fn law_radio_sort_orders_agree(index: u32, a: UiMediaItem, b: UiMediaItem)
    requires
        index < 8,
    ensures
        named_order(sort_order_at(index), a, b) == sort_option_order(index, a, b),
{
}

} // verus!
