//! The grid's filter state: which tags are selected, the match mode, the
//! search text and sort option, and the query they make.

use vstd::prelude::*;

use crate::display::SORT_ORDER_LABELS;
use crate::events::{MediaQuery, SortOrder, TagMode, UiTag};
use crate::state::TagFilter;
use crate::text::{append_str, chars_equal, chars_of, decimal, decimal_chars, string_from_chars};

verus! {

/// Two filters name the same selection: all fields agree.
pub open spec fn same_filter(a: TagFilter, b: TagFilter) -> bool {
    &&& a.source_root_id == b.source_root_id
    &&& a.relative_folder_path@ == b.relative_folder_path@
    &&& a.display_name@ == b.display_name@
}

pub open spec fn has_filter(list: Seq<TagFilter>, f: TagFilter) -> bool {
    exists|i: int| 0 <= i < list.len() && same_filter(#[trigger] list[i], f)
}

pub fn same_filter_exec(a: &TagFilter, b: &TagFilter) -> (r: bool)
    ensures
        r == same_filter(*a, *b),
{
    a.source_root_id == b.source_root_id && chars_equal(
        &chars_of(a.relative_folder_path.as_str()),
        &chars_of(b.relative_folder_path.as_str()),
    ) && chars_equal(&chars_of(a.display_name.as_str()), &chars_of(b.display_name.as_str()))
}

fn has_filter_exec(list: &Vec<TagFilter>, f: &TagFilter) -> (r: bool)
    ensures
        r == has_filter(list@, *f),
{
    let mut i: usize = 0;
    while i < list.len()
        invariant
            0 <= i <= list@.len(),
            forall|k: int| 0 <= k < i ==> !same_filter(#[trigger] list@[k], *f),
        decreases list@.len() - i,
    {
        if same_filter_exec(&list[i], f) {
            return true;
        }
        i += 1;
    }
    false
}

fn copy_filter(f: &TagFilter) -> (r: TagFilter)
    ensures
        r == *f,
{
    TagFilter {
        source_root_id: f.source_root_id,
        relative_folder_path: f.relative_folder_path.clone(),
        display_name: f.display_name.clone(),
    }
}

/// The filter a tag row stands for: its full identity and its name.
pub fn tag_filter(tag: &UiTag) -> (f: TagFilter)
    ensures
        f.source_root_id == tag.source_root_id,
        f.relative_folder_path == tag.relative_folder_path,
        f.display_name == tag.display_name,
{
    TagFilter {
        source_root_id: tag.source_root_id,
        relative_folder_path: tag.relative_folder_path.clone(),
        display_name: tag.display_name.clone(),
    }
}

/// `list` without the entries equal to `f`, in order.
pub open spec fn without_filter(list: Seq<TagFilter>, f: TagFilter) -> Seq<TagFilter>
    decreases list.len(),
{
    if list.len() == 0 {
        seq![]
    } else {
        let rest = without_filter(list.drop_last(), f);
        if same_filter(list.last(), f) {
            rest
        } else {
            rest.push(list.last())
        }
    }
}

pub open spec fn toggled_spec(selection: Seq<TagFilter>, f: TagFilter, active: bool) -> Seq<
    TagFilter,
> {
    if active {
        if has_filter(selection, f) {
            selection
        } else {
            selection.push(f)
        }
    } else {
        without_filter(selection, f)
    }
}

/// The selection after a tag row was toggled to `active`: an activated tag is
/// appended unless already selected; a deactivated one leaves the selection.
pub fn toggle_tag_selection(selection: &Vec<TagFilter>, f: &TagFilter, active: bool) -> (r: Vec<
    TagFilter,
>)
    ensures
        r@ == toggled_spec(selection@, *f, active),
{
    if active {
        let mut r: Vec<TagFilter> = Vec::new();
        let mut i: usize = 0;
        while i < selection.len()
            invariant
                0 <= i <= selection@.len(),
                r@ == selection@.take(i as int),
            decreases selection@.len() - i,
        {
            r.push(copy_filter(&selection[i]));
            assert(selection@.take(i as int + 1) =~= selection@.take(i as int).push(selection@[i as int]));
            i += 1;
        }
        assert(selection@.take(selection@.len() as int) =~= selection@);
        if !has_filter_exec(selection, f) {
            r.push(copy_filter(f));
        }
        r
    } else {
        let mut r: Vec<TagFilter> = Vec::new();
        let mut i: usize = 0;
        while i < selection.len()
            invariant
                0 <= i <= selection@.len(),
                r@ == without_filter(selection@.take(i as int), *f),
            decreases selection@.len() - i,
        {
            assert(selection@.take(i as int + 1).drop_last() =~= selection@.take(i as int));
            if !same_filter_exec(&selection[i], f) {
                r.push(copy_filter(&selection[i]));
            }
            i += 1;
        }
        assert(selection@.take(selection@.len() as int) =~= selection@);
        r
    }
}

/// The selection after restoring persisted filters: walking the tag rows in
/// order, each row whose filter was persisted joins the selection unless there.
pub open spec fn restored_spec(current: Seq<TagFilter>, tags: Seq<UiTag>, active: Seq<TagFilter>) -> Seq<
    TagFilter,
>
    decreases tags.len(),
{
    if tags.len() == 0 {
        current
    } else {
        let before = restored_spec(current, tags.drop_last(), active);
        let t = tags.last();
        let f = TagFilter {
            source_root_id: t.source_root_id,
            relative_folder_path: t.relative_folder_path,
            display_name: t.display_name,
        };
        if has_filter(active, f) && !has_filter(before, f) {
            before.push(f)
        } else {
            before
        }
    }
}

/// Applies persisted tag filters to the current selection.
pub fn restore_selection(current: Vec<TagFilter>, tags: &[UiTag], active: &Vec<TagFilter>) -> (r: Vec<
    TagFilter,
>)
    ensures
        active@.len() == 0 ==> r@ == current@,
        active@.len() > 0 ==> r@ == restored_spec(current@, tags@, active@),
{
    if active.len() == 0 {
        return current;
    }
    let mut r = current;
    let ghost start = r@;
    let mut i: usize = 0;
    while i < tags.len()
        invariant
            0 <= i <= tags@.len(),
            r@ == restored_spec(start, tags@.take(i as int), active@),
        decreases tags@.len() - i,
    {
        assert(tags@.take(i as int + 1).drop_last() =~= tags@.take(i as int));
        let f = tag_filter(&tags[i]);
        if has_filter_exec(active, &f) && !has_filter_exec(&r, &f) {
            r.push(f);
        }
        i += 1;
    }
    assert(tags@.take(tags@.len() as int) =~= tags@);
    r
}

/// The sort order of the radio at `index`; indices past the last give the last.
pub open spec fn sort_order_at(index: u32) -> SortOrder {
    if index == 0 {
        SortOrder::DateModifiedDesc
    } else if index == 1 {
        SortOrder::DateModifiedAsc
    } else if index == 2 {
        SortOrder::DateAddedDesc
    } else if index == 3 {
        SortOrder::DateAddedAsc
    } else if index == 4 {
        SortOrder::FilenameAsc
    } else if index == 5 {
        SortOrder::FilenameDesc
    } else if index == 6 {
        SortOrder::FileSizeDesc
    } else {
        SortOrder::FileSizeAsc
    }
}

pub fn sort_order_for_index(index: u32) -> (r: SortOrder)
    ensures
        r == sort_order_at(index),
{
    match index {
        0 => SortOrder::DateModifiedDesc,
        1 => SortOrder::DateModifiedAsc,
        2 => SortOrder::DateAddedDesc,
        3 => SortOrder::DateAddedAsc,
        4 => SortOrder::FilenameAsc,
        5 => SortOrder::FilenameDesc,
        6 => SortOrder::FileSizeDesc,
        _ => SortOrder::FileSizeAsc,
    }
}

/// The backend query for the current filter state: the selected tags, All or
/// Any by the match mode, the search text unless empty, and the sort option.
pub fn build_media_query(selected: &Vec<TagFilter>, match_all: bool, search: &str, sort_index: u32) -> (q:
    MediaQuery)
    ensures
        q.tags@ == selected@,
        q.tag_mode == (if match_all {
            TagMode::All
        } else {
            TagMode::Any
        }),
        search@.len() == 0 ==> q.search is None,
        search@.len() > 0 ==> q.search is Some && q.search.unwrap()@ == search@,
        q.sort == sort_order_at(sort_index),
{
    let mut tags: Vec<TagFilter> = Vec::new();
    let mut i: usize = 0;
    while i < selected.len()
        invariant
            0 <= i <= selected@.len(),
            tags@ == selected@.take(i as int),
        decreases selected@.len() - i,
    {
        tags.push(copy_filter(&selected[i]));
        assert(selected@.take(i as int + 1) =~= selected@.take(i as int).push(selected@[i as int]));
        i += 1;
    }
    assert(selected@.take(selected@.len() as int) =~= selected@);
    let search_chars = chars_of(search);
    MediaQuery {
        tags,
        tag_mode: if match_all {
            TagMode::All
        } else {
            TagMode::Any
        },
        search: if search_chars.len() == 0 {
            None
        } else {
            Some(string_from_chars(&search_chars))
        },
        sort: sort_order_for_index(sort_index),
    }
}

/// The radio index of a persisted sort label: its first position among the
/// labels, or 0 when it is none of them.
pub fn initial_sort_index(label: &str) -> (r: u32)
    ensures
        r < SORT_ORDER_LABELS@.len(),
        (exists|i: int| 0 <= i < SORT_ORDER_LABELS@.len() && SORT_ORDER_LABELS@[i]@ == label@)
            ==> SORT_ORDER_LABELS@[r as int]@ == label@ && forall|j: int|
            0 <= j < r ==> SORT_ORDER_LABELS@[j]@ != label@,
        !(exists|i: int| 0 <= i < SORT_ORDER_LABELS@.len() && SORT_ORDER_LABELS@[i]@ == label@)
            ==> r == 0,
{
    let chars = chars_of(label);
    let mut i: usize = 0;
    while i < SORT_ORDER_LABELS.len()
        invariant
            0 <= i <= SORT_ORDER_LABELS@.len(),
            chars@ == label@,
            forall|j: int| 0 <= j < i ==> SORT_ORDER_LABELS@[j]@ != label@,
        decreases SORT_ORDER_LABELS@.len() - i,
    {
        if chars_equal(&chars_of(SORT_ORDER_LABELS[i]), &chars) {
            return i as u32;
        }
        i += 1;
    }
    0
}

/// What the filter controls show.
pub struct FilterControlsView {
    /// The "Clear filters" button is visible.
    pub clear_visible: bool,
    /// The Any/All match control is visible.
    pub match_mode_visible: bool,
    /// The clear button's label, when visible.
    pub label: Option<String>,
    /// The clear button's accessible description, when visible.
    pub description: Option<String>,
}

pub open spec fn clear_description_spec(active_count: nat, has_search: bool) -> Seq<char> {
    if active_count == 0 {
        "Clear search"@
    } else if active_count == 1 {
        if has_search {
            "Clear one tag filter and search"@
        } else {
            "Clear one tag filter"@
        }
    } else if has_search {
        "Clear "@ + decimal(active_count) + " tag filters and search"@
    } else {
        "Clear "@ + decimal(active_count) + " tag filters"@
    }
}

/// The filter controls for `active_count` selected tags and a search text
/// that is empty or not.
pub fn filter_controls(active_count: usize, has_search: bool) -> (v: FilterControlsView)
    requires
        active_count < usize::MAX,
    ensures
        v.clear_visible == (active_count > 0 || has_search),
        v.match_mode_visible == (active_count > 0),
        !v.clear_visible ==> v.label is None && v.description is None,
        v.clear_visible ==> v.label is Some && v.label.unwrap()@ == "Clear filters ("@ + decimal(
            (active_count + if has_search {
                1nat
            } else {
                0nat
            }) as nat,
        ) + ")"@,
        v.clear_visible ==> v.description is Some && v.description.unwrap()@
            == clear_description_spec(active_count as nat, has_search),
{
    let has_tags = active_count > 0;
    if !has_tags && !has_search {
        return FilterControlsView {
            clear_visible: false,
            match_mode_visible: false,
            label: None,
            description: None,
        };
    }
    let count: usize = if has_search {
        active_count + 1
    } else {
        active_count
    };
    let mut label = chars_of("Clear filters (");
    let digits = decimal_chars(count as u64);
    crate::text::append_chars(&mut label, &digits);
    append_str(&mut label, ")");
    let description: Vec<char> = if active_count == 0 {
        chars_of("Clear search")
    } else if active_count == 1 {
        if has_search {
            chars_of("Clear one tag filter and search")
        } else {
            chars_of("Clear one tag filter")
        }
    } else {
        let mut d = chars_of("Clear ");
        let n = decimal_chars(active_count as u64);
        crate::text::append_chars(&mut d, &n);
        if has_search {
            append_str(&mut d, " tag filters and search");
        } else {
            append_str(&mut d, " tag filters");
        }
        d
    };
    FilterControlsView {
        clear_visible: true,
        match_mode_visible: has_tags,
        label: Some(string_from_chars(&label)),
        description: Some(string_from_chars(&description)),
    }
}

} // verus!
