//! A model of Unix path text, component by component.
//!
//! Paths are handled as UTF-8 text. A path's components are: a root marker
//! `"/"` when it starts with a slash, or a current-directory marker `"."` when
//! a relative path starts with a `.` segment, followed by every segment between
//! slashes that is neither empty nor `.`. Repeated and trailing slashes, and
//! `.` segments after the first, therefore never produce a component; `..`
//! segments do.

use vstd::prelude::*;

use crate::text::{chars_equal, copy_chars};

verus! {

/// The root-directory marker component.
pub open spec fn root_marker() -> Seq<char> {
    seq!['/']
}

/// The current-directory marker component.
pub open spec fn cur_dir_marker() -> Seq<char> {
    seq!['.']
}

/// The parent-directory component `..`.
pub open spec fn parent_dir_segment() -> Seq<char> {
    seq!['.', '.']
}

/// A segment that yields a component: non-empty and not `.`.
pub open spec fn is_kept_segment(seg: Seq<char>) -> bool {
    seg.len() > 0 && seg != cur_dir_marker()
}

/// A component naming a file or folder: not a marker and not `..`.
pub open spec fn is_name_component(c: Seq<char>) -> bool {
    c.len() > 0 && c != root_marker() && c != cur_dir_marker() && c != parent_dir_segment()
}

/// Reading `s` left to right: the kept segments already closed by a slash,
/// and the segment still open at the end.
pub open spec fn segment_scan(s: Seq<char>) -> (Seq<Seq<char>>, Seq<char>)
    decreases s.len(),
{
    if s.len() == 0 {
        (seq![], seq![])
    } else {
        let (done, cur) = segment_scan(s.drop_last());
        if s.last() == '/' {
            (if is_kept_segment(cur) { done.push(cur) } else { done }, seq![])
        } else {
            (done, cur.push(s.last()))
        }
    }
}

/// The kept segments of `s`, in order.
pub open spec fn kept_segments(s: Seq<char>) -> Seq<Seq<char>> {
    let (done, cur) = segment_scan(s);
    if is_kept_segment(cur) {
        done.push(cur)
    } else {
        done
    }
}

pub open spec fn is_absolute(s: Seq<char>) -> bool {
    s.len() > 0 && s[0] == '/'
}

pub open spec fn has_leading_cur_dir(s: Seq<char>) -> bool {
    !is_absolute(s) && s.len() > 0 && s[0] == '.' && (s.len() == 1 || s[1] == '/')
}

/// All components of `s`: the leading marker, if any, then the kept segments.
pub open spec fn components(s: Seq<char>) -> Seq<Seq<char>> {
    if is_absolute(s) {
        seq![root_marker()] + kept_segments(s)
    } else if has_leading_cur_dir(s) {
        seq![cur_dir_marker()] + kept_segments(s)
    } else {
        kept_segments(s)
    }
}

/// The final component when it names a file or folder.
pub open spec fn file_name(s: Seq<char>) -> Option<Seq<char>> {
    let k = kept_segments(s);
    if k.len() > 0 && k.last() != parent_dir_segment() {
        Some(k.last())
    } else {
        None
    }
}

/// Index of the last occurrence of `c` in `s`, or -1.
pub open spec fn last_index_of(s: Seq<char>, c: char) -> int
    decreases s.len(),
{
    if s.len() == 0 {
        -1
    } else if s.last() == c {
        s.len() - 1
    } else {
        last_index_of(s.drop_last(), c)
    }
}

/// The extension of a file name: the text after its last dot, when that dot
/// is not the first character.
pub open spec fn name_extension(name: Seq<char>) -> Option<Seq<char>> {
    let k = last_index_of(name, '.');
    if k <= 0 || name == parent_dir_segment() {
        None
    } else {
        Some(name.skip(k + 1))
    }
}

/// The stem of a file name: the text before its last dot, or the whole name
/// when it has no extension.
pub open spec fn name_stem(name: Seq<char>) -> Seq<char> {
    let k = last_index_of(name, '.');
    if k <= 0 || name == parent_dir_segment() {
        name
    } else {
        name.take(k)
    }
}

pub open spec fn extension(s: Seq<char>) -> Option<Seq<char>> {
    match file_name(s) {
        Some(n) => name_extension(n),
        None => None,
    }
}

pub open spec fn file_stem(s: Seq<char>) -> Option<Seq<char>> {
    match file_name(s) {
        Some(n) => Some(name_stem(n)),
        None => None,
    }
}

/// The components of `path` after the components of `base`, when `base`'s
/// components are a prefix of `path`'s.
pub open spec fn strip_prefix(path: Seq<char>, base: Seq<char>) -> Option<Seq<Seq<char>>> {
    let pc = components(path);
    let bc = components(base);
    if bc.len() <= pc.len() && pc.take(bc.len() as int) == bc {
        Some(pc.skip(bc.len() as int))
    } else {
        None
    }
}

/// Whether `path` lies at or below `base`, component-wise.
pub open spec fn starts_with(path: Seq<char>, base: Seq<char>) -> bool {
    strip_prefix(path, base) is Some
}

/// The components of the parent of a component list: everything but the
/// last component, unless there is none or only a root marker.
pub open spec fn parent_components(comps: Seq<Seq<char>>) -> Option<Seq<Seq<char>>> {
    if comps.len() == 0 || comps.last() == root_marker() {
        None
    } else {
        Some(comps.drop_last())
    }
}

/// Name of the folder directly containing `s`.
pub open spec fn parent_folder_name(s: Seq<char>) -> Option<Seq<char>> {
    match parent_components(components(s)) {
        Some(p) => if p.len() > 0 && is_name_component(p.last()) {
            Some(p.last())
        } else {
            None
        },
        None => None,
    }
}

/// Parts joined with `sep` between consecutive parts.
pub open spec fn join_with(parts: Seq<Seq<char>>, sep: char) -> Seq<char>
    decreases parts.len(),
{
    if parts.len() == 0 {
        seq![]
    } else if parts.len() == 1 {
        parts[0]
    } else {
        join_with(parts.drop_last(), sep) + seq![sep] + parts.last()
    }
}

proof fn lemma_segment_scan_has_no_slash(s: Seq<char>)
    ensures
        !segment_scan(s).1.contains('/'),
        forall|i: int|
            0 <= i < segment_scan(s).0.len() ==> !(#[trigger] segment_scan(s).0[i]).contains('/'),
    decreases s.len(),
{
    if s.len() > 0 {
        lemma_segment_scan_has_no_slash(s.drop_last());
        let (done, cur) = segment_scan(s.drop_last());
        if s.last() != '/' {
            assert forall|j: int| 0 <= j < cur.push(s.last()).len() implies cur.push(s.last())[j]
                != '/' by {
                if j < cur.len() {
                    assert(cur.push(s.last())[j] == cur[j]);
                }
            }
        } else {
            assert(!Seq::<char>::empty().contains('/'));
        }
    }
}

/// No kept segment, hence no file name, contains a slash.
pub proof fn lemma_file_name_has_no_slash(s: Seq<char>)
    ensures
        forall|i: int| 0 <= i < kept_segments(s).len() ==> !(#[trigger] kept_segments(s)[i]).contains('/'),
        file_name(s) matches Some(n) ==> !n.contains('/'),
{
    lemma_segment_scan_has_no_slash(s);
}

/// The views of a vector of character vectors.
pub open spec fn views(v: Seq<Vec<char>>) -> Seq<Seq<char>> {
    Seq::new(v.len(), |i: int| v[i]@)
}

pub proof fn lemma_views_push(v: Seq<Vec<char>>, x: Vec<char>)
    ensures
        views(v.push(x)) == views(v).push(x@),
{
    assert(views(v.push(x)) =~= views(v).push(x@));
}

/// Exec side of [`segment_scan`]'s result: the kept segments of `s`.
pub fn kept_segments_of(s: &[char]) -> (r: Vec<Vec<char>>)
    ensures
        views(r@) == kept_segments(s@),
{
    let mut done: Vec<Vec<char>> = Vec::new();
    let mut cur: Vec<char> = Vec::new();
    let mut i: usize = 0;
    while i < s.len()
        invariant
            0 <= i <= s.len(),
            (views(done@), cur@) == segment_scan(s@.take(i as int)),
        decreases s.len() - i,
    {
        assert(s@.take(i as int + 1).drop_last() == s@.take(i as int));
        let c = s[i];
        if c == '/' {
            let keep = cur.len() > 0 && !(cur.len() == 1 && cur[0] == '.');
            assert(keep == is_kept_segment(cur@)) by {
                if cur.len() == 1 {
                    assert(cur@ == seq![cur@[0]]);
                }
            }
            if keep {
                let seg = cur;
                proof {
                    lemma_views_push(done@, seg);
                }
                done.push(seg);
            }
            cur = Vec::new();
        } else {
            cur.push(c);
        }
        i += 1;
    }
    assert(s@.take(s.len() as int) == s@);
    let keep = cur.len() > 0 && !(cur.len() == 1 && cur[0] == '.');
    assert(keep == is_kept_segment(cur@)) by {
        if cur.len() == 1 {
            assert(cur@ == seq![cur@[0]]);
        }
    }
    if keep {
        let seg = cur;
        proof {
            lemma_views_push(done@, seg);
        }
        done.push(seg);
    }
    done
}

/// Exec side of [`components`].
pub fn components_of(s: &[char]) -> (r: Vec<Vec<char>>)
    ensures
        views(r@) == components(s@),
{
    let kept = kept_segments_of(s);
    let absolute = s.len() > 0 && s[0] == '/';
    let cur_dir = !absolute && s.len() > 0 && s[0] == '.' && (s.len() == 1 || s[1] == '/');
    if absolute || cur_dir {
        let mut marker: Vec<char> = Vec::new();
        marker.push(if absolute { '/' } else { '.' });
        let mut r: Vec<Vec<char>> = Vec::new();
        proof {
            lemma_views_push(r@, marker);
        }
        r.push(marker);
        assert(views(kept@).take(0) =~= Seq::<Seq<char>>::empty());
        let mut j: usize = 0;
        while j < kept.len()
            invariant
                0 <= j <= kept.len(),
                r.len() == j + 1,
                views(r@) == seq![marker@] + views(kept@).take(j as int),
            decreases kept.len() - j,
        {
            let c = copy_chars(&kept[j]);
            proof {
                lemma_views_push(r@, c);
            }
            r.push(c);
            assert(views(kept@).take(j as int + 1) =~= views(kept@).take(j as int).push(
                kept[j as int]@,
            ));
            j += 1;
        }
        assert(views(kept@).take(kept.len() as int) =~= views(kept@));
        r
    } else {
        kept
    }
}

/// Whether the component list `base` is a prefix of `comps`.
pub fn components_have_prefix(comps: &Vec<Vec<char>>, base: &Vec<Vec<char>>) -> (r: bool)
    ensures
        r == (base.len() <= comps.len() && views(comps@).take(base.len() as int) == views(base@)),
{
    if base.len() > comps.len() {
        return false;
    }
    let mut i: usize = 0;
    while i < base.len()
        invariant
            0 <= i <= base.len() <= comps.len(),
            views(comps@).take(i as int) == views(base@).take(i as int),
        decreases base.len() - i,
    {
        if !chars_equal(&comps[i], &base[i]) {
            assert(views(comps@).take(base.len() as int)[i as int] != views(base@)[i as int]);
            return false;
        }
        assert(views(comps@).take(i as int + 1) =~= views(comps@).take(i as int).push(comps[i as int]@));
        assert(views(base@).take(i as int + 1) =~= views(base@).take(i as int).push(base[i as int]@));
        i += 1;
    }
    assert(views(base@).take(base.len() as int) =~= views(base@));
    true
}

/// Exec side of [`strip_prefix`]: the components of `path` after those of
/// `base`.
pub fn strip_prefix_of(path: &[char], base: &[char]) -> (r: Option<Vec<Vec<char>>>)
    ensures
        match r {
            Some(rest) => strip_prefix(path@, base@) == Some(views(rest@)),
            None => strip_prefix(path@, base@) is None,
        },
{
    let pc = components_of(path);
    let bc = components_of(base);
    if !components_have_prefix(&pc, &bc) {
        return None;
    }
    let mut rest: Vec<Vec<char>> = Vec::new();
    let mut i: usize = bc.len();
    while i < pc.len()
        invariant
            bc.len() <= i <= pc.len(),
            views(rest@) == views(pc@).subrange(bc.len() as int, i as int),
        decreases pc.len() - i,
    {
        let c = copy_chars(&pc[i]);
        proof {
            lemma_views_push(rest@, c);
        }
        rest.push(c);
        assert(views(pc@).subrange(bc.len() as int, i as int + 1) =~= views(pc@).subrange(
            bc.len() as int,
            i as int,
        ).push(pc[i as int]@));
        i += 1;
    }
    assert(views(pc@).skip(bc.len() as int) =~= views(pc@).subrange(bc.len() as int, pc.len() as int));
    Some(rest)
}

/// Whether `c` is a file or folder name component.
pub fn is_name_component_exec(c: &[char]) -> (r: bool)
    ensures
        r == is_name_component(c@),
{
    let root = c.len() == 1 && c[0] == '/';
    let dot = c.len() == 1 && c[0] == '.';
    let dot_dot = c.len() == 2 && c[0] == '.' && c[1] == '.';
    proof {
        if c.len() == 1 {
            assert(c@ == seq![c@[0]]);
        }
        if c.len() == 2 {
            assert(c@ == seq![c@[0], c@[1]]);
        }
    }
    c.len() > 0 && !root && !dot && !dot_dot
}

/// Exec side of [`last_index_of`]; `None` stands for -1.
pub fn last_index_of_char(s: &[char], c: char) -> (r: Option<usize>)
    ensures
        match r {
            Some(k) => k as int == last_index_of(s@, c) && k < s.len(),
            None => last_index_of(s@, c) == -1,
        },
{
    let mut i: usize = s.len();
    assert(s@.take(s.len() as int) == s@);
    while i > 0
        invariant
            0 <= i <= s.len(),
            last_index_of(s@, c) == last_index_of(s@.take(i as int), c),
        decreases i,
    {
        assert(s@.take(i as int).drop_last() == s@.take(i as int - 1));
        if s[i - 1] == c {
            return Some(i - 1);
        }
        i -= 1;
    }
    None
}

/// Exec side of [`file_name`].
pub fn file_name_of(s: &[char]) -> (r: Option<Vec<char>>)
    ensures
        match r {
            Some(v) => file_name(s@) == Some(v@),
            None => file_name(s@) is None,
        },
{
    let kept = kept_segments_of(s);
    let n = kept.len();
    if n > 0 {
        let last = &kept[n - 1];
        let is_dot_dot = last.len() == 2 && last[0] == '.' && last[1] == '.';
        assert(is_dot_dot == (views(kept@).last() == parent_dir_segment())) by {
            if last.len() == 2 {
                assert(last@ == seq![last@[0], last@[1]]);
            }
        }
        if !is_dot_dot {
            return Some(copy_chars(last));
        }
    }
    None
}

/// Splits a file name at its last dot: the stem, and the extension if any.
pub fn split_name(name: &[char]) -> (r: (Vec<char>, Option<Vec<char>>))
    ensures
        r.0@ == name_stem(name@),
        match r.1 {
            Some(v) => name_extension(name@) == Some(v@),
            None => name_extension(name@) is None,
        },
{
    let is_dot_dot = name.len() == 2 && name[0] == '.' && name[1] == '.';
    assert(is_dot_dot == (name@ == parent_dir_segment())) by {
        if name.len() == 2 {
            assert(name@ == seq![name@[0], name@[1]]);
        }
    }
    match last_index_of_char(name, '.') {
        Some(k) => {
            if k == 0 || is_dot_dot {
                (copy_chars(name), None)
            } else {
                let mut stem: Vec<char> = Vec::new();
                let mut ext: Vec<char> = Vec::new();
                let mut i: usize = 0;
                while i < name.len()
                    invariant
                        0 <= i <= name.len(),
                        0 < k < name.len(),
                        i <= k ==> stem@ == name@.take(i as int) && ext@.len() == 0,
                        i > k ==> stem@ == name@.take(k as int) && ext@ == name@.subrange(
                            k + 1,
                            i as int,
                        ),
                    decreases name.len() - i,
                {
                    if i < k {
                        stem.push(name[i]);
                        assert(name@.take(i as int + 1) == name@.take(i as int).push(name@[i as int]));
                    } else if i > k {
                        ext.push(name[i]);
                        assert(name@.subrange(k + 1, i as int + 1) == name@.subrange(
                            k + 1,
                            i as int,
                        ).push(name@[i as int]));
                    }
                    i += 1;
                }
                assert(name@.skip(k + 1) == name@.subrange(k + 1, name.len() as int));
                (stem, Some(ext))
            }
        },
        None => (copy_chars(name), None),
    }
}

} // verus!
