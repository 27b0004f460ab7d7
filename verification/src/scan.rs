//! Scan bookkeeping: folder-derived tags, media entries and scan errors.
//!
//! Every ancestor folder between a source root and a file is a tag, keyed by
//! `(source_root_id, relative_folder_path)`, so same-named folders in different
//! subtrees or roots stay distinct. The root folder itself is a tag only when
//! `root_as_tag` is set.

use vstd::prelude::*;

use crate::events::DiscoveredMedia;
use crate::media::MediaType;
use crate::models::{
    elapsed_millis, epoch_millis_spec, system_time_to_epoch_millis, MediaEntry, ScanErrorEntry,
    TagIdentity,
};
use crate::path::{
    file_name, file_name_of, is_name_component, is_name_component_exec, join_with,
    lemma_views_push, parent_components, root_marker, strip_prefix, strip_prefix_of, views,
};
use crate::text::{chars_equal, chars_of, concat_chars, copy_chars, string_from_chars};

verus! {

/// The predicate selecting name components.
pub open spec fn name_pred() -> spec_fn(Seq<char>) -> bool {
    |c: Seq<char>| is_name_component(c)
}

/// The folder names between `root` and the file at `file`, outermost first;
/// `None` when the file does not lie strictly below the root.
pub open spec fn tag_folders(file: Seq<char>, root: Seq<char>) -> Option<Seq<Seq<char>>> {
    match strip_prefix(file, root) {
        Some(rest) => match parent_components(rest) {
            Some(p) => Some(p.filter(name_pred())),
            None => None,
        },
        None => None,
    }
}

/// The display name of a source root: its final component, or empty.
pub open spec fn root_tag_name(root: Seq<char>) -> Seq<char> {
    match file_name(root) {
        Some(n) => n,
        None => seq![],
    }
}

/// The lineage shown for a tag: the root name, a slash, then the relative
/// folder path (just the relative path when the root has no name).
pub open spec fn lineage(root_name: Seq<char>, rel: Seq<char>) -> Seq<char> {
    if root_name.len() == 0 {
        rel
    } else {
        root_name + seq!['/'] + rel
    }
}

pub open spec fn is_tag(
    t: TagIdentity,
    source_root_id: i64,
    rel: Seq<char>,
    name: Seq<char>,
    display_path: Seq<char>,
) -> bool {
    &&& t.source_root_id == source_root_id
    &&& t.relative_folder_path@ == rel
    &&& t.display_name@ == name
    &&& t.display_path@ == display_path
}

/// The tag of the `j`-th folder among `names`.
pub open spec fn folder_tag_ok(
    t: TagIdentity,
    names: Seq<Seq<char>>,
    j: int,
    root: Seq<char>,
    source_root_id: i64,
) -> bool {
    let rel = join_with(names.take(j + 1), '/');
    is_tag(t, source_root_id, rel, names[j], lineage(root_tag_name(root), rel))
}

/// What [`derive_tags`] returns.
pub open spec fn derived_tags_ok(
    r: Seq<TagIdentity>,
    file: Seq<char>,
    root: Seq<char>,
    source_root_id: i64,
    root_as_tag: bool,
) -> bool {
    match tag_folders(file, root) {
        None => r.len() == 0,
        Some(names) => {
            let off: int = if root_as_tag {
                1
            } else {
                0
            };
            &&& r.len() == off + names.len()
            &&& root_as_tag ==> is_tag(
                r[0],
                source_root_id,
                seq![],
                root_tag_name(root),
                root_tag_name(root),
            )
            &&& root_as_tag ==> forall|j: int|
                0 <= j < names.len() ==> #[trigger] folder_tag_ok(
                    r[1 + j],
                    names,
                    j,
                    root,
                    source_root_id,
                )
            &&& !root_as_tag ==> forall|j: int|
                0 <= j < names.len() ==> #[trigger] folder_tag_ok(
                    r[j],
                    names,
                    j,
                    root,
                    source_root_id,
                )
        },
    }
}

/// The plain contents of a tag identity.
pub open spec fn tag_view(t: TagIdentity) -> (i64, Seq<char>, Seq<char>, Seq<char>) {
    (t.source_root_id, t.relative_folder_path@, t.display_name@, t.display_path@)
}

pub open spec fn tag_views(s: Seq<TagIdentity>) -> Seq<(i64, Seq<char>, Seq<char>, Seq<char>)> {
    Seq::new(s.len(), |i: int| tag_view(s[i]))
}

/// Turning root-as-tag on adds exactly the root's own tag in front of the
/// folder tags, and nothing when the file is not below the root.
pub proof fn law_root_tag_is_prepended(
    with_root: Seq<TagIdentity>,
    without: Seq<TagIdentity>,
    file: Seq<char>,
    root: Seq<char>,
    source_root_id: i64,
)
    requires
        derived_tags_ok(with_root, file, root, source_root_id, true),
        derived_tags_ok(without, file, root, source_root_id, false),
    ensures
        tag_folders(file, root) is None ==> with_root.len() == 0 && without.len() == 0,
        tag_folders(file, root) is Some ==> tag_views(with_root) == seq![
            (source_root_id, Seq::<char>::empty(), root_tag_name(root), root_tag_name(root)),
        ] + tag_views(without),
{
    if let Some(names) = tag_folders(file, root) {
        let lhs = tag_views(with_root);
        let rhs = seq![
            (source_root_id, Seq::<char>::empty(), root_tag_name(root), root_tag_name(root)),
        ] + tag_views(without);
        assert forall|i: int| 0 <= i < lhs.len() implies lhs[i] == rhs[i] by {
            if i > 0 {
                let j = i - 1;
                assert(folder_tag_ok(with_root[1 + j], names, j, root, source_root_id));
                assert(folder_tag_ok(without[j], names, j, root, source_root_id));
            }
        }
        assert(lhs =~= rhs);
    }
}

/// Derives path-qualified tag identities from the directory components
/// between the source root and the file.
///
/// ```text
/// source root: /home/user/media   (id 7)
/// file path:   /home/user/media/Travel/Japan/2023/photo.jpg
/// tags:        Travel (rel "Travel"), Japan (rel "Travel/Japan"), 2023 (rel "Travel/Japan/2023")
/// ```
pub fn derive_tags(file_path: &str, source_root: &str, source_root_id: i64, root_as_tag: bool) -> (r:
    Vec<TagIdentity>)
    ensures
        derived_tags_ok(r@, file_path@, source_root@, source_root_id, root_as_tag),
{
    let file = chars_of(file_path);
    let root = chars_of(source_root);
    let rest = match strip_prefix_of(&file, &root) {
        Some(rest) => rest,
        None => return Vec::new(),
    };
    let n = rest.len();
    if n == 0 {
        return Vec::new();
    }
    let last_is_root = rest[n - 1].len() == 1 && rest[n - 1][0] == '/';
    assert(last_is_root == (views(rest@).last() == root_marker())) by {
        if rest[n - 1].len() == 1 {
            assert(rest[n - 1]@ == seq![rest[n - 1]@[0]]);
        }
    }
    if last_is_root {
        return Vec::new();
    }
    let ghost parent = views(rest@).drop_last();
    let root_name = match file_name_of(&root) {
        Some(name) => name,
        None => Vec::new(),
    };
    assert(root_name@ == root_tag_name(source_root@));
    let mut tags: Vec<TagIdentity> = Vec::new();
    let off: usize = if root_as_tag {
        1
    } else {
        0
    };
    if root_as_tag {
        tags.push(
            TagIdentity {
                source_root_id,
                relative_folder_path: String::new(),
                display_name: string_from_chars(&root_name),
                display_path: string_from_chars(&root_name),
            },
        );
    }
    let mut accum: Vec<char> = Vec::new();
    let mut count: usize = 0;
    let ghost mut names: Seq<Seq<char>> = seq![];
    let mut i: usize = 0;
    while i < n - 1
        invariant
            0 <= i <= n - 1,
            n == rest.len(),
            parent == views(rest@).drop_last(),
            names == parent.take(i as int).filter(name_pred()),
            count == names.len(),
            accum@ == join_with(names, '/'),
            root_name@ == root_tag_name(source_root@),
            root_as_tag ==> off == 1,
            !root_as_tag ==> off == 0,
            tags.len() == off + names.len(),
            root_as_tag ==> is_tag(
                tags@[0],
                source_root_id,
                seq![],
                root_tag_name(source_root@),
                root_tag_name(source_root@),
            ),
            forall|j: int|
                0 <= j < names.len() ==> #[trigger] folder_tag_ok(
                    tags@[off + j],
                    names,
                    j,
                    source_root@,
                    source_root_id,
                ),
        decreases n - 1 - i,
    {
        let comp = &rest[i];
        proof {
            assert(parent.take(i as int + 1) == parent.take(i as int).push(comp@));
            parent.take(i as int).lemma_filter_push(comp@, name_pred());
        }
        if is_name_component_exec(comp) {
            let ghost old_names = names;
            if count > 0 {
                accum.push('/');
            }
            accum = concat_chars(&accum, comp);
            proof {
                names = names.push(comp@);
                assert(names.take(names.len() as int) == names);
                if old_names.len() > 0 {
                    assert(names.drop_last() == old_names);
                    assert(accum@ == join_with(names, '/'));
                } else {
                    assert(accum@ =~= comp@);
                }
            }
            let display = if root_name.len() == 0 {
                copy_chars(&accum)
            } else {
                let mut with_sep = copy_chars(&root_name);
                with_sep.push('/');
                concat_chars(&with_sep, &accum)
            };
            assert(display@ == lineage(root_tag_name(source_root@), accum@));
            tags.push(
                TagIdentity {
                    source_root_id,
                    relative_folder_path: string_from_chars(&accum),
                    display_name: string_from_chars(comp),
                    display_path: string_from_chars(&display),
                },
            );
            count += 1;
            proof {
                assert forall|j: int| 0 <= j < names.len() implies #[trigger] folder_tag_ok(
                    tags@[off + j],
                    names,
                    j,
                    source_root@,
                    source_root_id,
                ) by {
                    if j < old_names.len() {
                        assert(names.take(j + 1) =~= old_names.take(j + 1));
                        assert(folder_tag_ok(
                            tags@[off + j],
                            old_names,
                            j,
                            source_root@,
                            source_root_id,
                        ));
                    }
                }
            }
        }
        i += 1;
    }
    assert(parent.take(n - 1) == parent);
    proof {
        if root_as_tag {
            assert forall|j: int| 0 <= j < names.len() implies #[trigger] folder_tag_ok(
                tags@[1 + j],
                names,
                j,
                source_root@,
                source_root_id,
            ) by {
                assert(folder_tag_ok(tags@[off + j], names, j, source_root@, source_root_id));
            }
        } else {
            assert forall|j: int| 0 <= j < names.len() implies #[trigger] folder_tag_ok(
                tags@[j],
                names,
                j,
                source_root@,
                source_root_id,
            ) by {
                assert(folder_tag_ok(tags@[off + j], names, j, source_root@, source_root_id));
            }
        }
    }
    tags
}

/// Builds the scan-error record for a path that failed during a scan.
pub fn scan_error(
    source_root_id: i64,
    scan_gen: i64,
    path: String,
    category: &str,
    message: String,
) -> (r: ScanErrorEntry)
    ensures
        r.source_root_id == source_root_id,
        r.scan_generation == scan_gen,
        r.path == path,
        r.category@ == category@,
        r.message == message,
{
    ScanErrorEntry {
        source_root_id,
        scan_generation: scan_gen,
        path,
        category: string_from_chars(&chars_of(category)),
        message,
    }
}

/// Tags with a repeated relative folder path dropped, first occurrence kept.
pub open spec fn dedup_tags_spec(tags: Seq<TagIdentity>) -> Seq<TagIdentity>
    decreases tags.len(),
{
    if tags.len() == 0 {
        seq![]
    } else {
        let kept = dedup_tags_spec(tags.drop_last());
        if exists|k: int|
            0 <= k < kept.len() && (#[trigger] kept[k]).relative_folder_path@
                == tags.last().relative_folder_path@ {
            kept
        } else {
            kept.push(tags.last())
        }
    }
}

/// Drops tags whose relative folder path repeats an earlier one, keeping the
/// first, so each identity is written once.
pub fn dedup_tags(tags: Vec<TagIdentity>) -> (r: Vec<TagIdentity>)
    ensures
        r@ == dedup_tags_spec(tags@),
{
    let mut kept: Vec<TagIdentity> = Vec::new();
    let mut tags = tags;
    let ghost all = tags@;
    let mut rev: Vec<TagIdentity> = Vec::new();
    while tags.len() > 0
        invariant
            all == tags@ + rev@.reverse(),
        decreases tags.len(),
    {
        let t = tags.pop().unwrap();
        let ghost prev_rev = rev@;
        rev.push(t);
        assert(rev@.reverse() =~= seq![t] + prev_rev.reverse());
        assert(all =~= tags@ + rev@.reverse());
    }
    assert(all =~= rev@.reverse());
    let mut i: usize = 0;
    let n = rev.len();
    while rev.len() > 0
        invariant
            n == all.len(),
            rev@.len() + i == n,
            0 <= i <= n,
            all.take(i as int) =~= rev@.reverse().take(0) + all.take(i as int),
            forall|j: int| 0 <= j < rev@.len() ==> rev@[j] == all[n - 1 - j],
            kept@ == dedup_tags_spec(all.take(i as int)),
        decreases rev.len(),
    {
        let t = rev.pop().unwrap();
        assert(t == all[i as int]);
        assert(all.take(i as int + 1).drop_last() == all.take(i as int));
        let want = chars_of(t.relative_folder_path.as_str());
        let mut dup = false;
        let mut k: usize = 0;
        while k < kept.len()
            invariant
                0 <= k <= kept@.len(),
                want@ == t.relative_folder_path@,
                dup == exists|m: int|
                    0 <= m < k && (#[trigger] kept@[m]).relative_folder_path@ == t.relative_folder_path@,
            decreases kept@.len() - k,
        {
            let have = chars_of(kept[k].relative_folder_path.as_str());
            if chars_equal(&have, &want) {
                dup = true;
            }
            k += 1;
        }
        if !dup {
            kept.push(t);
        }
        i += 1;
    }
    assert(all.take(n as int) == all);
    kept
}

/// The relative path of a file under its root: the components after the
/// root's, joined by `/`; the file name when the file is not under the root.
pub open spec fn relative_path_spec(file: Seq<char>, root: Seq<char>, filename: Seq<char>) -> Seq<char> {
    match strip_prefix(file, root) {
        Some(rest) => join_with(rest, '/'),
        None => filename,
    }
}

fn join_components(parts: &Vec<Vec<char>>) -> (r: Vec<char>)
    ensures
        r@ == join_with(views(parts@), '/'),
{
    let mut out: Vec<char> = Vec::new();
    let mut i: usize = 0;
    while i < parts.len()
        invariant
            0 <= i <= parts.len(),
            out@ == join_with(views(parts@).take(i as int), '/'),
        decreases parts.len() - i,
    {
        assert(views(parts@).take(i as int + 1).drop_last() == views(parts@).take(i as int));
        if i > 0 {
            out.push('/');
        }
        out = concat_chars(&out, &parts[i]);
        proof {
            if i == 0 {
                assert(out@ =~= parts@[0]@);
            }
        }
        i += 1;
    }
    assert(views(parts@).take(parts.len() as int) == views(parts@));
    out
}

/// What [`prepare_file_entry`] assembles for a discovered file.
pub open spec fn prepared_entry_ok(
    entry: MediaEntry,
    media: DiscoveredMedia,
    source_root: Seq<char>,
    source_root_id: i64,
    canonical_identity: Option<String>,
) -> bool {
    let filename = match file_name(media.path@) {
        Some(n) => n,
        None => seq![],
    };
    &&& entry.path@ == media.path@
    &&& entry.filename@ == filename
    &&& entry.relative_path@ == relative_path_spec(media.path@, source_root, filename)
    &&& entry.canonical_identity@ == match canonical_identity {
        Some(c) => c@,
        None => media.path@,
    }
    &&& entry.source_root_id == source_root_id
    &&& entry.media_type == media.media_type
    &&& entry.size_bytes == media.size_bytes as i64
    &&& entry.created_at == match media.created {
        Some(t) => Some(epoch_millis_spec(elapsed_millis(t))),
        None => None,
    }
    &&& entry.modified_at == epoch_millis_spec(elapsed_millis(media.modified))
}

/// Prepares a media entry and its derived tags for batch insertion.
///
/// `canonical_identity` is the file's resolved canonical path (for a file
/// symlink, its target); when resolution failed (e.g. the file vanished
/// between discovery and processing) the path itself is the identity.
/// Returns the path, the entry, and the tags (one per identity).
pub fn prepare_file_entry(
    media: &DiscoveredMedia,
    source_root: &str,
    source_root_id: i64,
    root_as_tag: bool,
    canonical_identity: Option<String>,
) -> (r: (String, MediaEntry, Vec<TagIdentity>))
    ensures
        r.0@ == media.path@,
        prepared_entry_ok(r.1, *media, source_root@, source_root_id, canonical_identity),
        exists|derived: Seq<TagIdentity>|
            derived_tags_ok(derived, media.path@, source_root@, source_root_id, root_as_tag) && r.2@
                == dedup_tags_spec(derived),
{
    let path_chars = chars_of(media.path.as_str());
    let filename = match file_name_of(&path_chars) {
        Some(n) => n,
        None => Vec::new(),
    };
    let tags = derive_tags(media.path.as_str(), source_root, source_root_id, root_as_tag);
    let ghost derived = tags@;
    let tags = dedup_tags(tags);
    let root_chars = chars_of(source_root);
    let relative = match strip_prefix_of(&path_chars, &root_chars) {
        Some(rest) => join_components(&rest),
        None => copy_chars(&filename),
    };
    let canonical = match canonical_identity {
        Some(c) => c,
        None => string_from_chars(&path_chars),
    };
    let created_at = match media.created {
        Some(t) => Some(system_time_to_epoch_millis(t)),
        None => None,
    };
    let entry = MediaEntry {
        path: string_from_chars(&path_chars),
        relative_path: string_from_chars(&relative),
        canonical_identity: canonical,
        filename: string_from_chars(&filename),
        source_root_id,
        media_type: media.media_type,
        size_bytes: media.size_bytes as i64,
        created_at,
        modified_at: system_time_to_epoch_millis(media.modified),
    };
    (string_from_chars(&path_chars), entry, tags)
}

/// Entries per database transaction while scanning.
pub const SCAN_BATCH_SIZE: usize = 500;

/// A progress event is published every this many discovered files.
pub const SCAN_PROGRESS_EVERY: usize = 50;

/// Summary of a completed scan operation.
#[derive(Debug)]
pub struct ScanResult {
    /// The source root (or subtree) that was scanned.
    pub root: String,
    /// Total media files found on disk.
    pub files_found: u64,
    /// Files upserted into the database.
    pub files_upserted: u64,
    /// Files removed from the database (no longer on disk).
    pub files_removed: u64,
    /// Paths that failed to be processed or inserted.
    pub failed_paths: Vec<String>,
}

/// The running state of one scan: the batch awaiting its transaction, the
/// counts, and the failures to report and persist.
pub struct ScanAccumulator {
    source_root_id: i64,
    scan_gen: i64,
    found: usize,
    upserted: u64,
    failed_paths: Vec<String>,
    scan_errors: Vec<ScanErrorEntry>,
    batch: Vec<(MediaEntry, Vec<TagIdentity>)>,
}

impl ScanAccumulator {
    pub closed spec fn source_root_id(&self) -> i64 {
        self.source_root_id
    }

    pub closed spec fn scan_gen(&self) -> i64 {
        self.scan_gen
    }

    pub closed spec fn found(&self) -> nat {
        self.found as nat
    }

    pub closed spec fn upserted(&self) -> nat {
        self.upserted as nat
    }

    /// Failed paths so far, in order.
    pub closed spec fn failed(&self) -> Seq<Seq<char>> {
        crate::text::string_views(self.failed_paths@)
    }

    /// Scan errors to persist, in order.
    pub closed spec fn errors(&self) -> Seq<ScanErrorEntry> {
        self.scan_errors@
    }

    /// Entries waiting for the next transaction.
    pub closed spec fn batch(&self) -> Seq<(MediaEntry, Vec<TagIdentity>)> {
        self.batch@
    }

    pub fn new(source_root_id: i64, scan_gen: i64) -> (a: ScanAccumulator)
        ensures
            a.source_root_id() == source_root_id,
            a.scan_gen() == scan_gen,
            a.found() == 0,
            a.upserted() == 0,
            a.failed().len() == 0,
            a.errors().len() == 0,
            a.batch().len() == 0,
    {
        ScanAccumulator {
            source_root_id,
            scan_gen,
            found: 0,
            upserted: 0,
            failed_paths: Vec::new(),
            scan_errors: Vec::new(),
            batch: Vec::new(),
        }
    }

    /// Number of files committed so far.
    pub fn committed(&self) -> (r: u64)
        ensures
            r == self.upserted(),
    {
        self.upserted
    }

    /// Number of files counted so far.
    pub fn files_found(&self) -> (r: usize)
        ensures
            r == self.found(),
    {
        self.found
    }

    /// Counts a discovered file; returns the count when a progress event is
    /// due (every [`SCAN_PROGRESS_EVERY`] files).
    pub fn note_file_found(&mut self) -> (progress: Option<usize>)
        requires
            old(self).found() < usize::MAX,
        ensures
            final(self).found() == old(self).found() + 1,
            progress == if final(self).found() % (SCAN_PROGRESS_EVERY as nat) == 0 {
                Some(final(self).found() as usize)
            } else {
                None
            },
            final(self).upserted() == old(self).upserted(),
            final(self).failed() == old(self).failed(),
            final(self).errors() == old(self).errors(),
            final(self).batch() == old(self).batch(),
            final(self).source_root_id() == old(self).source_root_id(),
            final(self).scan_gen() == old(self).scan_gen(),
    {
        self.found = self.found + 1;
        if self.found % SCAN_PROGRESS_EVERY == 0 {
            Some(self.found)
        } else {
            None
        }
    }

    /// Queues a prepared entry; returns whether the batch is now due for its
    /// transaction.
    pub fn add_to_batch(&mut self, entry: MediaEntry, tags: Vec<TagIdentity>) -> (flush_due: bool)
        ensures
            final(self).batch() == old(self).batch().push((entry, tags)),
            flush_due == (final(self).batch().len() >= SCAN_BATCH_SIZE),
            final(self).found() == old(self).found(),
            final(self).upserted() == old(self).upserted(),
            final(self).failed() == old(self).failed(),
            final(self).errors() == old(self).errors(),
            final(self).source_root_id() == old(self).source_root_id(),
            final(self).scan_gen() == old(self).scan_gen(),
    {
        self.batch.push((entry, tags));
        self.batch.len() >= SCAN_BATCH_SIZE
    }

    /// Records a path that could not be processed, with its error category.
    pub fn record_failure(&mut self, path: String, category: &str, message: String)
        ensures
            final(self).failed() == old(self).failed().push(path@),
            final(self).errors().len() == old(self).errors().len() + 1,
            forall|k: int|
                0 <= k < old(self).errors().len() ==> #[trigger] final(self).errors()[k] == old(
                    self,
                ).errors()[k],
            ({
                let e = final(self).errors().last();
                &&& e.source_root_id == old(self).source_root_id()
                &&& e.scan_generation == old(self).scan_gen()
                &&& e.path@ == path@
                &&& e.category@ == category@
                &&& e.message == message
            }),
            final(self).found() == old(self).found(),
            final(self).upserted() == old(self).upserted(),
            final(self).batch() == old(self).batch(),
            final(self).source_root_id() == old(self).source_root_id(),
            final(self).scan_gen() == old(self).scan_gen(),
    {
        let copy = string_from_chars(&chars_of(path.as_str()));
        let ghost before = self.failed_paths@;
        self.failed_paths.push(copy);
        assert(crate::text::string_views(self.failed_paths@) =~= crate::text::string_views(
            before,
        ).push(path@));
        let e = scan_error(self.source_root_id, self.scan_gen, path, category, message);
        self.scan_errors.push(e);
    }

    /// Hands the queued entries over for their transaction; the batch is
    /// empty afterwards.
    pub fn take_batch(&mut self) -> (batch: Vec<(MediaEntry, Vec<TagIdentity>)>)
        ensures
            batch@ == old(self).batch(),
            final(self).batch().len() == 0,
            final(self).found() == old(self).found(),
            final(self).upserted() == old(self).upserted(),
            final(self).failed() == old(self).failed(),
            final(self).errors() == old(self).errors(),
            final(self).source_root_id() == old(self).source_root_id(),
            final(self).scan_gen() == old(self).scan_gen(),
    {
        let mut out: Vec<(MediaEntry, Vec<TagIdentity>)> = Vec::new();
        std::mem::swap(&mut out, &mut self.batch);
        out
    }

    /// Counts the rows of a committed transaction as upserted.
    pub fn commit_succeeded(&mut self, count: usize)
        requires
            old(self).upserted() + count <= u64::MAX,
        ensures
            final(self).upserted() == old(self).upserted() + count,
            final(self).found() == old(self).found(),
            final(self).failed() == old(self).failed(),
            final(self).errors() == old(self).errors(),
            final(self).batch() == old(self).batch(),
            final(self).source_root_id() == old(self).source_root_id(),
            final(self).scan_gen() == old(self).scan_gen(),
    {
        self.upserted = self.upserted + count as u64;
    }

    /// Records every entry of a failed transaction as a `database` failure
    /// carrying the transaction's error message.
    pub fn commit_failed(&mut self, batch: &Vec<(MediaEntry, Vec<TagIdentity>)>, message: &str)
        ensures
            final(self).failed().len() == old(self).failed().len() + batch@.len(),
            forall|k: int|
                0 <= k < old(self).failed().len() ==> #[trigger] final(self).failed()[k] == old(
                    self,
                ).failed()[k],
            forall|k: int|
                0 <= k < batch@.len() ==> final(self).failed()[old(self).failed().len() + k]
                    == (#[trigger] batch@[k]).0.path@,
            final(self).errors().len() == old(self).errors().len() + batch@.len(),
            forall|k: int|
                0 <= k < batch@.len() ==> {
                    let e = final(self).errors()[old(self).errors().len() + k];
                    &&& e.path@ == (#[trigger] batch@[k]).0.path@
                    &&& e.category@ == "database"@
                    &&& e.message@ == message@
                    &&& e.source_root_id == old(self).source_root_id()
                    &&& e.scan_generation == old(self).scan_gen()
                },
            final(self).found() == old(self).found(),
            final(self).upserted() == old(self).upserted(),
            final(self).batch() == old(self).batch(),
            final(self).source_root_id() == old(self).source_root_id(),
            final(self).scan_gen() == old(self).scan_gen(),
    {
        let mut i: usize = 0;
        while i < batch.len()
            invariant
                0 <= i <= batch@.len(),
                self.failed().len() == old(self).failed().len() + i,
                forall|k: int|
                    0 <= k < old(self).failed().len() ==> #[trigger] self.failed()[k] == old(
                        self,
                    ).failed()[k],
                forall|k: int|
                    0 <= k < i ==> self.failed()[old(self).failed().len() + k] == (
                    #[trigger] batch@[k]).0.path@,
                self.errors().len() == old(self).errors().len() + i,
                forall|k: int|
                    0 <= k < old(self).errors().len() ==> #[trigger] self.errors()[k] == old(
                        self,
                    ).errors()[k],
                forall|k: int|
                    0 <= k < i ==> {
                        let e = self.errors()[old(self).errors().len() + k];
                        &&& e.path@ == (#[trigger] batch@[k]).0.path@
                        &&& e.category@ == "database"@
                        &&& e.message@ == message@
                        &&& e.source_root_id == old(self).source_root_id()
                        &&& e.scan_generation == old(self).scan_gen()
                    },
                self.found() == old(self).found(),
                self.upserted() == old(self).upserted(),
                self.batch() == old(self).batch(),
                self.source_root_id() == old(self).source_root_id(),
                self.scan_gen() == old(self).scan_gen(),
            decreases batch@.len() - i,
        {
            let path = string_from_chars(&chars_of(batch[i].0.path.as_str()));
            let msg = string_from_chars(&chars_of(message));
            self.record_failure(path, "database", msg);
            i += 1;
        }
    }

    /// Closes the scan: the result to report, and the scan errors to persist
    /// (replacing the scope's earlier error set).
    pub fn finish(self, root: String, files_found: u64, files_removed: u64) -> (r: (
        ScanResult,
        Vec<ScanErrorEntry>,
    ))
        ensures
            r.0.root == root,
            r.0.files_found == files_found,
            r.0.files_upserted == self.upserted(),
            r.0.files_removed == files_removed,
            crate::text::string_views(r.0.failed_paths@) == self.failed(),
            r.1@ == self.errors(),
    {
        let result = ScanResult {
            root,
            files_found,
            files_upserted: self.upserted,
            files_removed,
            failed_paths: self.failed_paths,
        };
        (result, self.scan_errors)
    }
}

/// Whether a finished walk may drive the stale-media sweep. A partial walk
/// (some directory could not be read) must not: its undiscovered files were
/// unreachable, not deleted.
pub fn should_sweep_stale_media(partial: bool) -> (r: bool)
    ensures
        r == !partial,
{
    !partial
}

/// The generation of a new scan of a root: one past the newest generation
/// stored for it, so live updates during the scan are never swept as stale.
pub fn next_scan_generation(max_stored: i64) -> (r: i64)
    requires
        max_stored < i64::MAX,
    ensures
        r == max_stored + 1,
{
    max_stored + 1
}

/// The entries of `batch` whose flag in `exists` is set, in order.
pub open spec fn kept_entries<T>(batch: Seq<T>, exists: Seq<bool>) -> Seq<T>
    decreases batch.len(),
{
    if batch.len() == 0 || exists.len() == 0 {
        seq![]
    } else {
        (if exists[0] {
            seq![batch[0]]
        } else {
            seq![]
        }) + kept_entries(batch.drop_first(), exists.drop_first())
    }
}

/// Drops from a batch about to be committed the entries whose file no longer
/// exists as a regular file (`exists[i]` tells for entry `i`), so a file
/// deleted since discovery gets no row. Returns how many were dropped.
pub fn retain_existing_files(batch: &mut Vec<(MediaEntry, Vec<TagIdentity>)>, exists: &[bool]) -> (dropped: usize)
    requires
        old(batch)@.len() == exists@.len(),
    ensures
        final(batch)@ == kept_entries(old(batch)@, exists@),
        dropped == old(batch)@.len() - final(batch)@.len(),
{
    let ghost orig = batch@;
    let n = batch.len();
    let mut i: usize = n;
    proof {
        assert(orig.skip(n as int) =~= Seq::<(MediaEntry, Vec<TagIdentity>)>::empty());
        assert(orig.take(n as int) =~= orig);
        assert(batch@ =~= orig.take(n as int) + kept_entries(orig.skip(n as int), exists@.skip(n as int)));
    }
    while i > 0
        invariant
            0 <= i <= n,
            n == orig.len(),
            orig.len() == exists@.len(),
            batch@ == orig.take(i as int) + kept_entries(orig.skip(i as int), exists@.skip(i as int)),
        decreases i,
    {
        let k = i - 1;
        proof {
            assert(orig.skip(k as int).drop_first() =~= orig.skip(i as int));
            assert(exists@.skip(k as int).drop_first() =~= exists@.skip(i as int));
            assert(orig.skip(k as int)[0] == orig[k as int]);
            assert(exists@.skip(k as int)[0] == exists@[k as int]);
            assert(orig.take(i as int) =~= orig.take(k as int).push(orig[k as int]));
        }
        if !exists[k] {
            let ghost before = batch@;
            batch.remove(k);
            proof {
                assert(batch@ =~= orig.take(k as int) + kept_entries(orig.skip(k as int), exists@.skip(k as int)));
            }
        } else {
            proof {
                assert(batch@ =~= orig.take(k as int) + kept_entries(orig.skip(k as int), exists@.skip(k as int)));
            }
        }
        i = k;
    }
    proof {
        assert(orig.take(0) =~= Seq::<(MediaEntry, Vec<TagIdentity>)>::empty());
        assert(orig.skip(0) =~= orig);
        assert(exists@.skip(0) =~= exists@);
        assert(batch@ =~= kept_entries(orig, exists@));
        lemma_kept_entries_len(orig, exists@);
    }
    n - batch.len()
}

proof fn lemma_kept_entries_len<T>(batch: Seq<T>, exists: Seq<bool>)
    ensures
        kept_entries(batch, exists).len() <= batch.len(),
    decreases batch.len(),
{
    if batch.len() > 0 && exists.len() > 0 {
        lemma_kept_entries_len(batch.drop_first(), exists.drop_first());
    }
}

/// Relative folder paths that are pairwise distinct.
pub open spec fn distinct_folder_paths(tags: Seq<TagIdentity>) -> bool {
    forall|i: int, j: int|
        0 <= i < j < tags.len() ==> (#[trigger] tags[i]).relative_folder_path@
            != (#[trigger] tags[j]).relative_folder_path@
}

/// Deduplication removes only tags whose relative folder path repeats an
/// earlier one: tags with pairwise distinct paths come through unchanged, in
/// order; and whatever comes in, every path that came in goes out, exactly
/// once.
pub proof fn law_dedup_drops_only_repeats(tags: Seq<TagIdentity>)
    ensures
        distinct_folder_paths(tags) ==> dedup_tags_spec(tags) == tags,
        distinct_folder_paths(dedup_tags_spec(tags)),
        forall|i: int|
            0 <= i < tags.len() ==> exists|k: int|
                0 <= k < dedup_tags_spec(tags).len() && (#[trigger] dedup_tags_spec(tags)[k]).relative_folder_path@
                    == (#[trigger] tags[i]).relative_folder_path@,
    decreases tags.len(),
{
    if tags.len() > 0 {
        let d = tags.drop_last();
        law_dedup_drops_only_repeats(d);
        let kept = dedup_tags_spec(d);
        let x = tags.last();
        if distinct_folder_paths(tags) {
            assert(distinct_folder_paths(d)) by {
                assert forall|i: int, j: int| 0 <= i < j < d.len() implies (#[trigger] d[i]).relative_folder_path@
                    != (#[trigger] d[j]).relative_folder_path@ by {
                    assert(d[i] == tags[i] && d[j] == tags[j]);
                }
            }
            assert(kept == d);
            if exists|k: int|
                0 <= k < kept.len() && (#[trigger] kept[k]).relative_folder_path@
                    == x.relative_folder_path@ {
                let k = choose|k: int|
                    0 <= k < kept.len() && (#[trigger] kept[k]).relative_folder_path@
                        == x.relative_folder_path@;
                assert(tags[k] == d[k]);
                assert(tags[tags.len() - 1] == x);
                assert(false);
            }
            assert(kept.push(x) =~= tags);
        }
        let out = dedup_tags_spec(tags);
        if exists|k: int|
            0 <= k < kept.len() && (#[trigger] kept[k]).relative_folder_path@
                == x.relative_folder_path@ {
            assert(out == kept);
            assert forall|i: int| 0 <= i < tags.len() implies exists|k: int|
                0 <= k < out.len() && (#[trigger] out[k]).relative_folder_path@
                    == (#[trigger] tags[i]).relative_folder_path@ by {
                if i < d.len() {
                    assert(tags[i] == d[i]);
                }
            }
        } else {
            assert(out == kept.push(x));
            assert forall|i: int, j: int| 0 <= i < j < out.len() implies (#[trigger] out[i]).relative_folder_path@
                != (#[trigger] out[j]).relative_folder_path@ by {
                if j == kept.len() {
                    assert(out[i] == kept[i]);
                } else {
                    assert(out[i] == kept[i] && out[j] == kept[j]);
                }
            }
            assert forall|i: int| 0 <= i < tags.len() implies exists|k: int|
                0 <= k < out.len() && (#[trigger] out[k]).relative_folder_path@
                    == (#[trigger] tags[i]).relative_folder_path@ by {
                if i < d.len() {
                    assert(tags[i] == d[i]);
                    let k = choose|k: int|
                        0 <= k < kept.len() && (#[trigger] kept[k]).relative_folder_path@
                            == d[i].relative_folder_path@;
                    assert(out[k] == kept[k]);
                } else {
                    assert(out[kept.len() as int] == x);
                }
            }
        }
    }
}

} // verus!
