//! Thumbnail cache keys and the bookkeeping of the decoded-thumbnail memory
//! cache.

use std::collections::hash_map::DefaultHasher;
use std::hash::Hasher;
use vstd::std_specs::hash::DefaultHasherAdditionalSpecFns;
use vstd::prelude::*;

use crate::media::MediaType;
use crate::text::{chars_equal, chars_of, string_from_chars};

verus! {

/// Thumbnail size variant tag, part of the stable cache key. Only the grid
/// variant exists; the tag keeps keys distinct if variants are added later.
pub const GRID_VARIANT: &'static str = "grid256";

/// Maximum decoded thumbnail memory-cache size and entry count.
pub const THUMBNAIL_MEMORY_BUDGET_BYTES: usize = 268435456;

pub const THUMBNAIL_MEMORY_ENTRY_LIMIT: usize = 512;

/// A request to generate the thumbnail of one media row.
#[derive(Debug, Clone)]
pub struct ThumbnailRequest {
    pub media_id: i64,
    pub path: String,
    pub media_type: MediaType,
    pub modified_at: i64,
}

/// What a string is hashed as: its UTF-8 bytes, then the separator byte
/// `0xff` that no UTF-8 text contains (the encoding `Hash` for `str` uses).
pub open spec fn str_feed(s: Seq<char>) -> Seq<Seq<u8>> {
    seq![vstd::utf8::encode_utf8(s), seq![0xffu8]]
}

/// The eight bytes of `v`, least significant first.
pub open spec fn le_bytes(v: u64) -> Seq<u8> {
    seq![
        v as u8,
        (v >> 8u64) as u8,
        (v >> 16u64) as u8,
        (v >> 24u64) as u8,
        (v >> 32u64) as u8,
        (v >> 40u64) as u8,
        (v >> 48u64) as u8,
        (v >> 56u64) as u8,
    ]
}

/// Feeds a string to `hasher`.
fn feed_str(hasher: &mut DefaultHasher, s: &str)
    ensures
        final(hasher)@ == old(hasher)@ + str_feed(s@),
{
    hasher.write(s.as_bytes());
    let separator: Vec<u8> = vec![0xffu8];
    hasher.write(separator.as_slice());
    assert(final(hasher)@ =~= old(hasher)@ + str_feed(s@)) by {
        assert(separator@ =~= seq![0xffu8]);
    }
}

/// Feeds an integer to `hasher` as its eight little-endian bytes: what
/// `<i64 as Hash>::hash` feeds on the little-endian machines the gallery runs
/// on. The order is fixed rather than native so that what is hashed, and so
/// every cache key, is the same on every machine; on a big-endian machine the
/// keys differ from those native-order hashing would give.
fn feed_i64(hasher: &mut DefaultHasher, v: i64)
    ensures
        final(hasher)@ == old(hasher)@.push(le_bytes(v as u64)),
{
    let x = v as u64;
    let bytes: Vec<u8> = vec![
        x as u8,
        (x >> 8u64) as u8,
        (x >> 16u64) as u8,
        (x >> 24u64) as u8,
        (x >> 32u64) as u8,
        (x >> 40u64) as u8,
        (x >> 48u64) as u8,
        (x >> 56u64) as u8,
    ];
    assert(bytes@ =~= le_bytes(x));
    hasher.write(bytes.as_slice());
}

/// Everything the cache key of a thumbnail is hashed from, in order: the
/// canonical identity, the size variant tag, the size and the modification
/// time.
pub open spec fn key_feed(canonical_identity: Seq<char>, size_bytes: i64, modified_at: i64) -> Seq<
    Seq<u8>,
> {
    str_feed(canonical_identity) + str_feed(GRID_VARIANT@) + seq![
        le_bytes(size_bytes as u64),
        le_bytes(modified_at as u64),
    ]
}

/// The lowercase hexadecimal digit for `d` (0 to 15).
pub open spec fn hex_digit(d: nat) -> char {
    if d < 10 {
        ((d + 48) as u32) as char
    } else {
        ((d + 87) as u32) as char
    }
}

/// The last `count` hexadecimal digits of `n`, most significant first
/// (`{:016x}` for a `u64` when `count` is 16).
pub open spec fn hex_digits(n: nat, count: nat) -> Seq<char>
    decreases count,
{
    if count == 0 {
        seq![]
    } else {
        hex_digits(n / 16, (count - 1) as nat) + seq![hex_digit(n % 16)]
    }
}

fn hex_digits_exec(n: u64, count: u64) -> (r: Vec<char>)
    ensures
        r@ == hex_digits(n as nat, count as nat),
    decreases count,
{
    if count == 0 {
        Vec::new()
    } else {
        let mut r = hex_digits_exec(n / 16, count - 1);
        let d = n % 16;
        let c = if d < 10 {
            ((d + 48) as u8) as char
        } else {
            ((d + 87) as u8) as char
        };
        r.push(c);
        r
    }
}

/// The cache key for a digest: its 16 lowercase hexadecimal digits
/// (`{:016x}`).
pub open spec fn cache_key_spec(digest: u64) -> Seq<char> {
    hex_digits(digest as nat, 16)
}

/// Formats a cache-key digest.
pub fn cache_key_from_digest(digest: u64) -> (r: String)
    ensures
        r@ == cache_key_spec(digest),
        r@.len() == 16,
{
    let digits = hex_digits_exec(digest, 16);
    proof {
        lemma_hex_digits_len(digest as nat, 16);
    }
    string_from_chars(&digits)
}

/// Computes the stable cache key for a media item's thumbnail: the digest of
/// the canonical identity, the size variant and the content fingerprint
/// (size + mtime), fed in that order to std's `DefaultHasher`.
///
/// Addressing by canonical identity (not the raw access path) keeps the key
/// stable across symlink/move access, while the content fingerprint yields a
/// new key when the file changes, so a regenerated thumbnail lands in a new
/// file and the old one stays until the new one succeeds.
pub fn cache_key_for(canonical_identity: &str, size_bytes: i64, modified_at: i64) -> (r: String)
    ensures
        r@ == cache_key_spec(
            DefaultHasher::spec_finish(key_feed(canonical_identity@, size_bytes, modified_at)),
        ),
        r@.len() == 16,
{
    let mut hasher = DefaultHasher::new();
    feed_str(&mut hasher, canonical_identity);
    feed_str(&mut hasher, GRID_VARIANT);
    feed_i64(&mut hasher, size_bytes);
    feed_i64(&mut hasher, modified_at);
    assert(hasher@ =~= key_feed(canonical_identity@, size_bytes, modified_at));
    let digest = hasher.finish();
    cache_key_from_digest(digest)
}

proof fn lemma_hex_digits_len(n: nat, count: nat)
    ensures
        hex_digits(n, count).len() == count,
    decreases count,
{
    if count > 0 {
        lemma_hex_digits_len(n / 16, (count - 1) as nat);
    }
}

/// The cache file name of a key: `<key>.jpg`.
pub fn thumbnail_file_name(cache_key: &str) -> (r: String)
    ensures
        r@ == cache_key@ + ".jpg"@,
{
    let mut out = chars_of(cache_key);
    crate::text::append_str(&mut out, ".jpg");
    string_from_chars(&out)
}

/// One decoded thumbnail held in memory.
#[derive(Debug, Clone)]
pub struct MemoryEntry {
    pub media_id: i64,
    /// The thumbnail file it was decoded from.
    pub path: String,
    /// Decoded size in bytes.
    pub bytes: usize,
    /// Logical time of the last read or insertion.
    pub last_used: u64,
}

/// Total decoded bytes of a list of entries.
pub open spec fn total_bytes(entries: Seq<MemoryEntry>) -> nat
    decreases entries.len(),
{
    if entries.len() == 0 {
        0
    } else {
        total_bytes(entries.drop_last()) + entries.last().bytes as nat
    }
}

proof fn lemma_total_bytes_remove(entries: Seq<MemoryEntry>, i: int)
    requires
        0 <= i < entries.len(),
    ensures
        total_bytes(entries.remove(i)) + entries[i].bytes == total_bytes(entries),
    decreases entries.len(),
{
    if i < entries.len() - 1 {
        lemma_total_bytes_remove(entries.drop_last(), i);
        assert(entries.remove(i).drop_last() =~= entries.drop_last().remove(i));
        assert(entries.remove(i).last() == entries.last());
    } else {
        assert(entries.remove(i) =~= entries.drop_last());
    }
}

proof fn lemma_total_bytes_update(entries: Seq<MemoryEntry>, i: int, e: MemoryEntry)
    requires
        0 <= i < entries.len(),
        e.bytes == entries[i].bytes,
    ensures
        total_bytes(entries.update(i, e)) == total_bytes(entries),
    decreases entries.len(),
{
    if i < entries.len() - 1 {
        lemma_total_bytes_update(entries.drop_last(), i, e);
        assert(entries.update(i, e).drop_last() =~= entries.drop_last().update(i, e));
    } else {
        assert(entries.update(i, e).drop_last() =~= entries.drop_last());
    }
}

/// The result of inserting a decoded thumbnail.
#[derive(Debug, Clone)]
pub struct InsertOutcome {
    /// Whether the thumbnail was stored (its dimensions were usable).
    pub stored: bool,
    /// Media ids evicted to get back within the limits.
    pub evicted: Vec<i64>,
}

/// The UI-owned decoded-thumbnail LRU's bookkeeping: which media ids are held
/// (for which file, with what size and recency), which loads are pending, and
/// which ids are pinned by visible cells. The decoded pixels themselves live
/// with the UI toolkit, keyed by the same ids.
pub struct ThumbnailMemoryCache {
    entries: Vec<MemoryEntry>,
    pending: Vec<(i64, String)>,
    pinned: Vec<i64>,
    used_bytes: usize,
    clock: u64,
}

pub open spec fn ids_unique(entries: Seq<MemoryEntry>) -> bool {
    forall|i: int, j: int|
        0 <= i < entries.len() && 0 <= j < entries.len() && i != j ==> entries[i].media_id
            != entries[j].media_id
}

/// The evicted id `id` was held in `old_entries` with a recency no later than
/// that of any unpinned entry still held in `after`.
pub open spec fn evicted_before_all_kept(
    old_entries: Seq<MemoryEntry>,
    id: i64,
    after: ThumbnailMemoryCache,
) -> bool {
    exists|m: int|
        0 <= m < old_entries.len() && old_entries[m].media_id == id && forall|i: int|
            0 <= i < after.entries().len() && !after.is_pinned(#[trigger] after.entries()[i].media_id)
                ==> old_entries[m].last_used <= after.entries()[i].last_used
}

impl ThumbnailMemoryCache {
    pub closed spec fn entries(&self) -> Seq<MemoryEntry> {
        self.entries@
    }

    pub closed spec fn pinned_ids(&self) -> Seq<i64> {
        self.pinned@
    }

    pub closed spec fn pending_loads(&self) -> Seq<(i64, String)> {
        self.pending@
    }

    pub closed spec fn used(&self) -> nat {
        self.used_bytes as nat
    }

    pub closed spec fn clock(&self) -> u64 {
        self.clock
    }

    pub open spec fn is_pinned(&self, media_id: i64) -> bool {
        self.pinned_ids().contains(media_id)
    }

    pub open spec fn is_pending(&self, media_id: i64, path: Seq<char>) -> bool {
        exists|k: int|
            0 <= k < self.pending_loads().len() && (#[trigger] self.pending_loads()[k]).0
                == media_id && self.pending_loads()[k].1@ == path
    }

    /// The held entry for `media_id`, if any.
    pub open spec fn holds(&self, media_id: i64) -> bool {
        exists|i: int|
            0 <= i < self.entries().len() && (#[trigger] self.entries()[i]).media_id == media_id
    }

    /// Whether a thumbnail for `media_id` decoded from `path` is held.
    pub open spec fn holds_from(&self, media_id: i64, path: Seq<char>) -> bool {
        exists|i: int|
            0 <= i < self.entries().len() && (#[trigger] self.entries()[i]).media_id == media_id
                && self.entries()[i].path@ == path
    }

    /// Every id is held at most once, and the byte count is the sum of the
    /// held entries.
    pub open spec fn wf(&self) -> bool {
        &&& ids_unique(self.entries())
        &&& self.used() == total_bytes(self.entries())
    }

    /// Whether the cache is within both the entry-count and the byte budget.
    pub open spec fn within_limits(&self) -> bool {
        &&& self.entries().len() <= THUMBNAIL_MEMORY_ENTRY_LIMIT
        &&& self.used() <= THUMBNAIL_MEMORY_BUDGET_BYTES
    }

    pub open spec fn all_pinned(&self) -> bool {
        forall|i: int|
            0 <= i < self.entries().len() ==> self.is_pinned(#[trigger] self.entries()[i].media_id)
    }

    pub fn new() -> (c: ThumbnailMemoryCache)
        ensures
            c.wf(),
            c.entries().len() == 0,
            c.pinned_ids().len() == 0,
            c.pending_loads().len() == 0,
            c.clock() == 0,
    {
        ThumbnailMemoryCache {
            entries: Vec::new(),
            pending: Vec::new(),
            pinned: Vec::new(),
            used_bytes: 0,
            clock: 0,
        }
    }

    /// Decoded bytes held.
    pub fn used_bytes(&self) -> (r: usize)
        ensures
            r == self.used(),
    {
        self.used_bytes
    }

    fn pinned_contains(&self, media_id: i64) -> (r: bool)
        ensures
            r == self.is_pinned(media_id),
    {
        let mut i: usize = 0;
        while i < self.pinned.len()
            invariant
                0 <= i <= self.pinned@.len(),
                forall|j: int| 0 <= j < i ==> self.pinned@[j] != media_id,
            decreases self.pinned@.len() - i,
        {
            if self.pinned[i] == media_id {
                assert(self.pinned@[i as int] == media_id);
                return true;
            }
            i += 1;
        }
        false
    }

    fn index_of(&self, media_id: i64) -> (r: Option<usize>)
        ensures
            match r {
                Some(i) => i < self.entries().len() && self.entries()[i as int].media_id == media_id,
                None => !self.holds(media_id),
            },
    {
        let mut i: usize = 0;
        while i < self.entries.len()
            invariant
                0 <= i <= self.entries@.len(),
                forall|j: int| 0 <= j < i ==> self.entries@[j].media_id != media_id,
            decreases self.entries@.len() - i,
        {
            if self.entries[i].media_id == media_id {
                return Some(i);
            }
            i += 1;
        }
        None
    }

    /// Marks a media id as referenced by a visible cell: it is never evicted
    /// while pinned.
    pub fn pin(&mut self, media_id: i64)
        ensures
            final(self).entries() == old(self).entries(),
            final(self).used() == old(self).used(),
            final(self).pending_loads() == old(self).pending_loads(),
            final(self).clock() == old(self).clock(),
            forall|id: i64| #[trigger]
                final(self).is_pinned(id) == (old(self).is_pinned(id) || id == media_id),
    {
        if !self.pinned_contains(media_id) {
            self.pinned.push(media_id);
            assert forall|id: i64| #[trigger] self.is_pinned(id) == (old(self).is_pinned(id) || id
                == media_id) by {
                if old(self).is_pinned(id) {
                    let k = choose|k: int| 0 <= k < old(self).pinned@.len() && old(self).pinned@[k] == id;
                    assert(self.pinned@[k] == id);
                }
                if id == media_id {
                    assert(self.pinned@[self.pinned@.len() - 1] == id);
                }
            }
        }
    }

    /// Releases a pin, then evicts down to the limits. Returns the evicted ids.
    pub fn unpin(&mut self, media_id: i64) -> (evicted: Vec<i64>)
        requires
            old(self).wf(),
        ensures
            final(self).wf(),
            !final(self).is_pinned(media_id),
            forall|id: i64| id != media_id ==> #[trigger] final(self).is_pinned(id) == old(self).is_pinned(id),
            final(self).within_limits() || final(self).all_pinned(),
            forall|i: int|
                0 <= i < final(self).entries().len() ==> old(self).entries().contains(
                    #[trigger] final(self).entries()[i],
                ),
            forall|id: i64|
                old(self).holds(id) && final(self).is_pinned(id) ==> #[trigger] final(self).holds(id),
            forall|id: i64|
                old(self).holds(id) && !#[trigger] final(self).holds(id) ==> evicted@.contains(id),
            forall|k: int|
                0 <= k < evicted@.len() ==> !final(self).holds(#[trigger] evicted@[k])
                    && !final(self).is_pinned(evicted@[k]),
            forall|k: int|
                0 <= k < evicted@.len() ==> #[trigger] evicted_before_all_kept(
                    old(self).entries(),
                    evicted@[k],
                    *final(self),
                ),
    {
        let mut kept: Vec<i64> = Vec::new();
        let mut i: usize = 0;
        while i < self.pinned.len()
            invariant
                0 <= i <= self.pinned@.len(),
                forall|k: int|
                    0 <= k < kept@.len() ==> #[trigger] kept@[k] != media_id
                        && self.pinned@.contains(kept@[k]),
                forall|j: int|
                    0 <= j < i && #[trigger] self.pinned@[j] != media_id ==> kept@.contains(
                        self.pinned@[j],
                    ),
            decreases self.pinned@.len() - i,
        {
            let id = self.pinned[i];
            let ghost before = kept@;
            if id != media_id {
                kept.push(id);
                proof {
                    assert(kept@[kept@.len() - 1] == id);
                    assert forall|j: int|
                        0 <= j < i && #[trigger] self.pinned@[j] != media_id implies kept@.contains(
                        self.pinned@[j],
                    ) by {
                        let k = choose|k: int| 0 <= k < before.len() && before[k] == self.pinned@[j];
                        assert(kept@[k] == before[k]);
                    }
                    assert forall|k: int| 0 <= k < kept@.len() implies #[trigger] kept@[k] != media_id
                        && self.pinned@.contains(kept@[k]) by {
                        if k < before.len() {
                            assert(kept@[k] == before[k]);
                        } else {
                            assert(self.pinned@[i as int] == id);
                        }
                    }
                }
            }
            i += 1;
        }
        proof {
            assert forall|id: i64| id != media_id implies #[trigger] kept@.contains(id)
                == self.pinned@.contains(id) by {
                if self.pinned@.contains(id) {
                    let j = choose|j: int| 0 <= j < self.pinned@.len() && self.pinned@[j] == id;
                    assert(self.pinned@[j] != media_id);
                }
                if kept@.contains(id) {
                    let k = choose|k: int| 0 <= k < kept@.len() && kept@[k] == id;
                    assert(self.pinned@.contains(kept@[k]));
                }
            }
            assert(!kept@.contains(media_id)) by {
                if kept@.contains(media_id) {
                    let k = choose|k: int| 0 <= k < kept@.len() && kept@[k] == media_id;
                    assert(kept@[k] != media_id);
                }
            }
        }
        self.pinned = kept;
        let ghost before = self.entries@;
        let ghost mid = *self;
        assert forall|id: i64| old(self).holds(id) implies #[trigger] mid.holds(id) by {
            let a = choose|a: int| 0 <= a < old(self).entries().len() && (#[trigger] old(
                self,
            ).entries()[a]).media_id == id;
            assert(mid.entries()[a].media_id == id);
        }
        let evicted = self.evict_to_limits();
        proof {
            assert forall|i: int| 0 <= i < self.entries().len() implies old(self).entries().contains(
                #[trigger] self.entries()[i],
            ) by {
                assert(before.contains(self.entries()[i]));
            }
        }
        evicted
    }

    /// Reads a held thumbnail for `media_id` decoded from `path`, refreshing
    /// its recency. A miss (nothing held, or held for another file) changes
    /// nothing but the logical clock.
    pub fn get(&mut self, media_id: i64, path: &str) -> (hit: bool)
        requires
            old(self).wf(),
        ensures
            final(self).wf(),
            final(self).clock() == if old(self).clock() == u64::MAX {
                u64::MAX
            } else {
                (old(self).clock() + 1) as u64
            },
            hit == old(self).holds_from(media_id, path@),
            final(self).entries().len() == old(self).entries().len(),
            forall|i: int|
                0 <= i < old(self).entries().len() ==> {
                    let e = #[trigger] old(self).entries()[i];
                    let f = final(self).entries()[i];
                    &&& f.media_id == e.media_id
                    &&& f.path@ == e.path@
                    &&& f.bytes == e.bytes
                    &&& f.last_used == if hit && e.media_id == media_id {
                        final(self).clock()
                    } else {
                        e.last_used
                    }
                },
            final(self).pinned_ids() == old(self).pinned_ids(),
            final(self).pending_loads() == old(self).pending_loads(),
    {
        self.clock = if self.clock == u64::MAX {
            u64::MAX
        } else {
            self.clock + 1
        };
        match self.index_of(media_id) {
            Some(i) => {
                let want = chars_of(path);
                let have = chars_of(self.entries[i].path.as_str());
                if !chars_equal(&have, &want) {
                    assert forall|j: int|
                        0 <= j < old(self).entries().len() && (#[trigger] old(
                            self,
                        ).entries()[j]).media_id == media_id implies old(self).entries()[j].path@
                        != path@ by {
                        assert(j == i);
                    }
                    return false;
                }
                let updated = MemoryEntry {
                    media_id: self.entries[i].media_id,
                    path: string_from_chars(&have),
                    bytes: self.entries[i].bytes,
                    last_used: self.clock,
                };
                proof {
                    lemma_total_bytes_update(self.entries@, i as int, updated);
                }
                self.entries.set(i, updated);
                proof {
                    assert forall|j: int|
                        0 <= j < old(self).entries().len() && j != i implies (#[trigger] old(
                            self,
                        ).entries()[j]).media_id != media_id by {}
                }
                true
            },
            None => false,
        }
    }

    /// Records that a load of `media_id` from `path` was requested; returns
    /// `false` when the same load is already pending.
    pub fn begin_load(&mut self, media_id: i64, path: &str) -> (started: bool)
        ensures
            started == !old(self).is_pending(media_id, path@),
            final(self).is_pending(media_id, path@),
            final(self).entries() == old(self).entries(),
            final(self).used() == old(self).used(),
            final(self).pinned_ids() == old(self).pinned_ids(),
            final(self).clock() == old(self).clock(),
    {
        let want = chars_of(path);
        let mut i: usize = 0;
        while i < self.pending.len()
            invariant
                0 <= i <= self.pending@.len(),
                want@ == path@,
                forall|j: int|
                    0 <= j < i ==> !((#[trigger] self.pending@[j]).0 == media_id
                        && self.pending@[j].1@ == path@),
            decreases self.pending@.len() - i,
        {
            if self.pending[i].0 == media_id {
                let have = chars_of(self.pending[i].1.as_str());
                if chars_equal(&have, &want) {
                    assert(self.pending_loads()[i as int].0 == media_id
                        && self.pending_loads()[i as int].1@ == path@);
                    return false;
                }
            }
            i += 1;
        }
        let entry_path = string_from_chars(&want);
        self.pending.push((media_id, entry_path));
        assert(self.pending_loads()[self.pending@.len() - 1].0 == media_id);
        assert(self.pending_loads()[self.pending@.len() - 1].1@ == path@);
        true
    }

    /// Stores a freshly decoded thumbnail and evicts down to the limits.
    ///
    /// The pending load is cleared first. A thumbnail whose width or height
    /// does not fit an `i32`, or whose row stride (`width * 4`) overflows, is
    /// not stored. Otherwise it replaces any entry held for the same id and
    /// becomes the most recently used.
    #[verifier::spinoff_prover]
    pub fn insert(&mut self, media_id: i64, path: String, width: u32, height: u32, byte_count: usize) -> (out:
        InsertOutcome)
        requires
            old(self).wf(),
            old(self).used() + byte_count <= usize::MAX,
        ensures
            final(self).wf(),
            !final(self).is_pending(media_id, path@),
            out.stored == (width <= i32::MAX as u32 && height <= i32::MAX as u32 && (width as int)
                * 4 <= usize::MAX),
            !out.stored ==> final(self).entries() == old(self).entries(),
            out.stored ==> (final(self).within_limits() || final(self).all_pinned()),
            out.stored ==> final(self).holds(media_id) || out.evicted@.contains(media_id),
            out.stored && !out.evicted@.contains(media_id) ==> final(self).holds_from(
                media_id,
                path@,
            ),
            out.stored ==> forall|i: int|
                0 <= i < final(self).entries().len() && (#[trigger] final(self).entries()[i]).media_id
                    == media_id ==> final(self).entries()[i].path@ == path@
                    && final(self).entries()[i].bytes == byte_count,
            out.stored ==> forall|id: i64|
                (old(self).holds(id) || id == media_id) && old(self).is_pinned(id)
                    ==> #[trigger] final(self).holds(id),
            out.stored ==> forall|id: i64|
                old(self).holds(id) && id != media_id && !#[trigger] final(self).holds(id)
                    ==> out.evicted@.contains(id),
            forall|k: int|
                0 <= k < out.evicted@.len() ==> !final(self).holds(#[trigger] out.evicted@[k])
                    && !final(self).is_pinned(out.evicted@[k]),
            out.stored ==> forall|k: int|
                0 <= k < out.evicted@.len() && out.evicted@[k] != media_id
                    ==> #[trigger] evicted_before_all_kept(
                    old(self).entries(),
                    out.evicted@[k],
                    *final(self),
                ),
            out.stored && out.evicted@.contains(media_id) ==> forall|i: int|
                0 <= i < final(self).entries().len() && !final(self).is_pinned(
                    #[trigger] final(self).entries()[i].media_id,
                ) ==> final(self).clock() <= final(self).entries()[i].last_used,
            final(self).pinned_ids() == old(self).pinned_ids(),
    {
        let want = chars_of(path.as_str());
        let mut remaining: Vec<(i64, String)> = Vec::new();
        let mut i: usize = 0;
        while i < self.pending.len()
            invariant
                0 <= i <= self.pending@.len(),
                want@ == path@,
                forall|k: int|
                    0 <= k < remaining@.len() ==> !((#[trigger] remaining@[k]).0 == media_id
                        && remaining@[k].1@ == path@),
            decreases self.pending@.len() - i,
        {
            let same_id = self.pending[i].0 == media_id;
            let same = same_id && {
                let have = chars_of(self.pending[i].1.as_str());
                chars_equal(&have, &want)
            };
            if !same {
                let id = self.pending[i].0;
                let p = string_from_chars(&chars_of(self.pending[i].1.as_str()));
                remaining.push((id, p));
            }
            i += 1;
        }
        self.pending = remaining;
        let mut evicted: Vec<i64> = Vec::new();
        if width > i32::MAX as u32 || height > i32::MAX as u32 {
            return InsertOutcome { stored: false, evicted };
        }
        if (width as usize) > usize::MAX / 4 {
            return InsertOutcome { stored: false, evicted };
        }
        self.clock = if self.clock == u64::MAX {
            u64::MAX
        } else {
            self.clock + 1
        };
        match self.index_of(media_id) {
            Some(idx) => {
                proof {
                    lemma_total_bytes_remove(self.entries@, idx as int);
                }
                let removed = self.entries.remove(idx);
                self.used_bytes = self.used_bytes - removed.bytes;
                assert forall|a: int, b: int|
                    0 <= a < self.entries@.len() && 0 <= b < self.entries@.len() && a != b implies self.entries@[a].media_id
                    != self.entries@[b].media_id by {
                    let a0 = if a < idx { a } else { a + 1 };
                    let b0 = if b < idx { b } else { b + 1 };
                    assert(old(self).entries@[a0] == self.entries@[a]);
                    assert(old(self).entries@[b0] == self.entries@[b]);
                }
                assert(!self.holds(media_id)) by {
                    if self.holds(media_id) {
                        let a = choose|a: int| 0 <= a < self.entries@.len() && self.entries@[a].media_id == media_id;
                        let a0 = if a < idx { a } else { a + 1 };
                        assert(old(self).entries@[a0] == self.entries@[a]);
                    }
                }
                assert forall|m: int| 0 <= m < self.entries@.len() implies old(self).entries().contains(
                    #[trigger] self.entries@[m],
                ) by {
                    let m0 = if m < idx { m } else { m + 1 };
                    assert(old(self).entries@[m0] == self.entries@[m]);
                }
            },
            None => {
                assert forall|m: int| 0 <= m < self.entries@.len() implies old(self).entries().contains(
                    #[trigger] self.entries@[m],
                ) by {
                    assert(old(self).entries@[m] == self.entries@[m]);
                }
            },
        }
        assert(!self.holds(media_id));
        let ghost pre_push = *self;
        let entry = MemoryEntry { media_id, path, bytes: byte_count, last_used: self.clock };
        self.used_bytes = self.used_bytes + byte_count;
        let ghost before_push = self.entries@;
        self.entries.push(entry);
        proof {
            assert(self.entries@.drop_last() == before_push);
            assert forall|a: int, b: int|
                0 <= a < self.entries@.len() && 0 <= b < self.entries@.len() && a != b implies self.entries@[a].media_id
                != self.entries@[b].media_id by {
                if a == self.entries@.len() - 1 {
                    assert(before_push[b] == self.entries@[b]);
                    assert(pre_push.entries()[b] == before_push[b]);
                } else if b == self.entries@.len() - 1 {
                    assert(before_push[a] == self.entries@[a]);
                    assert(pre_push.entries()[a] == before_push[a]);
                } else {
                    assert(before_push[a] == self.entries@[a]);
                    assert(before_push[b] == self.entries@[b]);
                }
            }
        }
        let ghost pre = *self;
        let ghost new_entry = self.entries@[self.entries@.len() - 1];
        proof {
            assert(new_entry.media_id == media_id && new_entry.path@ == path@ && new_entry.bytes
                == byte_count);
            assert(pre.holds(media_id)) by {
                assert(pre.entries()[pre.entries().len() - 1].media_id == media_id);
            }
            assert forall|id: i64| old(self).holds(id) && id != media_id implies #[trigger] pre.holds(
                id,
            ) by {
                let a = choose|a: int| 0 <= a < old(self).entries().len() && (#[trigger] old(
                    self,
                ).entries()[a]).media_id == id;
                if self.entries@.len() == old(self).entries().len() + 1 {
                    assert(pre.entries()[a] == old(self).entries()[a]);
                } else {
                    let idx = choose|idx: int| 0 <= idx < old(self).entries().len() && (#[trigger] old(
                        self,
                    ).entries()[idx]).media_id == media_id;
                    let a1 = if a < idx { a } else { a - 1 };
                    assert(pre.entries()[a1] == old(self).entries()[a]);
                }
            }
        }
        evicted = self.evict_to_limits();
        proof {
            assert forall|i: int|
                0 <= i < self.entries().len() && (#[trigger] self.entries()[i]).media_id
                    == media_id implies self.entries()[i].path@ == path@ && self.entries()[i].bytes
                == byte_count by {
                assert(pre.entries().contains(self.entries()[i]));
                let j = choose|j: int| 0 <= j < pre.entries().len() && pre.entries()[j] == self.entries()[i];
                let last = pre.entries().len() - 1;
                if j != last {
                    assert(pre.entries()[j].media_id != pre.entries()[last].media_id);
                }
            }
            assert forall|k: int|
                0 <= k < evicted@.len() && evicted@[k] != media_id implies #[trigger] evicted_before_all_kept(
                old(self).entries(),
                evicted@[k],
                *self,
            ) by {
                assert(evicted_before_all_kept(pre.entries(), evicted@[k], *self));
                let m = choose|m: int|
                    0 <= m < pre.entries().len() && pre.entries()[m].media_id == evicted@[k] && forall|
                        i: int,
                    |
                        0 <= i < self.entries().len() && !self.is_pinned(
                            #[trigger] self.entries()[i].media_id,
                        ) ==> pre.entries()[m].last_used <= self.entries()[i].last_used;
                assert(m < pre.entries().len() - 1);
                assert(pre.entries()[m] == before_push[m]);
                assert(old(self).entries().contains(before_push[m]));
                let j = choose|j: int|
                    0 <= j < old(self).entries().len() && old(self).entries()[j] == before_push[m];
                assert(old(self).entries()[j].media_id == evicted@[k]);
            }
            if evicted@.contains(media_id) {
                let k = choose|k: int| 0 <= k < evicted@.len() && evicted@[k] == media_id;
                assert(evicted_before_all_kept(pre.entries(), evicted@[k], *self));
                let m = choose|m: int|
                    0 <= m < pre.entries().len() && pre.entries()[m].media_id == media_id && forall|
                        i: int,
                    |
                        0 <= i < self.entries().len() && !self.is_pinned(
                            #[trigger] self.entries()[i].media_id,
                        ) ==> pre.entries()[m].last_used <= self.entries()[i].last_used;
                let last = pre.entries().len() - 1;
                if m != last {
                    assert(pre.entries()[m].media_id != pre.entries()[last].media_id);
                }
            }
            if !evicted@.contains(media_id) {
                assert(self.holds(media_id));
                let k = choose|k: int|
                    0 <= k < self.entries().len() && (#[trigger] self.entries()[k]).media_id
                        == media_id;
                assert(self.entries()[k].path@ == path@);
            }
        }
        InsertOutcome { stored: true, evicted }
    }

    /// Evicts the least recently used unpinned entry, repeatedly, until the
    /// cache is within both limits or only pinned entries remain. Returns the
    /// evicted ids, in eviction order.
    fn evict_to_limits(&mut self) -> (evicted: Vec<i64>)
        requires
            old(self).wf(),
        ensures
            final(self).wf(),
            final(self).within_limits() || final(self).all_pinned(),
            final(self).pinned_ids() == old(self).pinned_ids(),
            final(self).pending_loads() == old(self).pending_loads(),
            final(self).clock() == old(self).clock(),
            forall|i: int|
                0 <= i < final(self).entries().len() ==> old(self).entries().contains(
                    #[trigger] final(self).entries()[i],
                ),
            forall|k: int|
                0 <= k < evicted@.len() ==> !final(self).holds(#[trigger] evicted@[k])
                    && !final(self).is_pinned(evicted@[k]),
            forall|k: int|
                0 <= k < evicted@.len() ==> #[trigger] evicted_before_all_kept(
                    old(self).entries(),
                    evicted@[k],
                    *final(self),
                ),
            forall|id: i64|
                old(self).holds(id) && old(self).is_pinned(id) ==> #[trigger] final(self).holds(id),
            forall|id: i64|
                old(self).holds(id) && !#[trigger] final(self).holds(id) ==> evicted@.contains(id),
    {
        let mut evicted: Vec<i64> = Vec::new();
        while self.entries.len() > THUMBNAIL_MEMORY_ENTRY_LIMIT || self.used_bytes
            > THUMBNAIL_MEMORY_BUDGET_BYTES
            invariant_except_break
                self.wf(),
                self.pinned_ids() == old(self).pinned_ids(),
                self.pending_loads() == old(self).pending_loads(),
                self.clock() == old(self).clock(),
                forall|i: int|
                    0 <= i < self.entries().len() ==> old(self).entries().contains(
                        #[trigger] self.entries()[i],
                    ),
                forall|k: int|
                    0 <= k < evicted@.len() ==> !self.holds(#[trigger] evicted@[k])
                        && !self.is_pinned(evicted@[k]),
                forall|k: int|
                    0 <= k < evicted@.len() ==> #[trigger] evicted_before_all_kept(
                        old(self).entries(),
                        evicted@[k],
                        *self,
                    ),
                ids_unique(old(self).entries()),
                forall|id: i64|
                    old(self).holds(id) && old(self).is_pinned(id) ==> #[trigger] self.holds(id),
                forall|id: i64|
                    old(self).holds(id) && !#[trigger] self.holds(id) ==> evicted@.contains(id),
            ensures
                self.wf(),
                forall|id: i64|
                    old(self).holds(id) && old(self).is_pinned(id) ==> #[trigger] self.holds(id),
                forall|id: i64|
                    old(self).holds(id) && !#[trigger] self.holds(id) ==> evicted@.contains(id),
                self.within_limits() || self.all_pinned(),
                self.pinned_ids() == old(self).pinned_ids(),
                self.pending_loads() == old(self).pending_loads(),
                self.clock() == old(self).clock(),
                forall|i: int|
                    0 <= i < self.entries().len() ==> old(self).entries().contains(
                        #[trigger] self.entries()[i],
                    ),
                forall|k: int|
                    0 <= k < evicted@.len() ==> !self.holds(#[trigger] evicted@[k])
                        && !self.is_pinned(evicted@[k]),
                forall|k: int|
                    0 <= k < evicted@.len() ==> #[trigger] evicted_before_all_kept(
                        old(self).entries(),
                        evicted@[k],
                        *self,
                    ),
            decreases self.entries@.len(),
        {
            let mut victim: Option<usize> = None;
            let mut j: usize = 0;
            while j < self.entries.len()
                invariant
                    0 <= j <= self.entries@.len(),
                    match victim {
                        Some(v) => v < j && !self.is_pinned(self.entries@[v as int].media_id)
                            && forall|k: int|
                            0 <= k < j && !self.is_pinned(#[trigger] self.entries@[k].media_id)
                                ==> self.entries@[v as int].last_used <= self.entries@[k].last_used,
                        None => forall|k: int|
                            0 <= k < j ==> self.is_pinned(#[trigger] self.entries@[k].media_id),
                    },
                decreases self.entries@.len() - j,
            {
                if !self.pinned_contains(self.entries[j].media_id) {
                    match victim {
                        Some(v) => {
                            if self.entries[j].last_used < self.entries[v].last_used {
                                victim = Some(j);
                            }
                        },
                        None => {
                            victim = Some(j);
                        },
                    }
                }
                j += 1;
            }
            match victim {
                Some(v) => {
                    let ghost prev = self.entries@;
                    let ghost snapshot = *self;
                    let id = self.entries[v].media_id;
                    proof {
                        lemma_total_bytes_remove(self.entries@, v as int);
                    }
                    let removed = self.entries.remove(v);
                    self.used_bytes = self.used_bytes - removed.bytes;
                    proof {
                        assert forall|a: int, b: int|
                            0 <= a < self.entries@.len() && 0 <= b < self.entries@.len() && a != b implies self.entries@[a].media_id
                            != self.entries@[b].media_id by {
                            let a0 = if a < v { a } else { a + 1 };
                            let b0 = if b < v { b } else { b + 1 };
                            assert(prev[a0] == self.entries@[a]);
                            assert(prev[b0] == self.entries@[b]);
                        }
                        assert forall|i: int| 0 <= i < self.entries().len() implies old(
                            self,
                        ).entries().contains(#[trigger] self.entries()[i]) by {
                            let i0 = if i < v { i } else { i + 1 };
                            assert(prev[i0] == self.entries@[i]);
                            assert(prev.contains(prev[i0]));
                        }
                        assert(!self.holds(id)) by {
                            if self.holds(id) {
                                let a = choose|a: int| 0 <= a < self.entries@.len() && self.entries@[a].media_id == id;
                                let a0 = if a < v { a } else { a + 1 };
                                assert(prev[a0] == self.entries@[a]);
                            }
                        }
                        assert forall|k: int| 0 <= k < evicted@.len() implies !self.holds(
                            #[trigger] evicted@[k],
                        ) by {
                            if self.holds(evicted@[k]) {
                                let a = choose|a: int| 0 <= a < self.entries@.len() && self.entries@[a].media_id == evicted@[k];
                                let a0 = if a < v { a } else { a + 1 };
                                assert(prev[a0] == self.entries@[a]);
                            }
                        }
                    }
                    proof {
                        let victim_entry = prev[v as int];
                        assert(old(self).entries().contains(victim_entry));
                        let m = choose|m: int| 0 <= m < old(self).entries().len() && old(self).entries()[m] == victim_entry;
                        assert forall|i: int|
                            0 <= i < self.entries().len() && !self.is_pinned(
                                #[trigger] self.entries()[i].media_id,
                            ) implies old(self).entries()[m].last_used
                            <= self.entries()[i].last_used by {
                            let i0 = if i < v { i } else { i + 1 };
                            assert(prev[i0] == self.entries@[i]);
                        }
                        assert(evicted_before_all_kept(old(self).entries(), id, *self));
                        assert forall|k: int| 0 <= k < evicted@.len() implies #[trigger] evicted_before_all_kept(
                            old(self).entries(),
                            evicted@[k],
                            *self,
                        ) by {
                            assert(evicted_before_all_kept(old(self).entries(), evicted@[k], snapshot));
                            let m2 = choose|m2: int| 0 <= m2 < old(self).entries().len() && old(self).entries()[m2].media_id == evicted@[k]
                                && forall|i: int| 0 <= i < snapshot.entries().len() && !snapshot.is_pinned(#[trigger] snapshot.entries()[i].media_id) ==> old(self).entries()[m2].last_used <= snapshot.entries()[i].last_used;
                            assert forall|i: int|
                                0 <= i < self.entries().len() && !self.is_pinned(
                                    #[trigger] self.entries()[i].media_id,
                                ) implies old(self).entries()[m2].last_used
                                <= self.entries()[i].last_used by {
                                let i0 = if i < v { i } else { i + 1 };
                                assert(prev[i0] == self.entries@[i]);
                            }
                        }
                    }
                    let ghost old_evicted = evicted@;
                    evicted.push(id);
                    proof {
                        assert(!self.is_pinned(id));
                        assert forall|x: i64|
                            old(self).holds(x) && old(self).is_pinned(x) implies #[trigger] self.holds(x) by {
                            assert(snapshot.holds(x));
                            assert(snapshot.is_pinned(x));
                            assert(snapshot.entries() == prev);
                            let a = choose|a: int| 0 <= a < prev.len() && (#[trigger] prev[a]).media_id == x;
                            assert(snapshot.is_pinned(prev[a].media_id));
                            assert(!snapshot.is_pinned(prev[v as int].media_id));
                            assert(a != v);
                            let a1 = if a < v { a } else { a - 1 };
                            assert(self.entries@[a1] == prev[a]);
                            assert(self.entries()[a1].media_id == x);
                        }
                        assert forall|x: i64|
                            old(self).holds(x) && !#[trigger] self.holds(x) implies evicted@.contains(x) by {
                            assert(snapshot.entries() == prev);
                            if snapshot.holds(x) {
                                let a = choose|a: int| 0 <= a < prev.len() && (#[trigger] prev[a]).media_id == x;
                                if a != v {
                                    let a1 = if a < v { a } else { a - 1 };
                                    assert(self.entries@[a1] == prev[a]);
                                    assert(self.entries()[a1].media_id == x);
                                } else {
                                    assert(prev[v as int].media_id == id);
                                    assert(evicted@[evicted@.len() - 1] == x);
                                }
                            } else {
                                assert(old_evicted.contains(x));
                                let k = choose|k: int| 0 <= k < old_evicted.len() && old_evicted[k] == x;
                                assert(evicted@[k] == x);
                            }
                        }
                        assert forall|k: int| 0 <= k < evicted@.len() implies !self.holds(
                            #[trigger] evicted@[k],
                        ) && !self.is_pinned(evicted@[k]) by {
                            if k < old_evicted.len() {
                                assert(evicted@[k] == old_evicted[k]);
                            }
                        }
                        assert forall|k: int| 0 <= k < evicted@.len() implies #[trigger] evicted_before_all_kept(
                            old(self).entries(),
                            evicted@[k],
                            *self,
                        ) by {
                            if k < old_evicted.len() {
                                assert(evicted@[k] == old_evicted[k]);
                            }
                        }
                    }
                },
                None => {
                    break;
                },
            }
        }
        evicted
    }
}

/// Total bytes of the disk-cache entries `(media id, file size)`.
pub open spec fn disk_total(entries: Seq<(i64, u64)>) -> int
    decreases entries.len(),
{
    if entries.len() == 0 {
        0
    } else {
        disk_total(entries.drop_last()) + entries.last().1
    }
}

/// The ids to evict, in order, walking `entries` from least recently used
/// and skipping visible ones, until `excess` bytes are freed.
pub open spec fn eviction_ids(entries: Seq<(i64, u64)>, visible: Seq<i64>, excess: int) -> Seq<i64>
    decreases entries.len(),
{
    if excess <= 0 || entries.len() == 0 {
        seq![]
    } else if visible.contains(entries[0].0) {
        eviction_ids(entries.drop_first(), visible, excess)
    } else {
        seq![entries[0].0] + eviction_ids(entries.drop_first(), visible, excess - entries[0].1)
    }
}

/// Which cached thumbnails to delete from disk to get the cache within
/// `budget` bytes: least recently used first (`entries` come in that order),
/// never one that a visible cell shows.
pub fn plan_disk_eviction(entries: &[(i64, u64)], visible: &[i64], budget: u64) -> (r: Vec<i64>)
    ensures
        r@ == eviction_ids(entries@, visible@, disk_total(entries@) - budget),
{
    let mut total: u128 = 0;
    let mut i: usize = 0;
    while i < entries.len()
        invariant
            0 <= i <= entries@.len(),
            total == disk_total(entries@.take(i as int)),
            total <= i * 0x1_0000_0000_0000_0000,
        decreases entries@.len() - i,
    {
        assert(entries@.take(i as int + 1).drop_last() =~= entries@.take(i as int));
        total = total + entries[i].1 as u128;
        i += 1;
    }
    assert(entries@.take(entries@.len() as int) =~= entries@);
    let ghost goal = eviction_ids(entries@, visible@, disk_total(entries@) - budget);
    let ghost mut excess: int = disk_total(entries@) - budget;
    let mut remaining: u128 = if total > budget as u128 {
        total - budget as u128
    } else {
        0
    };
    let mut out: Vec<i64> = Vec::new();
    let mut k: usize = 0;
    proof {
        assert(entries@.skip(0) =~= entries@);
        assert(out@ + goal =~= goal);
    }
    while k < entries.len() && remaining > 0
        invariant
            0 <= k <= entries@.len(),
            excess > 0 ==> remaining == excess,
            excess <= 0 ==> remaining == 0,
            out@ + eviction_ids(entries@.skip(k as int), visible@, excess) == goal,
        decreases entries@.len() - k,
    {
        let (id, size) = entries[k];
        proof {
            assert(entries@.skip(k as int).drop_first() =~= entries@.skip(k as int + 1));
            assert(entries@.skip(k as int)[0] == entries@[k as int]);
        }
        let mut shown = false;
        let mut j: usize = 0;
        while j < visible.len()
            invariant
                0 <= j <= visible@.len(),
                shown == exists|t: int| 0 <= t < j && visible@[t] == id,
            decreases visible@.len() - j,
        {
            if visible[j] == id {
                shown = true;
            }
            j += 1;
        }
        proof {
            if visible@.contains(id) {
                let t = choose|t: int| 0 <= t < visible@.len() && visible@[t] == id;
                assert(shown);
            }
            if shown {
                let t = choose|t: int| 0 <= t < j && visible@[t] == id;
                assert(visible@.contains(id));
            }
        }
        if !shown {
            let ghost before = out@;
            out.push(id);
            proof {
                assert(out@ + eviction_ids(entries@.skip(k as int + 1), visible@, excess - size) =~= before
                    + eviction_ids(entries@.skip(k as int), visible@, excess));
                excess = excess - size;
            }
            remaining = if size as u128 >= remaining {
                0
            } else {
                remaining - size as u128
            };
        }
        k += 1;
    }
    proof {
        assert(eviction_ids(entries@.skip(k as int), visible@, excess) =~= Seq::<i64>::empty());
        assert(out@ + Seq::<i64>::empty() =~= out@);
    }
    out
}

} // verus!
