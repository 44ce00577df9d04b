//! Content-addressed, size-bounded thumbnail cache.
//!
//! The store itself lives on disk and is driven by the host; everything here
//! is the verified logic of that store: key derivation, the pure key-to-path
//! mapping, the atomic-write naming scheme, and the planning of LRU eviction
//! over a directory listing.

use vstd::prelude::*;
use vstd::bytes::lemma_auto_spec_u64_to_from_le_bytes;
use vstd::bytes::spec_u64_from_le_bytes;
use vstd::bytes::spec_u64_to_le_bytes;
use vstd::bytes::u64_to_le_bytes;
use vstd::string::StrSliceExecFns;
use vstd::string::StringExecFns;
use vstd::string::StringSliceAdditionalSpecFns;

verus! {

broadcast use vstd::seq_lib::group_to_multiset_ensures;

/// Hexadecimal digest that blake3 assigns to a byte sequence: 64 lowercase
/// hexadecimal characters.
pub uninterp spec fn blake3_hex_of(input: Seq<u8>) -> Seq<char>;

pub open spec fn is_lower_hex_char(c: char) -> bool {
    ('0' <= c && c <= '9') || ('a' <= c && c <= 'f')
}

/// Relies on `blake3::hash` and `blake3::Hash::to_hex`: the digest of the
/// input bytes depends on those bytes alone and is rendered as 64 lowercase
/// hexadecimal characters.
#[verifier::external_body]
fn blake3_hex(input: &Vec<u8>) -> (r: String)
    ensures
        r@ == blake3_hex_of(input@),
        r@.len() == 64,
        forall|i: int| 0 <= i < r@.len() ==> is_lower_hex_char(#[trigger] r@[i]),
{
    let hex = blake3::hash(input.as_slice()).to_hex();
    hex.as_str().to_string()
}

/// The bytes hashed to derive a cache key: the UTF-8 bytes of the video path
/// followed by the little-endian bytes of the timestamp in milliseconds.
pub open spec fn key_input(path_bytes: Seq<u8>, timestamp_ms: i64) -> Seq<u8> {
    path_bytes + spec_u64_to_le_bytes(timestamp_ms as u64)
}

/// The cache key of a `(video path, timestamp)` pair.
pub open spec fn cache_key_of(path: &str, timestamp_ms: i64) -> Seq<char> {
    blake3_hex_of(key_input(path.spec_bytes(), timestamp_ms))
}

/// The shard subdirectory of a key: its first two characters (fewer when the
/// key is shorter).
pub open spec fn shard_of(key: Seq<char>) -> Seq<char> {
    key.take(if key.len() < 2 {
        key.len() as int
    } else {
        2
    })
}

/// Where an entry lives: `dir/<shard>/<key>.<format>`.
pub open spec fn cache_path_of(dir: Seq<char>, key: Seq<char>, format: Seq<char>) -> Seq<char> {
    dir + "/"@ + shard_of(key) + "/"@ + key + "."@ + format
}

/// One file of the store, as the host's directory walk reports it: its path,
/// its size in bytes, and its last access time in milliseconds.
pub struct CacheFileMeta {
    pub path: String,
    pub size: u64,
    pub accessed: u64,
}

/// Total size of a directory listing.
pub open spec fn sum_sizes(s: Seq<CacheFileMeta>) -> int
    decreases s.len(),
{
    if s.len() == 0 {
        0
    } else {
        s[0].size + sum_sizes(s.skip(1))
    }
}

/// Ascending by access time: the least recently used entries first.
pub open spec fn sorted_by_accessed(s: Seq<CacheFileMeta>) -> bool {
    forall|i: int, j: int| 0 <= i < j < s.len() ==> s[i].accessed <= s[j].accessed
}

/// The level eviction drains down to: 80% of the configured maximum.
pub open spec fn watermark_spec(max: u64) -> int {
    (max as int) * 8 / 10
}

pub proof fn lemma_sum_sizes_nonneg(s: Seq<CacheFileMeta>)
    ensures
        sum_sizes(s) >= 0,
    decreases s.len(),
{
    if s.len() > 0 {
        lemma_sum_sizes_nonneg(s.skip(1));
    }
}

pub proof fn lemma_sum_sizes_skip_step(s: Seq<CacheFileMeta>, j: int)
    requires
        0 <= j < s.len(),
    ensures
        sum_sizes(s.skip(j)) == s[j].size + sum_sizes(s.skip(j + 1)),
{
    assert(s.skip(j).len() > 0);
    assert(s.skip(j)[0] == s[j]);
    assert(s.skip(j).skip(1) =~= s.skip(j + 1));
}

/// Thumbnail cache manager: the root directory of the store and its size
/// budget in bytes.
pub struct ThumbnailCache {
    cache_dir: String,
    max_cache_size: u64,
}

impl ThumbnailCache {
    /// The root directory of the store.
    pub closed spec fn dir(&self) -> Seq<char> {
        self.cache_dir@
    }

    /// The configured maximum total size, in bytes.
    pub closed spec fn max_size(&self) -> u64 {
        self.max_cache_size
    }

    /// Create a new thumbnail cache over the given root directory.
    pub fn new(cache_dir: String, max_cache_size: u64) -> (r: Self)
        ensures
            r.dir() == cache_dir@,
            r.max_size() == max_cache_size,
    {
        ThumbnailCache { cache_dir, max_cache_size }
    }

    /// Derive the cache key of a `(video path, timestamp)` pair: the blake3
    /// digest of the path bytes followed by the timestamp bytes, as 64
    /// lowercase hexadecimal characters.
    pub fn cache_key(video_path: &str, timestamp_ms: i64) -> (r: String)
        ensures
            r@ == cache_key_of(video_path, timestamp_ms),
            r@.len() == 64,
            forall|i: int| 0 <= i < r@.len() ==> is_lower_hex_char(#[trigger] r@[i]),
    {
        let mut input = video_path.as_bytes_vec();
        let mut ts = u64_to_le_bytes(timestamp_ms as u64);
        input.append(&mut ts);
        assert(input@ =~= key_input(video_path.spec_bytes(), timestamp_ms));
        blake3_hex(&input)
    }

    /// The on-disk path of an entry: a pure function of the key and format,
    /// with the first two key characters as a shard subdirectory.
    pub fn get_cache_path(&self, key: &str, format: &str) -> (r: String)
        ensures
            r@ == cache_path_of(self.dir(), key@, format@),
    {
        let klen = key.unicode_len();
        let cut: usize = if klen < 2 {
            klen
        } else {
            2
        };
        let sub = key.substring_char(0, cut);
        let mut p = self.cache_dir.clone();
        p.append("/");
        p.append(sub);
        p.append("/");
        p.append(key);
        p.append(".");
        p.append(format);
        assert(p@ =~= cache_path_of(self.dir(), key@, format@));
        p
    }

    /// The root directory of the cache.
    pub fn get_cache_dir(&self) -> (r: &String)
        ensures
            r@ == self.dir(),
    {
        &self.cache_dir
    }

    /// Whether a completed write must trigger an eviction sweep: only when
    /// the observed total exceeds the configured maximum.
    pub fn needs_eviction(&self, total: u64) -> (r: bool)
        ensures
            r == (total > self.max_size()),
    {
        total > self.max_cache_size
    }

    /// The eviction target: 80% of the configured maximum.
    pub fn watermark(&self) -> (r: u64)
        ensures
            r == watermark_spec(self.max_size()),
    {
        let w = (self.max_cache_size as u128) * 8 / 10;
        w as u64
    }

    /// Plan an LRU eviction sweep over a directory listing: the listing
    /// sorted by access time, oldest first, and the count of leading entries
    /// whose deletion first brings the total size down to the watermark.
    ///
    /// The count is minimal: no newer entry is deleted while dropping the
    /// older ones already suffices, and entries touched more recently survive
    /// entries of an older access time.
    pub fn eviction_plan(&self, files: &Vec<CacheFileMeta>) -> (r: (Vec<CacheFileMeta>, usize))
        requires
            sum_sizes(files@) <= u64::MAX,
        ensures
            r.0@.len() == files@.len(),
            r.0@.to_multiset() == files@.to_multiset(),
            sorted_by_accessed(r.0@),
            r.1 <= r.0@.len(),
            sum_sizes(r.0@.skip(r.1 as int)) <= watermark_spec(self.max_size()),
            forall|j: int|
                0 <= j < r.1 ==> sum_sizes(r.0@.skip(j)) > watermark_spec(self.max_size()),
    {
        let sorted = sort_by_accessed(files);
        proof {
            lemma_sum_sizes_permutation(sorted@, files@);
        }
        let target = self.watermark();
        let mut total = total_size(&sorted);
        let n = sorted.len();
        let mut k: usize = 0;
        proof {
            assert(sorted@.skip(0) =~= sorted@);
        }
        while total > target
            invariant
                k <= n,
                n == sorted@.len(),
                total == sum_sizes(sorted@.skip(k as int)),
                sum_sizes(sorted@) <= u64::MAX,
                target == watermark_spec(self.max_size()),
                forall|j: int| 0 <= j < k ==> sum_sizes(sorted@.skip(j)) > watermark_spec(
                    self.max_size(),
                ),
            decreases sorted@.len() - k,
        {
            proof {
                if k == sorted@.len() {
                    assert(sorted@.skip(k as int) =~= Seq::<CacheFileMeta>::empty());
                    assert(sum_sizes(sorted@.skip(k as int)) == 0);
                    assert(false);
                }
                assert(k < sorted@.len());
            }
            let size_k = sorted[k].size;
            proof {
                lemma_sum_sizes_skip_step(sorted@, k as int);
                lemma_sum_sizes_nonneg(sorted@.skip(k as int + 1));
            }
            total = total - size_k;
            k = k + 1;
        }
        (sorted, k)
    }
}

/// Sum the sizes of a directory listing.
pub fn total_size(files: &Vec<CacheFileMeta>) -> (r: u64)
    requires
        sum_sizes(files@) <= u64::MAX,
    ensures
        r == sum_sizes(files@),
{
    let n = files.len();
    let mut acc: u64 = 0;
    let mut i: usize = 0;
    proof {
        assert(files@.skip(0) =~= files@);
    }
    while i < n
        invariant
            i <= n,
            n == files@.len(),
            sum_sizes(files@) <= u64::MAX,
            acc + sum_sizes(files@.skip(i as int)) == sum_sizes(files@),
        decreases n - i,
    {
        proof {
            lemma_sum_sizes_skip_step(files@, i as int);
            lemma_sum_sizes_nonneg(files@.skip(i as int + 1));
        }
        acc = acc + files[i].size;
        i = i + 1;
    }
    proof {
        assert(files@.skip(n as int) =~= Seq::<CacheFileMeta>::empty());
    }
    acc
}

/// Count and total size of a directory listing, as the statistics surface
/// reports them.
pub fn stats_of(files: &Vec<CacheFileMeta>) -> (r: (i32, i64))
    requires
        files@.len() <= i32::MAX,
        sum_sizes(files@) <= i64::MAX,
    ensures
        r.0 == files@.len(),
        r.1 == sum_sizes(files@),
{
    let n = files.len();
    let mut acc: i64 = 0;
    let mut i: usize = 0;
    proof {
        assert(files@.skip(0) =~= files@);
    }
    while i < n
        invariant
            i <= n,
            n == files@.len(),
            sum_sizes(files@) <= i64::MAX,
            acc + sum_sizes(files@.skip(i as int)) == sum_sizes(files@),
            acc >= 0,
        decreases n - i,
    {
        proof {
            lemma_sum_sizes_skip_step(files@, i as int);
            lemma_sum_sizes_nonneg(files@.skip(i as int + 1));
            lemma_sum_sizes_nonneg(files@.skip(i as int));
        }
        acc = acc + (files[i].size as i64);
        i = i + 1;
    }
    proof {
        assert(files@.skip(n as int) =~= Seq::<CacheFileMeta>::empty());
    }
    (n as i32, acc)
}

/// Sort a directory listing ascending by access time, keeping exactly the
/// same entries.
pub fn sort_by_accessed(files: &Vec<CacheFileMeta>) -> (r: Vec<CacheFileMeta>)
    ensures
        r@.len() == files@.len(),
        r@.to_multiset() == files@.to_multiset(),
        sorted_by_accessed(r@),
{
    broadcast use vstd::seq_lib::group_to_multiset_ensures;

    let mut v: Vec<CacheFileMeta> = Vec::new();
    let n = files.len();
    let mut i: usize = 0;
    // insertion sort: grow a sorted copy one entry at a time
    while i < n
        invariant
            i <= n,
            n == files@.len(),
            v@.len() == i,
            v@.to_multiset() == files@.take(i as int).to_multiset(),
            sorted_by_accessed(v@),
        decreases n - i,
    {
        let x = CacheFileMeta {
            path: files[i].path.clone(),
            size: files[i].size,
            accessed: files[i].accessed,
        };
        assert(x == files@[i as int]);
        let mut p: usize = 0;
        while p < v.len() && v[p].accessed <= x.accessed
            invariant
                p <= v@.len(),
                forall|q: int| 0 <= q < p ==> v@[q].accessed <= x.accessed,
            decreases v@.len() - p,
        {
            p = p + 1;
        }
        let ghost old_v = v@;
        v.insert(p, x);
        proof {
            assert(v@ == old_v.insert(p as int, x));
            assert(old_v.insert(p as int, x).to_multiset() == old_v.to_multiset().insert(x));
            assert(files@.take(i as int + 1) =~= files@.take(i as int).push(files@[i as int]));
            assert(files@.take(i as int).push(x).to_multiset() == files@.take(
                i as int,
            ).to_multiset().insert(x));
            assert(files@.take(i as int + 1).to_multiset() == files@.take(
                i as int,
            ).to_multiset().insert(x));
            assert forall|a: int, b: int| 0 <= a < b < v@.len() implies v@[a].accessed
                <= v@[b].accessed by {
                if a < p && b == p {
                    assert(v@[a] == old_v[a]);
                } else if a == p {
                    assert(v@[b] == old_v[b - 1]);
                    assert(p < old_v.len());
                    assert(!(old_v[p as int].accessed <= x.accessed));
                    assert(old_v[p as int].accessed <= old_v[b - 1].accessed);
                } else if a < p && b > p {
                    assert(v@[a] == old_v[a]);
                    assert(v@[b] == old_v[b - 1]);
                } else if a > p {
                    assert(v@[a] == old_v[a - 1]);
                    assert(v@[b] == old_v[b - 1]);
                }
            }
        }
        i = i + 1;
    }
    proof {
        assert(files@.take(n as int) =~= files@);
    }
    v
}

/// Two listings with the same entries have the same total size.
pub proof fn lemma_sum_sizes_permutation(a: Seq<CacheFileMeta>, b: Seq<CacheFileMeta>)
    requires
        a.to_multiset() == b.to_multiset(),
    ensures
        sum_sizes(a) == sum_sizes(b),
    decreases a.len(),
{
    broadcast use vstd::seq_lib::group_to_multiset_ensures;

    if a.len() == 0 {
        assert(b.to_multiset().len() == 0);
        assert(b.len() == 0);
    } else {
        let x = a[0];
        assert(a.to_multiset().count(x) > 0);
        assert(b.to_multiset().count(x) > 0);
        assert(b.contains(x));
        let j = choose|j: int| 0 <= j < b.len() && b[j] == x;
        let a1 = a.skip(1);
        let b1 = b.remove(j);
        assert(a =~= a.remove(0).insert(0, x));
        assert(a.remove(0).to_multiset() == a.to_multiset().remove(x));
        assert(b1.to_multiset() == b.to_multiset().remove(x));
        assert(a1 =~= a.remove(0));
        lemma_sum_sizes_permutation(a1, b1);
        lemma_sum_sizes_remove(b, j);
        assert(sum_sizes(a) == x.size + sum_sizes(a1));
    }
}

proof fn lemma_sum_sizes_remove(s: Seq<CacheFileMeta>, j: int)
    requires
        0 <= j < s.len(),
    ensures
        sum_sizes(s) == s[j].size + sum_sizes(s.remove(j)),
    decreases j,
{
    if j == 0 {
        assert(s.remove(0) =~= s.skip(1));
    } else {
        assert(s.len() > 1);
        lemma_sum_sizes_remove(s.skip(1), j - 1);
        assert(s.remove(j).skip(1) =~= s.skip(1).remove(j - 1));
        assert(s.remove(j)[0] == s[0]);
        assert(s.remove(j).len() > 0);
        assert(s.skip(1)[j - 1] == s[j]);
    }
}

/// Contents of the store as a reader observes them: each entry path mapped to
/// its byte size. A `put` becomes visible in one step, at its final rename.
pub open spec fn dir_after_put(dir: Map<Seq<char>, u64>, path: Seq<char>, size: u64) -> Map<
    Seq<char>,
    u64,
> {
    dir.insert(path, size)
}

/// What a `get` of `path` returns: the entry only if it is present with
/// non-zero length; a zero-length file is treated as absent.
pub open spec fn dir_get(dir: Map<Seq<char>, u64>, path: Seq<char>) -> Option<u64> {
    if dir.contains_key(path) && dir[path] > 0 {
        Some(dir[path])
    } else {
        None
    }
}

/// After a completed `put`, a `get` of the same entry sees exactly the bytes
/// written: never a partial size.
pub proof fn lemma_put_then_get(dir: Map<Seq<char>, u64>, path: Seq<char>, size: u64)
    requires
        size > 0,
    ensures
        dir_get(dir_after_put(dir, path, size), path) == Some(size),
{
}

/// A `put` leaves every other entry exactly as it was.
pub proof fn lemma_put_preserves_others(
    dir: Map<Seq<char>, u64>,
    path: Seq<char>,
    size: u64,
    other: Seq<char>,
)
    requires
        other != path,
    ensures
        dir_get(dir_after_put(dir, path, size), other) == dir_get(dir, other),
{
}

/// Identical requests derive identical cache keys.
pub proof fn lemma_cache_key_deterministic(p1: &str, t1: i64, p2: &str, t2: i64)
    requires
        p1@ == p2@,
        t1 == t2,
    ensures
        cache_key_of(p1, t1) == cache_key_of(p2, t2),
{
    assert(p1.spec_bytes() == p2.spec_bytes());
}

/// Requests for the same path at different timestamps hash different inputs:
/// the key input is injective in the timestamp.
pub proof fn lemma_key_input_timestamp_injective(path_bytes: Seq<u8>, t1: i64, t2: i64)
    requires
        t1 != t2,
    ensures
        key_input(path_bytes, t1) != key_input(path_bytes, t2),
{
    lemma_auto_spec_u64_to_from_le_bytes();
    assert(t1 as u64 != t2 as u64) by (bit_vector)
        requires
            t1 != t2,
    ;
    if key_input(path_bytes, t1) == key_input(path_bytes, t2) {
        let n = path_bytes.len() as int;
        assert(key_input(path_bytes, t1).skip(n) =~= spec_u64_to_le_bytes(t1 as u64));
        assert(key_input(path_bytes, t2).skip(n) =~= spec_u64_to_le_bytes(t2 as u64));
        assert(spec_u64_from_le_bytes(spec_u64_to_le_bytes(t1 as u64)) == t1 as u64);
        assert(spec_u64_from_le_bytes(spec_u64_to_le_bytes(t2 as u64)) == t2 as u64);
    }
}

/// Name of the transient sibling a `put` writes before its atomic rename:
/// the final path with a `.tmp` suffix.
pub fn temp_path_of(path: &str) -> (r: String)
    ensures
        r@ == path@ + ".tmp"@,
{
    let mut p = String::from_str(path);
    p.append(".tmp");
    p
}

} // verus!
