//! Directory-scan logic: which file names count as videos, stable video
//! identifiers, folder extraction from relative paths, and the assembly of a
//! scan result from a directory listing. The walk itself is the host's; it
//! hands the entries here.

use vstd::prelude::*;
use crate::util::base36_str;
use crate::util::base36_encode;
use crate::util::dec_str;
use crate::util::dec_str_i64;
use crate::util::ends_with_spec;
use crate::util::i64_to_dec;
use crate::util::lemma_lex_le_total;
use crate::util::lemma_lex_le_trans;
use crate::util::lex_le;
use crate::util::lower_of;
use crate::util::starts_with_spec;
use crate::util::str_ends_with;
use crate::util::str_le;
use crate::util::str_starts_with;
use crate::util::to_lowercase;
use crate::util::u64_to_dec;
use crate::util::views_of;
use vstd::string::StrSliceExecFns;
use vstd::string::StringExecFns;

verus! {

broadcast use vstd::seq_lib::group_to_multiset_ensures;

/// Metadata of one discovered video file.
pub struct VideoMetadata {
    pub id: String,
    pub name: String,
    pub path: String,
    pub folder: String,
    pub size: u64,
    /// Modification time in milliseconds since the epoch.
    pub last_modified: i64,
    /// Creation time in milliseconds since the epoch.
    pub created: i64,
    pub added_at: String,
    pub updated_at: String,
    /// Duration in milliseconds, when known.
    pub duration_ms: Option<i64>,
}

/// Field-wise equality of two video records, over the views of their strings.
pub open spec fn same_video(a: VideoMetadata, b: VideoMetadata) -> bool {
    &&& a.id@ == b.id@
    &&& a.name@ == b.name@
    &&& a.path@ == b.path@
    &&& a.folder@ == b.folder@
    &&& a.size == b.size
    &&& a.last_modified == b.last_modified
    &&& a.created == b.created
    &&& a.added_at@ == b.added_at@
    &&& a.updated_at@ == b.updated_at@
    &&& a.duration_ms == b.duration_ms
}

impl Clone for VideoMetadata {
    fn clone(&self) -> (r: Self)
        ensures
            same_video(r, *self),
    {
        VideoMetadata {
            id: self.id.clone(),
            name: self.name.clone(),
            path: self.path.clone(),
            folder: self.folder.clone(),
            size: self.size,
            last_modified: self.last_modified,
            created: self.created,
            added_at: self.added_at.clone(),
            updated_at: self.updated_at.clone(),
            duration_ms: self.duration_ms,
        }
    }
}

/// Statistics about a scan operation.
pub struct ScanStats {
    pub total_files: u32,
    pub valid_videos: u32,
    pub duplicates: u32,
    pub errors: u32,
}

/// Progress information during scanning.
pub struct ScanProgress {
    pub is_scanning: bool,
    /// Percentage of entries processed.
    pub progress: u64,
    pub processed_files: u32,
    pub total_files: u32,
    pub total_videos: u32,
}

/// Result of scanning a directory for videos.
pub struct ScanResult {
    pub success: bool,
    pub videos: Vec<VideoMetadata>,
    pub folders: Vec<String>,
    pub error: Option<String>,
    pub stats: Option<ScanStats>,
}

/// One entry of the host's directory walk: its bare name, its full path, and
/// the filesystem facts the records carry.
pub struct ScanEntry {
    pub file_name: String,
    pub path: String,
    pub is_file: bool,
    pub size: u64,
    pub last_modified: i64,
    pub created: i64,
}

/// Whether a file name names a video: not a system file (no `._` prefix), and
/// its lowercase form carries one of the recognized extensions.
pub open spec fn valid_video_name(f: Seq<char>) -> bool {
    &&& !starts_with_spec(f, "._"@)
    &&& {
        ||| ends_with_spec(lower_of(f), ".mp4"@)
        ||| ends_with_spec(lower_of(f), ".webm"@)
        ||| ends_with_spec(lower_of(f), ".ogg"@)
        ||| ends_with_spec(lower_of(f), ".mov"@)
        ||| ends_with_spec(lower_of(f), ".avi"@)
        ||| ends_with_spec(lower_of(f), ".wmv"@)
        ||| ends_with_spec(lower_of(f), ".flv"@)
        ||| ends_with_spec(lower_of(f), ".mkv"@)
        ||| ends_with_spec(lower_of(f), ".m4v"@)
    }
}

/// Check if a filename represents a valid video file.
pub fn is_valid_video_file(filename: &str) -> (r: bool)
    ensures
        r == valid_video_name(filename@),
{
    if str_starts_with(filename, "._") {
        return false;
    }
    let lowered = to_lowercase(filename);
    str_ends_with(lowered.as_str(), ".mp4") || str_ends_with(lowered.as_str(), ".webm")
        || str_ends_with(lowered.as_str(), ".ogg") || str_ends_with(lowered.as_str(), ".mov")
        || str_ends_with(lowered.as_str(), ".avi") || str_ends_with(lowered.as_str(), ".wmv")
        || str_ends_with(lowered.as_str(), ".flv") || str_ends_with(lowered.as_str(), ".mkv")
        || str_ends_with(lowered.as_str(), ".m4v")
}

/// The supported video extensions, lowercase, dot included.
pub fn get_supported_extensions() -> (r: Vec<String>)
    ensures
        r@.len() == 9,
        r@[0]@ == ".mp4"@,
        r@[1]@ == ".webm"@,
        r@[2]@ == ".ogg"@,
        r@[3]@ == ".mov"@,
        r@[4]@ == ".avi"@,
        r@[5]@ == ".wmv"@,
        r@[6]@ == ".flv"@,
        r@[7]@ == ".mkv"@,
        r@[8]@ == ".m4v"@,
{
    let mut v: Vec<String> = Vec::new();
    v.push(String::from_str(".mp4"));
    v.push(String::from_str(".webm"));
    v.push(String::from_str(".ogg"));
    v.push(String::from_str(".mov"));
    v.push(String::from_str(".avi"));
    v.push(String::from_str(".wmv"));
    v.push(String::from_str(".flv"));
    v.push(String::from_str(".mkv"));
    v.push(String::from_str(".m4v"));
    v
}

/// One step of the rolling hash: the previous value times 31 plus the
/// character's code, modulo 2^32 (the two's-complement arithmetic of
/// `(hash << 5) - hash + code` on 32-bit words).
pub open spec fn hash_step(h: u32, c: char) -> u32 {
    ((31 * (h as int) + (c as int)) % 0x1_0000_0000) as u32
}

/// The rolling hash of the first `n` characters.
pub open spec fn hash_acc(s: Seq<char>, n: int) -> u32
    decreases n,
{
    if n <= 0 {
        0
    } else {
        hash_step(hash_acc(s, n - 1), s[n - 1])
    }
}

/// The hash of a string: the rolling hash of all its characters, with the
/// final word read as a signed 32-bit value and its magnitude taken.
pub open spec fn simple_hash_spec(s: Seq<char>) -> u32 {
    let h = hash_acc(s, s.len() as int);
    if h < 0x8000_0000 {
        h
    } else {
        (0x1_0000_0000 - h as int) as u32
    }
}

/// Hash a string with the rolling 31-multiplier hash used by the scripting
/// host's identifiers.
pub fn simple_hash(s: &str) -> (r: u32)
    ensures
        r == simple_hash_spec(s@),
{
    let n = s.unicode_len();
    let mut h: u32 = 0;
    let mut i: usize = 0;
    while i < n
        invariant
            i <= n,
            n == s@.len(),
            h == hash_acc(s@, i as int),
        decreases n - i,
    {
        let c = s.get_char(i);
        let wide = (h as u64) * 31 + (c as u64);
        h = (wide % 0x1_0000_0000) as u32;
        i = i + 1;
    }
    if h >= 0x8000_0000 {
        (0x1_0000_0000u64 - h as u64) as u32
    } else {
        h
    }
}

/// The string hashed to derive a video identifier: name, size and
/// modification time joined by underscores, with three trailing spaces of
/// padding (kept so identifiers match the host's existing databases).
pub open spec fn id_input(name: Seq<char>, size: u64, last_modified: i64) -> Seq<char> {
    name + "_"@ + dec_str(size as nat) + "_"@ + dec_str_i64(last_modified) + "   "@
}

/// The identifier of a video: the base-36 rendering of the hash of its name,
/// size and modification time.
pub open spec fn video_id_str(name: Seq<char>, size: u64, last_modified: i64) -> Seq<char> {
    base36_str(simple_hash_spec(id_input(name, size, last_modified)) as nat)
}

/// Generate the stable identifier of a video from its name, size in bytes,
/// and modification time in milliseconds.
pub fn generate_video_id(filename: &str, size: u64, last_modified: i64) -> (r: String)
    ensures
        r@ == video_id_str(filename@, size, last_modified),
{
    let mut input = String::from_str(filename);
    input.append("_");
    let size_dec = u64_to_dec(size);
    input.append(size_dec.as_str());
    input.append("_");
    let lm_dec = i64_to_dec(last_modified);
    input.append(lm_dec.as_str());
    input.append("   ");
    assert(input@ =~= id_input(filename@, size, last_modified));
    let hash = simple_hash(input.as_str());
    base36_encode(hash)
}

/// Whether a walk entry is processed at all: hidden names (leading dot) are
/// skipped, and so are the excluded directories.
pub open spec fn should_process_spec(name: Seq<char>, is_dir: bool) -> bool {
    &&& !(name.len() >= 1 && name[0] == '.')
    &&& !(is_dir && (name == "node_modules"@ || name == "."@))
}

/// Decide whether a directory entry takes part in the scan.
pub fn should_process_entry(file_name: &str, is_dir: bool) -> (r: bool)
    ensures
        r == should_process_spec(file_name@, is_dir),
{
    proof {
        reveal_strlit(".");
        if file_name@.len() >= 1 && file_name@[0] == '.' {
            assert(file_name@.subrange(0, 1) =~= "."@);
        }
        if starts_with_spec(file_name@, "."@) {
            assert(file_name@[0] == file_name@.subrange(0, 1)[0]);
        }
    }
    if str_starts_with(file_name, ".") {
        return false;
    }
    if is_dir {
        let owned = file_name.to_owned();
        let excluded = owned == String::from_str("node_modules") || owned == String::from_str(
            ".",
        );
        if excluded {
            return false;
        }
    }
    true
}

/// `s` with its leading separators removed.
pub open spec fn drop_leading_slashes(s: Seq<char>) -> Seq<char>
    decreases s.len(),
{
    if s.len() > 0 && s[0] == '/' {
        drop_leading_slashes(s.skip(1))
    } else {
        s
    }
}

/// Split on separators, accumulating the current segment and the segments
/// already cut.
pub open spec fn split_slash_rec(s: Seq<char>, cur: Seq<char>, acc: Seq<Seq<char>>) -> Seq<
    Seq<char>,
>
    decreases s.len(),
{
    if s.len() == 0 {
        acc.push(cur)
    } else if s[0] == '/' {
        split_slash_rec(s.skip(1), Seq::empty(), acc.push(cur))
    } else {
        split_slash_rec(s.skip(1), cur.push(s[0]), acc)
    }
}

/// The segments of `s` between separators.
pub open spec fn split_slashes(s: Seq<char>) -> Seq<Seq<char>> {
    split_slash_rec(s, Seq::empty(), Seq::empty())
}

/// Segments that count as path parts: non-empty, not the current-directory
/// dot, and not system-file names.
pub open spec fn keep_part(p: Seq<char>) -> bool {
    p.len() > 0 && p != "."@ && !starts_with_spec(p, "._"@)
}

/// The parts of a split path, in order, with the ignored segments removed.
pub open spec fn kept_parts(parts: Seq<Seq<char>>) -> Seq<Seq<char>>
    decreases parts.len(),
{
    if parts.len() == 0 {
        Seq::empty()
    } else {
        let rest = kept_parts(parts.drop_last());
        if keep_part(parts.last()) {
            rest.push(parts.last())
        } else {
            rest
        }
    }
}

pub open spec fn contains_slash(s: Seq<char>) -> bool {
    exists|i: int| 0 <= i < s.len() && s[i] == '/'
}

/// The folder a video is filed under: the last directory name on its path
/// relative to the scanned root, or empty for a file at the root (or a path
/// outside the root).
pub open spec fn extract_folder_spec(path: Seq<char>, base: Seq<char>) -> Seq<char> {
    if !starts_with_spec(path, base) {
        Seq::empty()
    } else {
        let rel = drop_leading_slashes(path.skip(base.len() as int));
        if !contains_slash(rel) {
            Seq::empty()
        } else {
            let parts = kept_parts(split_slashes(rel));
            if parts.len() <= 1 {
                Seq::empty()
            } else {
                parts[parts.len() - 2]
            }
        }
    }
}

/// Extract the folder name of `path` relative to `base_path`: the last
/// directory before the file name, after dropping empty, dot and system
/// segments.
pub fn extract_folder(path: &str, base_path: &str) -> (r: String)
    ensures
        r@ == extract_folder_spec(path@, base_path@),
{
    if !str_starts_with(path, base_path) {
        return String::new();
    }
    let plen = path.unicode_len();
    let blen = base_path.unicode_len();
    // drop leading separators after the base prefix
    let mut start: usize = blen;
    while start < plen && path.get_char(start) == '/'
        invariant
            blen <= start <= plen,
            plen == path@.len(),
            drop_leading_slashes(path@.skip(blen as int)) == drop_leading_slashes(
                path@.skip(start as int),
            ),
        decreases plen - start,
    {
        proof {
            assert(path@.skip(start as int)[0] == path@[start as int]);
            assert(path@.skip(start as int).skip(1) =~= path@.skip(start as int + 1));
        }
        start = start + 1;
    }
    let ghost rel = drop_leading_slashes(path@.skip(blen as int));
    proof {
        if start < plen {
            assert(path@.skip(start as int)[0] == path@[start as int]);
        }
        assert(rel == path@.skip(start as int));
    }
    // is there a separator at all in the relative path?
    let mut has_slash = false;
    let mut j: usize = start;
    while j < plen
        invariant
            start <= j <= plen,
            plen == path@.len(),
            has_slash == exists|k: int| start <= k < j && path@[k] == '/',
        decreases plen - j,
    {
        if path.get_char(j) == '/' {
            has_slash = true;
        }
        j = j + 1;
    }
    proof {
        assert forall|k: int| 0 <= k < rel.len() implies rel[k] == path@[start + k] by {}
        if has_slash {
            let k = choose|k: int| start <= k < plen && path@[k] == '/';
            assert(rel[k - start] == '/');
            assert(contains_slash(rel));
        } else {
            if contains_slash(rel) {
                let k = choose|k: int| 0 <= k < rel.len() && rel[k] == '/';
                assert(path@[start + k] == '/');
            }
        }
    }
    if !has_slash {
        return String::new();
    }
    // split the relative path into segments
    let mut segments: Vec<String> = Vec::new();
    let mut seg_start: usize = start;
    let mut i: usize = start;
    proof {
        assert(path@.subrange(start as int, start as int) =~= Seq::<char>::empty());
        assert(rel.skip(0) =~= rel);
        assert(views_of(segments@) =~= Seq::<Seq<char>>::empty());
    }
    while i < plen
        invariant
            start <= seg_start <= i <= plen,
            plen == path@.len(),
            rel == path@.skip(start as int),
            split_slashes(rel) == split_slash_rec(
                rel.skip(i - start as int),
                path@.subrange(seg_start as int, i as int),
                views_of(segments@),
            ),
        decreases plen - i,
    {
        proof {
            assert(rel.skip(i - start as int)[0] == path@[i as int]);
            assert(rel.skip(i - start as int).skip(1) =~= rel.skip(i + 1 - start as int));
        }
        let c = path.get_char(i);
        if c == '/' {
            let seg = path.substring_char(seg_start, i).to_owned();
            let ghost old_views = views_of(segments@);
            segments.push(seg);
            proof {
                assert(views_of(segments@) =~= old_views.push(seg@));
            }
            seg_start = i + 1;
            proof {
                assert(path@.subrange(seg_start as int, seg_start as int) =~= Seq::<
                    char,
                >::empty());
            }
        } else {
            proof {
                assert(path@.subrange(seg_start as int, i as int + 1) =~= path@.subrange(
                    seg_start as int,
                    i as int,
                ).push(path@[i as int]));
            }
        }
        i = i + 1;
    }
    let seg = path.substring_char(seg_start, plen).to_owned();
    let ghost old_views = views_of(segments@);
    segments.push(seg);
    proof {
        assert(rel.skip(plen - start as int) =~= Seq::<char>::empty());
        assert(views_of(segments@) =~= old_views.push(seg@));
        assert(split_slashes(rel) == views_of(segments@));
    }
    // keep only the segments that count
    let mut parts: Vec<String> = Vec::new();
    let mut k: usize = 0;
    let nsegs = segments.len();
    proof {
        assert(views_of(segments@).take(0) =~= Seq::<Seq<char>>::empty());
    }
    while k < nsegs
        invariant
            k <= nsegs,
            nsegs == segments@.len(),
            views_of(parts@) == kept_parts(views_of(segments@).take(k as int)),
        decreases nsegs - k,
    {
        let p = &segments[k];
        let keep = p.unicode_len() > 0 && !(*p == String::from_str(".")) && !str_starts_with(
            p.as_str(),
            "._",
        );
        proof {
            assert(views_of(segments@).take(k as int + 1).drop_last() =~= views_of(
                segments@,
            ).take(k as int));
            assert(views_of(segments@).take(k as int + 1).last() == segments@[k as int]@);
        }
        if keep {
            let ghost old_views = views_of(parts@);
            let copy = p.clone();
            parts.push(copy);
            proof {
                assert(views_of(parts@) =~= old_views.push(segments@[k as int]@));
            }
        }
        k = k + 1;
    }
    proof {
        assert(views_of(segments@).take(nsegs as int) =~= views_of(segments@));
    }
    if parts.len() <= 1 {
        String::new()
    } else {
        let idx = parts.len() - 2;
        let r = parts[idx].clone();
        r
    }
}

/// Whether an entry of the walk yields a video record: it is a file whose
/// name is a valid video name.
pub open spec fn is_video_entry(e: ScanEntry) -> bool {
    e.is_file && valid_video_name(e.file_name@)
}

/// The entries of a listing that yield video records, in order.
pub open spec fn video_entries(entries: Seq<ScanEntry>) -> Seq<ScanEntry>
    decreases entries.len(),
{
    if entries.len() == 0 {
        Seq::empty()
    } else {
        let rest = video_entries(entries.drop_last());
        if is_video_entry(entries.last()) {
            rest.push(entries.last())
        } else {
            rest
        }
    }
}

/// The record built for one video entry: its identifier, names, folder,
/// filesystem facts, and the scan's wall-clock stamp.
pub open spec fn is_record_for(
    v: VideoMetadata,
    e: ScanEntry,
    base: Seq<char>,
    now: Seq<char>,
) -> bool {
    &&& v.id@ == video_id_str(e.file_name@, e.size, e.last_modified)
    &&& v.name@ == e.file_name@
    &&& v.path@ == e.path@
    &&& v.folder@ == extract_folder_spec(e.path@, base)
    &&& v.size == e.size
    &&& v.last_modified == e.last_modified
    &&& v.created == e.created
    &&& v.added_at@ == now
    &&& v.updated_at@ == now
    &&& v.duration_ms is None
}

/// Build the record of one video file.
pub fn build_video_record(
    file_name: &str,
    path: &str,
    base_path: &str,
    size: u64,
    last_modified: i64,
    created: i64,
    now: &String,
) -> (r: Option<VideoMetadata>)
    ensures
        r is Some <==> valid_video_name(file_name@),
        r matches Some(v) ==> v.id@ == video_id_str(file_name@, size, last_modified) && v.name@
            == file_name@ && v.path@ == path@ && v.folder@ == extract_folder_spec(
            path@,
            base_path@,
        ) && v.size == size && v.last_modified == last_modified && v.created == created
            && v.added_at@ == now@ && v.updated_at@ == now@ && v.duration_ms is None,
{
    if !is_valid_video_file(file_name) {
        return None;
    }
    let id = generate_video_id(file_name, size, last_modified);
    let folder = extract_folder(path, base_path);
    Some(
        VideoMetadata {
            id,
            name: file_name.to_owned(),
            path: path.to_owned(),
            folder,
            size,
            last_modified,
            created,
            added_at: now.clone(),
            updated_at: now.clone(),
            duration_ms: None,
        },
    )
}

/// Sort folder names lexicographically, keeping exactly the same names.
pub fn sort_folder_names(folders: Vec<String>) -> (r: Vec<String>)
    ensures
        r@.len() == folders@.len(),
        views_of(r@).to_multiset() == views_of(folders@).to_multiset(),
        forall|i: int, j: int| 0 <= i < j < r@.len() ==> lex_le(r@[i]@, r@[j]@),
{
    let mut v: Vec<String> = Vec::new();
    let n = folders.len();
    let mut i: usize = 0;
    proof {
        assert(views_of(v@) =~= Seq::<Seq<char>>::empty());
        assert(views_of(folders@.take(0)) =~= Seq::<Seq<char>>::empty());
    }
    while i < n
        invariant
            i <= n,
            n == folders@.len(),
            v@.len() == i,
            views_of(v@).to_multiset() == views_of(folders@.take(i as int)).to_multiset(),
            forall|a: int, b: int| 0 <= a < b < v@.len() ==> lex_le(v@[a]@, v@[b]@),
        decreases n - i,
    {
        let x = folders[i].clone();
        let mut p: usize = 0;
        while p < v.len() && str_le(v[p].as_str(), x.as_str())
            invariant
                p <= v@.len(),
                forall|q: int| 0 <= q < p ==> lex_le(v@[q]@, x@),
            decreases v@.len() - p,
        {
            p = p + 1;
        }
        let ghost old_v = v@;
        v.insert(p, x);
        proof {
            assert(v@ == old_v.insert(p as int, x));
            assert(views_of(v@) =~= views_of(old_v).insert(p as int, x@));
            assert(views_of(old_v).insert(p as int, x@).to_multiset() == views_of(
                old_v,
            ).to_multiset().insert(x@));
            assert(folders@.take(i as int + 1) =~= folders@.take(i as int).push(
                folders@[i as int],
            ));
            assert(views_of(folders@.take(i as int + 1)) =~= views_of(
                folders@.take(i as int),
            ).push(folders@[i as int]@));
            assert(views_of(folders@.take(i as int)).push(x@).to_multiset() == views_of(
                folders@.take(i as int),
            ).to_multiset().insert(x@));
            assert forall|a: int, b: int| 0 <= a < b < v@.len() implies lex_le(v@[a]@, v@[b]@) by {
                if p < old_v.len() {
                    lemma_lex_le_total(old_v[p as int]@, x@);
                }
                if a < p && b == p {
                    assert(v@[a] == old_v[a]);
                } else if a == p && b > p {
                    assert(v@[b] == old_v[b - 1]);
                    if b - 1 > p {
                        lemma_lex_le_trans(x@, old_v[p as int]@, old_v[b - 1]@);
                    }
                } else if a < p && b > p {
                    assert(v@[a] == old_v[a]);
                    assert(v@[b] == old_v[b - 1]);
                } else if a > p {
                    assert(v@[a] == old_v[a - 1]);
                    assert(v@[b] == old_v[b - 1]);
                }
            }
        }
        i = i + 1;
    }
    proof {
        assert(folders@.take(n as int) =~= folders@);
    }
    v
}

/// Whether some name of the list reads `f`.
pub open spec fn folder_in(folders: Seq<String>, f: Seq<char>) -> bool {
    exists|i: int| 0 <= i < folders.len() && folders[i]@ == f
}

/// Count of file entries in a listing.
pub open spec fn file_count(entries: Seq<ScanEntry>) -> int
    decreases entries.len(),
{
    if entries.len() == 0 {
        0
    } else {
        file_count(entries.drop_last()) + if entries.last().is_file {
            1int
        } else {
            0int
        }
    }
}

/// Scan progress as a percentage of processed entries (zero while nothing is
/// known to process).
pub fn progress_percent(processed: u32, total: u32) -> (r: u64)
    ensures
        total > 0 ==> r == processed as int * 100 / total as int,
        total == 0 ==> r == 0,
{
    if total > 0 {
        (processed as u64) * 100 / (total as u64)
    } else {
        0
    }
}

/// Video scanner: progress bookkeeping and the videos of the last scan.
pub struct VideoScanner {
    is_scanning: bool,
    scan_progress: u64,
    total_files: u32,
    processed_files: u32,
    videos: Vec<VideoMetadata>,
}

impl VideoScanner {
    pub closed spec fn scanning(&self) -> bool {
        self.is_scanning
    }

    pub closed spec fn progress(&self) -> u64 {
        self.scan_progress
    }

    pub closed spec fn total(&self) -> u32 {
        self.total_files
    }

    pub closed spec fn processed(&self) -> u32 {
        self.processed_files
    }

    pub closed spec fn videos_view(&self) -> Seq<VideoMetadata> {
        self.videos@
    }

    /// Create a new video scanner instance.
    pub fn new() -> (r: Self)
        ensures
            !r.scanning(),
            r.progress() == 0,
            r.total() == 0,
            r.processed() == 0,
            r.videos_view().len() == 0,
    {
        VideoScanner {
            is_scanning: false,
            scan_progress: 0,
            total_files: 0,
            processed_files: 0,
            videos: Vec::new(),
        }
    }

    /// Reset scanner state.
    pub fn reset(&mut self)
        ensures
            !final(self).scanning(),
            final(self).progress() == 0,
            final(self).total() == 0,
            final(self).processed() == 0,
            final(self).videos_view().len() == 0,
    {
        self.is_scanning = false;
        self.scan_progress = 0;
        self.processed_files = 0;
        self.total_files = 0;
        self.videos.clear();
    }

    /// Get current scan progress.
    pub fn get_progress(&self) -> (r: ScanProgress)
        requires
            self.videos_view().len() <= u32::MAX,
        ensures
            r.is_scanning == self.scanning(),
            r.progress == self.progress(),
            r.processed_files == self.processed(),
            r.total_files == self.total(),
            r.total_videos == self.videos_view().len(),
    {
        ScanProgress {
            is_scanning: self.is_scanning,
            progress: self.scan_progress,
            processed_files: self.processed_files,
            total_files: self.total_files,
            total_videos: self.videos.len() as u32,
        }
    }

    /// Get the videos of the last scan.
    pub fn get_videos(&self) -> (r: Vec<VideoMetadata>)
        ensures
            r@.len() == self.videos_view().len(),
            forall|i: int| 0 <= i < r@.len() ==> same_video(r@[i], self.videos_view()[i]),
    {
        clone_videos(&self.videos)
    }

    /// Assemble the result of scanning a directory, from the host's walk of
    /// it: the records of its valid video files, in walk order, and the
    /// sorted distinct non-empty folder names among them.
    ///
    /// `dir_ok` reports whether the path exists and is a directory; a scan
    /// already in progress is refused.
    pub fn scan_directory(
        &mut self,
        folder_path: &str,
        dir_ok: bool,
        entries: &Vec<ScanEntry>,
        now: &String,
    ) -> (r: ScanResult)
        requires
            entries@.len() <= u32::MAX,
        ensures
            old(self).scanning() ==> (r.success == false && (r.error matches Some(m) && m@
                == "Scan already in progress"@) && r.videos@.len() == 0 && r.folders@.len() == 0
                && r.stats is None && *final(self) == *old(self)),
            !old(self).scanning() && !dir_ok ==> (r.success == false && (r.error matches Some(m)
                && m@ == "Invalid directory: "@ + folder_path@) && r.videos@.len() == 0
                && r.folders@.len() == 0 && r.stats is None && !final(self).scanning()
                && final(self).progress() == 100),
            !old(self).scanning() && dir_ok ==> ({
                let vids = video_entries(entries@);
                &&& r.success == true
                &&& r.error is None
                &&& r.videos@.len() == vids.len()
                &&& forall|i: int|
                    0 <= i < r.videos@.len() ==> is_record_for(
                        #[trigger] r.videos@[i],
                        vids[i],
                        folder_path@,
                        now@,
                    )
                &&& forall|i: int, j: int|
                    0 <= i < j < r.folders@.len() ==> lex_le(r.folders@[i]@, r.folders@[j]@)
                &&& forall|i: int, j: int|
                    0 <= i < j < r.folders@.len() ==> r.folders@[i]@ != r.folders@[j]@
                &&& forall|f: Seq<char>|
                    #[trigger] folder_in(r.folders@, f) <==> (f.len() > 0 && exists|i: int|
                        0 <= i < r.videos@.len() && r.videos@[i].folder@ == f)
                &&& (r.stats matches Some(st) && st.total_files == file_count(entries@)
                    && st.valid_videos == vids.len() && st.duplicates == 0 && st.errors == 0)
                &&& !final(self).scanning()
                &&& final(self).progress() == 100
                &&& final(self).total() == file_count(entries@)
                &&& final(self).processed() == entries@.len()
                &&& final(self).videos_view().len() == vids.len()
                &&& forall|i: int|
                    0 <= i < final(self).videos_view().len() ==> is_record_for(
                        #[trigger] final(self).videos_view()[i],
                        vids[i],
                        folder_path@,
                        now@,
                    )
            }),
    {
        if self.is_scanning {
            return ScanResult {
                success: false,
                videos: Vec::new(),
                folders: Vec::new(),
                error: Some(String::from_str("Scan already in progress")),
                stats: None,
            };
        }
        self.reset();
        self.is_scanning = true;
        if !dir_ok {
            self.is_scanning = false;
            self.scan_progress = 100;
            let mut msg = String::from_str("Invalid directory: ");
            msg.append(folder_path);
            return ScanResult {
                success: false,
                videos: Vec::new(),
                folders: Vec::new(),
                error: Some(msg),
                stats: None,
            };
        }
        let n = entries.len();
        // count the files first, for progress tracking
        let mut total: u32 = 0;
        let mut i: usize = 0;
        proof {
            assert(entries@.take(0) =~= Seq::<ScanEntry>::empty());
        }
        while i < n
            invariant
                i <= n,
                n == entries@.len(),
                n <= u32::MAX,
                total == file_count(entries@.take(i as int)),
                total <= i,
            decreases n - i,
        {
            proof {
                assert(entries@.take(i as int + 1).drop_last() =~= entries@.take(i as int));
                assert(entries@.take(i as int + 1).last() == entries@[i as int]);
            }
            if entries[i].is_file {
                total = total + 1;
            }
            i = i + 1;
        }
        proof {
            assert(entries@.take(n as int) =~= entries@);
        }
        self.total_files = total;
        // walk the entries, building records and collecting folder names
        let mut videos: Vec<VideoMetadata> = Vec::new();
        let mut folder_names: Vec<String> = Vec::new();
        let mut i: usize = 0;
        proof {
            assert(entries@.take(0) =~= Seq::<ScanEntry>::empty());
        }
        while i < n
            invariant
                i <= n,
                n == entries@.len(),
                n <= u32::MAX,
                self.total_files == total,
                total == file_count(entries@),
                self.is_scanning,
                self.processed_files == i,
                videos@.len() == video_entries(entries@.take(i as int)).len(),
                videos@.len() <= i,
                forall|j: int|
                    0 <= j < videos@.len() ==> is_record_for(
                        #[trigger] videos@[j],
                        video_entries(entries@.take(i as int))[j],
                        folder_path@,
                        now@,
                    ),
                forall|a: int, b: int|
                    0 <= a < b < folder_names@.len() ==> folder_names@[a]@ != folder_names@[b]@,
                forall|f: Seq<char>|
                    #[trigger] folder_in(folder_names@, f) <==> (f.len() > 0 && exists|j: int|
                        0 <= j < videos@.len() && videos@[j].folder@ == f),
            decreases n - i,
        {
            proof {
                assert(entries@.take(i as int + 1).drop_last() =~= entries@.take(i as int));
                assert(entries@.take(i as int + 1).last() == entries@[i as int]);
            }
            self.processed_files = self.processed_files + 1;
            self.scan_progress = progress_percent(self.processed_files, self.total_files);
            let ghost pre_videos = videos@;
            let ghost pre_names = folder_names@;
            let e = &entries[i];
            if e.is_file {
                let record = build_video_record(
                    e.file_name.as_str(),
                    e.path.as_str(),
                    folder_path,
                    e.size,
                    e.last_modified,
                    e.created,
                    now,
                );
                match record {
                    Some(v) => {
                        if v.folder.unicode_len() > 0 && !folder_name_present(
                            &folder_names,
                            &v.folder,
                        ) {
                            folder_names.push(v.folder.clone());
                        }
                        let ghost fv = v.folder@;
                        videos.push(v);
                        proof {
                            assert(videos@ == pre_videos.push(videos@.last()));
                            assert(videos@.last().folder@ == fv);
                            assert forall|f: Seq<char>| #[trigger] folder_in(folder_names@, f)
                                implies (f.len() > 0 && exists|j: int|
                                0 <= j < videos@.len() && videos@[j].folder@ == f) by {
                                let k = choose|k: int|
                                    0 <= k < folder_names@.len() && folder_names@[k]@ == f;
                                if k < pre_names.len() {
                                    assert(folder_in(pre_names, f));
                                    let j = choose|j: int|
                                        0 <= j < pre_videos.len() && pre_videos[j].folder@ == f;
                                    assert(videos@[j].folder@ == f);
                                } else {
                                    assert(f == fv);
                                    assert(videos@[videos@.len() - 1].folder@ == f);
                                }
                            }
                            assert forall|f: Seq<char>|
                                (f.len() > 0 && exists|j: int|
                                    0 <= j < videos@.len() && videos@[j].folder@ == f) implies #[trigger] folder_in(
                                folder_names@,
                                f,
                            ) by {
                                let j = choose|j: int|
                                    0 <= j < videos@.len() && videos@[j].folder@ == f;
                                if j < pre_videos.len() {
                                    assert(pre_videos[j].folder@ == f);
                                    assert(folder_in(pre_names, f));
                                    let k = choose|k: int|
                                        0 <= k < pre_names.len() && pre_names[k]@ == f;
                                    assert(folder_names@[k]@ == f);
                                } else {
                                    assert(f == fv);
                                    if folder_in(pre_names, f) {
                                        let k = choose|k: int|
                                            0 <= k < pre_names.len() && pre_names[k]@ == f;
                                        assert(folder_names@[k]@ == f);
                                    } else {
                                        assert(folder_names@[folder_names@.len() - 1]@ == f);
                                    }
                                }
                            }
                        }
                    },
                    None => {},
                }
            }
            i = i + 1;
        }
        proof {
            assert(entries@.take(n as int) =~= entries@);
        }
        let folders = sort_folder_names(folder_names);
        let stored = clone_videos(&videos);
        let video_count = videos.len() as u32;
        self.videos = stored;
        self.is_scanning = false;
        self.scan_progress = 100;
        proof {
            lemma_sorted_views_membership(folders@, folder_names@);
        }
        ScanResult {
            success: true,
            videos,
            folders,
            error: None,
            stats: Some(
                ScanStats { total_files: total, valid_videos: video_count, duplicates: 0, errors: 0 },
            ),
        }
    }
}

impl Default for VideoScanner {
    fn default() -> (r: Self)
        ensures
            !r.scanning(),
            r.progress() == 0,
            r.total() == 0,
            r.processed() == 0,
            r.videos_view().len() == 0,
    {
        VideoScanner::new()
    }
}

/// Copy a list of video records.
pub fn clone_videos(videos: &Vec<VideoMetadata>) -> (r: Vec<VideoMetadata>)
    ensures
        r@.len() == videos@.len(),
        forall|i: int| 0 <= i < r@.len() ==> same_video(r@[i], videos@[i]),
{
    let mut out: Vec<VideoMetadata> = Vec::new();
    let n = videos.len();
    let mut i: usize = 0;
    while i < n
        invariant
            i <= n,
            n == videos@.len(),
            out@.len() == i,
            forall|j: int| 0 <= j < i ==> same_video(out@[j], videos@[j]),
        decreases n - i,
    {
        let c = videos[i].clone();
        out.push(c);
        i = i + 1;
    }
    out
}

/// Whether a name with the same characters is already collected.
fn folder_name_present(folders: &Vec<String>, name: &String) -> (r: bool)
    ensures
        r == folder_in(folders@, name@),
{
    let n = folders.len();
    let mut i: usize = 0;
    while i < n
        invariant
            i <= n,
            n == folders@.len(),
            forall|j: int| 0 <= j < i ==> folders@[j]@ != name@,
        decreases n - i,
    {
        if folders[i] == *name {
            return true;
        }
        i = i + 1;
    }
    false
}

/// A permutation of the name views keeps membership, and keeps distinct views
/// distinct.
proof fn lemma_sorted_views_membership(sorted: Seq<String>, orig: Seq<String>)
    requires
        views_of(sorted).to_multiset() == views_of(orig).to_multiset(),
        forall|a: int, b: int| 0 <= a < b < orig.len() ==> orig[a]@ != orig[b]@,
    ensures
        forall|f: Seq<char>| #[trigger] folder_in(sorted, f) <==> folder_in(orig, f),
        forall|a: int, b: int| 0 <= a < b < sorted.len() ==> sorted[a]@ != sorted[b]@,
{
    let sv = views_of(sorted);
    let ov = views_of(orig);
    assert(sv.len() == sorted.len());
    assert(ov.len() == orig.len());
    assert forall|f: Seq<char>| #[trigger] folder_in(sorted, f) <==> folder_in(orig, f) by {
        if folder_in(sorted, f) {
            let i = choose|i: int| 0 <= i < sorted.len() && sorted[i]@ == f;
            assert(sv[i] == f);
            assert(sv.contains(f));
            assert(sv.to_multiset().count(f) > 0);
            assert(ov.to_multiset().count(f) > 0);
            assert(ov.contains(f));
            let j = choose|j: int| 0 <= j < ov.len() && ov[j] == f;
            assert(orig[j]@ == f);
        }
        if folder_in(orig, f) {
            let i = choose|i: int| 0 <= i < orig.len() && orig[i]@ == f;
            assert(ov[i] == f);
            assert(ov.contains(f));
            assert(ov.to_multiset().count(f) > 0);
            assert(sv.to_multiset().count(f) > 0);
            assert(sv.contains(f));
            let j = choose|j: int| 0 <= j < sv.len() && sv[j] == f;
            assert(sorted[j]@ == f);
        }
    }
    assert forall|a: int, b: int| 0 <= a < b < orig.len() implies ov[a] != ov[b] by {
        assert(orig[a]@ != orig[b]@);
    }
    ov.lemma_multiset_has_no_duplicates();
    assert forall|x: Seq<char>| sv.to_multiset().contains(x) implies sv.to_multiset().count(x)
        == 1 by {
        assert(ov.to_multiset().contains(x));
    }
    sv.lemma_multiset_has_no_duplicates_conv();
    assert forall|a: int, b: int| 0 <= a < b < sorted.len() implies sorted[a]@ != sorted[b]@ by {
        assert(sv[a] != sv[b]);
    }
}


} // verus!
