//! Telling media by their content.

use crate::path::MediaPath;
use crate::path_key::path_key;
use crate::table::PathTable;
use crate::text::{decimal, decimal_text};
use sha1::{Digest, Sha1};
use vstd::prelude::*;
use vstd::utf8::encode_utf8;

verus! {

/// How much of the beginning and of the end of a file goes into its hash, in bytes.
pub const CHUNK: u64 = 65536;

/// What `Sha1::digest` makes of some bytes.
pub uninterp spec fn sha1_digest(data: Seq<u8>) -> Seq<u8>;

/// Calls `Sha1::digest` of the sha1 crate, which computes the SHA-1 digest of the bytes. A digest
/// has 20 bytes.
#[verifier::external_body]
fn sha1_of(data: &[u8]) -> (digest: Vec<u8>)
    ensures
        digest@ == sha1_digest(data@),
        digest@.len() == 20,
{
    Sha1::digest(data).to_vec()
}

/// The character of one hexadecimal digit, with small letters.
pub open spec fn hex_digit(d: nat) -> char {
    if d < 10 {
        (48 + d) as char
    } else {
        (87 + d) as char
    }
}

/// Bytes as hexadecimal digits, two for each.
pub open spec fn hex(bytes: Seq<u8>) -> Seq<char>
    decreases bytes.len(),
{
    if bytes.len() == 0 {
        Seq::empty()
    } else {
        hex(bytes.drop_last()).push(hex_digit((bytes.last() / 16) as nat)).push(
            hex_digit((bytes.last() % 16) as nat),
        )
    }
}

fn hex_char(d: u8) -> (c: char)
    requires
        d < 16,
    ensures
        c == hex_digit(d as nat),
{
    if d < 10 {
        (48 + d) as char
    } else {
        (87 + d) as char
    }
}

fn hex_text(bytes: &[u8]) -> (text: String)
    ensures
        text@ == hex(bytes@),
        text@.len() == 2 * bytes@.len(),
{
    let mut text = String::new();
    let mut i: usize = 0;
    assert(bytes@.take(0) =~= Seq::empty());
    assert(text@ =~= hex(bytes@.take(0)));
    while i < bytes.len()
        invariant
            i <= bytes.len(),
            text@ == hex(bytes@.take(i as int)),
            text@.len() == 2 * i,
        decreases bytes.len() - i,
    {
        assert(bytes@.take(i + 1).drop_last() =~= bytes@.take(i as int));
        text.push(hex_char(bytes[i] / 16));
        text.push(hex_char(bytes[i] % 16));
        i += 1;
    }
    assert(bytes@.take(i as int) =~= bytes@);
    text
}

/// What of a file goes into its hash.
#[derive(Debug)]
pub struct FileSample {
    pub size: u64,
    /// The beginning of the file.
    pub head: Vec<u8>,
    /// The end of the file, where the beginning is not all of it.
    pub tail: Vec<u8>,
}

/// What [`FileSample`] holds.
pub struct SampleView {
    pub size: u64,
    pub head: Seq<u8>,
    pub tail: Seq<u8>,
}

impl View for FileSample {
    type V = SampleView;

    open spec fn view(&self) -> SampleView {
        SampleView { size: self.size, head: self.head@, tail: self.tail@ }
    }
}

/// How long the beginning is that goes into the hash of a file of `size` bytes.
pub open spec fn head_len(size: nat) -> nat {
    if size < CHUNK {
        size
    } else {
        CHUNK as nat
    }
}

/// Whether the end of a file of `size` bytes goes into its hash: not where the beginning is all
/// of it.
pub open spec fn has_tail(size: nat) -> bool {
    size > CHUNK
}

/// What goes into the hash of a file with this content.
pub open spec fn sample_of(content: Seq<u8>) -> SampleView {
    SampleView {
        size: content.len() as u64,
        head: content.take(head_len(content.len()) as int),
        tail: if has_tail(content.len()) {
            content.skip(content.len() - CHUNK)
        } else {
            Seq::empty()
        },
    }
}

/// The hash of a file from which the sample was taken.
pub open spec fn hash_of(sample: SampleView) -> Seq<char> {
    hex(sha1_digest(encode_utf8(decimal(sample.size as nat)) + sample.head + sample.tail))
}

/// The hash of a file with this content.
pub open spec fn content_hash(content: Seq<u8>) -> Seq<char> {
    hash_of(sample_of(content))
}

/// Files of the same size that begin and end alike have the same hash, whatever they are called
/// and wherever they lie.
pub proof fn like_files_have_one_hash(a: Seq<u8>, b: Seq<u8>)
    requires
        a.len() == b.len(),
        a.take(head_len(a.len()) as int) == b.take(head_len(b.len()) as int),
        has_tail(a.len()) ==> a.skip(a.len() - CHUNK) == b.skip(b.len() - CHUNK),
    ensures
        content_hash(a) == content_hash(b),
{
}

/// Which parts of a file of `size` bytes to read for its hash: the length of the beginning, and
/// where the end begins if it is to be read.
pub fn sample_plan(size: u64) -> (plan: (u64, Option<u64>))
    ensures
        plan.0 == head_len(size as nat),
        plan.1 == (if has_tail(size as nat) {
            Some((size - CHUNK) as u64)
        } else {
            None
        }),
{
    let head = if size < CHUNK {
        size
    } else {
        CHUNK
    };
    let tail = if size > CHUNK {
        Some(size - CHUNK)
    } else {
        None
    };
    (head, tail)
}

fn copy_range(content: &[u8], from: usize, to: usize) -> (copy: Vec<u8>)
    requires
        from <= to <= content.len(),
    ensures
        copy@ == content@.subrange(from as int, to as int),
{
    let mut copy: Vec<u8> = Vec::new();
    let mut i: usize = from;
    while i < to
        invariant
            from <= i <= to <= content.len(),
            copy@ == content@.subrange(from as int, i as int),
        decreases to - i,
    {
        copy.push(content[i]);
        i += 1;
        assert(copy@ =~= content@.subrange(from as int, i as int));
    }
    copy
}

impl FileSample {
    /// The sample of a file with this content.
    pub fn of_content(content: &[u8]) -> (sample: FileSample)
        ensures
            sample@ == sample_of(content@),
    {
        let size = content.len() as u64;
        let (head_len, tail_at) = sample_plan(size);
        let head = copy_range(content, 0, head_len as usize);
        let tail = match tail_at {
            Some(at) => copy_range(content, at as usize, content.len()),
            None => Vec::new(),
        };
        let sample = FileSample { size, head, tail };
        assert(sample@.head =~= sample_of(content@).head);
        assert(sample@.tail =~= sample_of(content@).tail);
        sample
    }
}

/// The hash of a file from which the sample was taken: the SHA-1 digest, in hexadecimal digits, of
/// its size in decimal digits, its beginning and its end.
pub fn hash_video_file(sample: &FileSample) -> (hash: String)
    ensures
        hash@ == hash_of(sample@),
        hash@.len() == 40,
{
    let mut data: Vec<u8> = Vec::new();
    let size = decimal_text(sample.size);
    crate::path::push_bytes(&mut data, size.as_str().as_bytes());
    crate::path::push_bytes(&mut data, sample.head.as_slice());
    crate::path::push_bytes(&mut data, sample.tail.as_slice());
    assert(data@ =~= encode_utf8(decimal(sample.size as nat)) + sample@.head + sample@.tail);
    let digest = sha1_of(data.as_slice());
    hex_text(digest.as_slice())
}

/// What a file system says of a file without reading it.
#[derive(Debug, Clone, Copy, PartialEq, Eq, Structural)]
pub struct FileStamp {
    pub size: u64,
    /// When the file was changed last, in nanoseconds, where that is known.
    pub mtime: Option<i128>,
}

/// A hash, and how the file was when it was computed.
#[derive(Debug)]
pub struct CachedHash {
    pub stamp: FileStamp,
    pub hash: String,
}

/// What [`CachedHash`] holds.
pub struct CachedView {
    pub stamp: FileStamp,
    pub hash: Seq<char>,
}

/// Hashes that were computed, by path.
#[derive(Debug)]
pub struct ContentHashCache {
    entries: PathTable<CachedHash>,
}

impl View for ContentHashCache {
    type V = Map<Seq<u16>, CachedView>;

    closed spec fn view(&self) -> Map<Seq<u16>, CachedView> {
        self.entries@.map_values(
            |c: CachedHash| CachedView { stamp: c.stamp, hash: c.hash@ },
        )
    }
}

/// The hash that is kept for a path, if the file has not changed since.
pub open spec fn fresh_hash(
    cache: Map<Seq<u16>, CachedView>,
    path: Seq<u8>,
    stamp: FileStamp,
) -> Option<Seq<char>> {
    if cache.contains_key(path_key(path)) && cache[path_key(path)].stamp == stamp {
        Some(cache[path_key(path)].hash)
    } else {
        None
    }
}

/// A hash that is kept stays in use as long as the file does not change, and is not used any more
/// once it has.
pub proof fn hash_is_kept_until_change(
    cache: Map<Seq<u16>, CachedView>,
    path: Seq<u8>,
    stamp: FileStamp,
    hash: Seq<char>,
    later: FileStamp,
)
    ensures
        fresh_hash(cache.insert(path_key(path), CachedView { stamp, hash }), path, stamp) == Some(
            hash,
        ),
        later != stamp ==> fresh_hash(
            cache.insert(path_key(path), CachedView { stamp, hash }),
            path,
            later,
        ) is None,
{
}

impl ContentHashCache {
    /// Whether every path has one entry.
    pub closed spec fn wf(&self) -> bool {
        self.entries.wf()
    }

    /// An empty cache.
    pub fn new() -> (cache: Self)
        ensures
            cache.wf(),
            cache@ == Map::<Seq<u16>, CachedView>::empty(),
    {
        let cache = ContentHashCache { entries: PathTable::new() };
        assert(cache@ =~= Map::<Seq<u16>, CachedView>::empty());
        cache
    }

    /// Keeps a hash that was just computed for a file, in place of what was kept. `stamp` is what
    /// the file system says of the file; where it says nothing, nothing is kept.
    pub fn prime_content_hash(&mut self, path: &MediaPath, stamp: Option<FileStamp>, hash: String)
        requires
            old(self).wf(),
        ensures
            final(self).wf(),
            final(self)@ == match stamp {
                Some(stamp) => old(self)@.insert(
                    path_key(path@),
                    CachedView { stamp, hash: hash@ },
                ),
                None => old(self)@,
            },
    {
        match stamp {
            Some(stamp) => {
                self.entries.insert(path, CachedHash { stamp, hash });
                assert(self@ =~= old(self)@.insert(
                    path_key(path@),
                    CachedView { stamp, hash: hash@ },
                ));
            },
            None => {},
        }
    }

    /// The hash that is kept for a file, if the file has not changed since.
    pub fn fresh_hash(&self, path: &MediaPath, stamp: FileStamp) -> (hash: Option<String>)
        requires
            self.wf(),
        ensures
            match hash {
                Some(h) => fresh_hash(self@, path@, stamp) == Some(h@),
                None => fresh_hash(self@, path@, stamp) is None,
            },
    {
        match self.entries.get(path) {
            Some(cached) => if cached.stamp == stamp {
                Some(cached.hash.as_str().to_string())
            } else {
                None
            },
            None => None,
        }
    }

    /// The hash of a file: the one that is kept if the file has not changed since, and otherwise
    /// the one of the sample, which is then kept.
    pub fn hash_video_file_cached(
        &mut self,
        path: &MediaPath,
        stamp: FileStamp,
        sample: &FileSample,
    ) -> (hash: String)
        requires
            old(self).wf(),
        ensures
            final(self).wf(),
            hash@ == (match fresh_hash(old(self)@, path@, stamp) {
                Some(kept) => kept,
                None => hash_of(sample@),
            }),
            final(self)@ == if fresh_hash(old(self)@, path@, stamp) is Some {
                old(self)@
            } else {
                old(self)@.insert(path_key(path@), CachedView { stamp, hash: hash_of(sample@) })
            },
    {
        match self.fresh_hash(path, stamp) {
            Some(hash) => hash,
            None => {
                let hash = hash_video_file(sample);
                self.prime_content_hash(path, Some(stamp), hash.as_str().to_string());
                hash
            },
        }
    }
}

} // verus!
