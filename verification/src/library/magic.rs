//! Telling media by the first bytes of the file.

use crate::text::str_eq;
use vstd::prelude::*;

verus! {

/// Whether `bytes` starts with `mark`.
pub open spec fn starts_with(bytes: Seq<u8>, mark: Seq<u8>) -> bool {
    mark.len() <= bytes.len() && bytes.take(mark.len() as int) == mark
}

/// Whether a file with the extension `ext`, in lowercase, that starts with `head` is what it says
/// it is. Extensions without a mark of their own are trusted.
pub open spec fn magic_matches(ext: Seq<char>, head: Seq<u8>) -> bool {
    if ext == "ts"@ || ext == "mts"@ {
        // Transport streams: a sync byte at the start of each packet of 188 bytes.
        head.len() >= 189 && head[0] == 0x47 && head[188] == 0x47
    } else if ext == "jpg"@ || ext == "jpeg"@ {
        starts_with(head, seq![0xffu8, 0xd8, 0xff])
    } else if ext == "png"@ {
        starts_with(head, seq![0x89u8, 0x50, 0x4e, 0x47])
    } else if ext == "gif"@ {
        // GIF8
        starts_with(head, seq![0x47u8, 0x49, 0x46, 0x38])
    } else if ext == "webp"@ {
        // RIFF, four bytes of length, WEBP
        &&& starts_with(head, seq![0x52u8, 0x49, 0x46, 0x46])
        &&& head.len() >= 12
        &&& head.subrange(8, 12) == seq![0x57u8, 0x45, 0x42, 0x50]
    } else if ext == "bmp"@ {
        starts_with(head, seq![0x42u8, 0x4d])
    } else if ext == "tiff"@ || ext == "tif"@ {
        ||| starts_with(head, seq![0x49u8, 0x49, 0x2a, 0x00])
        ||| starts_with(head, seq![0x4du8, 0x4d, 0x00, 0x2a])
    } else {
        true
    }
}

/// How many bytes of a file with the extension `ext` are looked at.
pub open spec fn magic_len(ext: Seq<char>) -> nat {
    if ext == "ts"@ || ext == "mts"@ {
        189
    } else if ext == "jpg"@ || ext == "jpeg"@ {
        3
    } else if ext == "png"@ || ext == "gif"@ {
        4
    } else if ext == "webp"@ {
        12
    } else if ext == "bmp"@ {
        2
    } else if ext == "tiff"@ || ext == "tif"@ {
        4
    } else {
        0
    }
}

/// How many bytes of a file with the extension `ext_lower` have to be read before it can be
/// confirmed.
pub fn magic_byte_count(ext_lower: &str) -> (count: usize)
    ensures
        count == magic_len(ext_lower@),
{
    if str_eq(ext_lower, "ts") || str_eq(ext_lower, "mts") {
        189
    } else if str_eq(ext_lower, "jpg") || str_eq(ext_lower, "jpeg") {
        3
    } else if str_eq(ext_lower, "png") || str_eq(ext_lower, "gif") {
        4
    } else if str_eq(ext_lower, "webp") {
        12
    } else if str_eq(ext_lower, "bmp") {
        2
    } else if str_eq(ext_lower, "tiff") || str_eq(ext_lower, "tif") {
        4
    } else {
        0
    }
}

fn has_bytes_at(bytes: &[u8], at: usize, mark: &[u8]) -> (found: bool)
    requires
        at + mark.len() <= usize::MAX,
    ensures
        found == (at + mark.len() <= bytes.len() && bytes@.subrange(at as int, at + mark.len())
            == mark@),
{
    if at + mark.len() > bytes.len() {
        return false;
    }
    let mut i: usize = 0;
    while i < mark.len()
        invariant
            i <= mark.len(),
            at + mark.len() <= bytes.len(),
            forall|k: int| 0 <= k < i ==> bytes@[at + k] == mark@[k],
        decreases mark.len() - i,
    {
        if bytes[at + i] != mark[i] {
            assert(bytes@.subrange(at as int, at + mark.len())[i as int] != mark@[i as int]);
            return false;
        }
        i += 1;
    }
    assert(bytes@.subrange(at as int, at + mark.len()) =~= mark@);
    true
}

/// Whether a file with the extension `ext_lower` that starts with `head` is what it says it is.
pub fn confirm_media_magic(head: &[u8], ext_lower: &str) -> (confirmed: bool)
    ensures
        confirmed == magic_matches(ext_lower@, head@),
{
    if str_eq(ext_lower, "ts") || str_eq(ext_lower, "mts") {
        head.len() >= 189 && head[0] == 0x47 && head[188] == 0x47
    } else if str_eq(ext_lower, "jpg") || str_eq(ext_lower, "jpeg") {
        let mark: Vec<u8> = vec![0xff, 0xd8, 0xff];
        assert(mark@ =~= seq![0xffu8, 0xd8, 0xff]);
        has_bytes_at(head, 0, &mark)
    } else if str_eq(ext_lower, "png") {
        let mark: Vec<u8> = vec![0x89, 0x50, 0x4e, 0x47];
        assert(mark@ =~= seq![0x89u8, 0x50, 0x4e, 0x47]);
        has_bytes_at(head, 0, &mark)
    } else if str_eq(ext_lower, "gif") {
        let mark: Vec<u8> = vec![0x47, 0x49, 0x46, 0x38];
        assert(mark@ =~= seq![0x47u8, 0x49, 0x46, 0x38]);
        has_bytes_at(head, 0, &mark)
    } else if str_eq(ext_lower, "webp") {
        let riff: Vec<u8> = vec![0x52, 0x49, 0x46, 0x46];
        let webp: Vec<u8> = vec![0x57, 0x45, 0x42, 0x50];
        assert(riff@ =~= seq![0x52u8, 0x49, 0x46, 0x46]);
        assert(webp@ =~= seq![0x57u8, 0x45, 0x42, 0x50]);
        has_bytes_at(head, 0, &riff) && has_bytes_at(head, 8, &webp)
    } else if str_eq(ext_lower, "bmp") {
        let mark: Vec<u8> = vec![0x42, 0x4d];
        assert(mark@ =~= seq![0x42u8, 0x4d]);
        has_bytes_at(head, 0, &mark)
    } else if str_eq(ext_lower, "tiff") || str_eq(ext_lower, "tif") {
        let little: Vec<u8> = vec![0x49, 0x49, 0x2a, 0x00];
        let big: Vec<u8> = vec![0x4d, 0x4d, 0x00, 0x2a];
        assert(little@ =~= seq![0x49u8, 0x49, 0x2a, 0x00]);
        assert(big@ =~= seq![0x4du8, 0x4d, 0x00, 0x2a]);
        has_bytes_at(head, 0, &little) || has_bytes_at(head, 0, &big)
    } else {
        true
    }
}

/// Whether a file is confirmed does not depend on bytes behind those that are looked at, and a
/// file shorter than that is not confirmed.
pub proof fn confirmation_needs_only_the_start(ext: Seq<char>, content: Seq<u8>)
    ensures
        content.len() >= magic_len(ext) ==> magic_matches(ext, content) == magic_matches(
            ext,
            content.take(magic_len(ext) as int),
        ),
        content.len() < magic_len(ext) ==> !magic_matches(ext, content),
{
    let n = magic_len(ext) as int;
    if content.len() >= n {
        let head = content.take(n);
        if n >= 2 {
            assert(head.take(2) =~= content.take(2));
        }
        if n >= 3 {
            assert(head.take(3) =~= content.take(3));
        }
        if n >= 4 {
            assert(head.take(4) =~= content.take(4));
        }
        if n == 12 {
            assert(head.subrange(8, 12) =~= content.subrange(8, 12));
        }
    }
}

} // verus!
