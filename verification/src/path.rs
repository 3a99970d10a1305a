//! Paths of media files, held as the bytes that the file system knows them by, with `/` as the
//! separator.

use crate::text::{from_utf8_lossy, utf8_lossy};
use vstd::prelude::*;
use vstd::utf8::{decode_utf8, encode_utf8, valid_utf8};

verus! {

/// The separator between the components of a path.
pub const SEPARATOR: u8 = 47;

/// The dot that parts a file name from its extension, and that names the current directory.
pub const DOT: u8 = 46;

/// A path to a file or a folder.
#[derive(Debug)]
pub struct MediaPath {
    pub bytes: Vec<u8>,
}

impl View for MediaPath {
    type V = Seq<u8>;

    open spec fn view(&self) -> Seq<u8> {
        self.bytes@
    }
}

/// One step of a path.
pub enum Component {
    /// The leading separator of an absolute path.
    RootDir,
    /// A leading `.`.
    CurDir,
    /// `..`
    ParentDir,
    /// Any other name.
    Normal(Seq<u8>),
}

/// The end of the piece that starts at `i`: the next separator, or the end of the path.
pub open spec fn piece_end(p: Seq<u8>, i: int) -> int
    decreases p.len() - i,
{
    if i < 0 || i >= p.len() || p[i] == SEPARATOR {
        i
    } else {
        piece_end(p, i + 1)
    }
}

/// What a piece between separators stands for. An empty piece stands for nothing, and so does
/// `.` anywhere but at the start of the path.
pub open spec fn classify(piece: Seq<u8>, first: bool) -> Option<Component> {
    if piece.len() == 0 {
        None
    } else if piece == seq![DOT] {
        if first {
            Some(Component::CurDir)
        } else {
            None
        }
    } else if piece == seq![DOT, DOT] {
        Some(Component::ParentDir)
    } else {
        Some(Component::Normal(piece))
    }
}

/// The components that the bytes from `i` on stand for.
pub open spec fn components_from(p: Seq<u8>, i: int) -> Seq<Component>
    decreases p.len() - i + 1,
{
    if i < 0 || i >= p.len() {
        Seq::empty()
    } else {
        proof {
            lemma_piece_end(p, i);
        }
        let end = piece_end(p, i);
        match classify(p.subrange(i, end), i == 0) {
            Some(c) => seq![c] + components_from(p, end + 1),
            None => components_from(p, end + 1),
        }
    }
}

/// A piece ends at the first separator after its start, or with the path.
pub proof fn lemma_piece_end(p: Seq<u8>, i: int)
    requires
        0 <= i <= p.len(),
    ensures
        i <= piece_end(p, i) <= p.len(),
        forall|k: int| i <= k < piece_end(p, i) ==> p[k] != SEPARATOR,
        piece_end(p, i) < p.len() ==> p[piece_end(p, i)] == SEPARATOR,
    decreases p.len() - i,
{
    if i < p.len() && p[i] != SEPARATOR {
        lemma_piece_end(p, i + 1);
    }
}

/// Whether a path starts at the root.
pub open spec fn is_absolute(p: Seq<u8>) -> bool {
    p.len() > 0 && p[0] == SEPARATOR
}

/// The components of a path. Repeated separators, trailing separators and inner `.` pieces leave
/// no trace in them.
pub open spec fn components(p: Seq<u8>) -> Seq<Component> {
    if is_absolute(p) {
        seq![Component::RootDir] + components_from(p, 0)
    } else {
        components_from(p, 0)
    }
}

/// The name that a path ends in, if its last component is a name.
pub open spec fn file_name(p: Seq<u8>) -> Option<Seq<u8>> {
    let parts = components(p);
    if parts.len() == 0 {
        None
    } else {
        match parts.last() {
            Component::Normal(name) => Some(name),
            _ => None,
        }
    }
}

/// The place of the last dot of a name, if it has one.
pub open spec fn last_dot(name: Seq<u8>) -> Option<int>
    decreases name.len(),
{
    if name.len() == 0 {
        None
    } else if name.last() == DOT {
        Some(name.len() - 1)
    } else {
        last_dot(name.drop_last())
    }
}

/// What follows the last dot of the file name. A dot that the name starts with does not count.
pub open spec fn extension(p: Seq<u8>) -> Option<Seq<u8>> {
    match file_name(p) {
        Some(name) => match last_dot(name) {
            Some(dot) => if dot > 0 {
                Some(name.skip(dot + 1))
            } else {
                None
            },
            None => None,
        },
        None => None,
    }
}

/// A path with another one appended. An absolute tail takes the place of the whole path.
pub open spec fn joined(base: Seq<u8>, tail: Seq<u8>) -> Seq<u8> {
    if is_absolute(tail) {
        tail
    } else if base.len() == 0 || base.last() == SEPARATOR {
        base + tail
    } else {
        base.push(SEPARATOR) + tail
    }
}

impl Clone for MediaPath {
    fn clone(&self) -> (copy: Self)
        ensures
            copy@ == self@,
    {
        MediaPath { bytes: copy_bytes(&self.bytes) }
    }
}

fn copy_bytes(bytes: &[u8]) -> (copy: Vec<u8>)
    ensures
        copy@ == bytes@,
{
    let mut copy: Vec<u8> = Vec::new();
    push_bytes(&mut copy, bytes);
    assert(copy@ =~= bytes@);
    copy
}

/// Appends `tail` to `bytes`.
pub(crate) fn push_bytes(bytes: &mut Vec<u8>, tail: &[u8])
    ensures
        final(bytes)@ == old(bytes)@ + tail@,
{
    let mut i: usize = 0;
    while i < tail.len()
        invariant
            i <= tail.len(),
            bytes@ == old(bytes)@ + tail@.take(i as int),
        decreases tail.len() - i,
    {
        bytes.push(tail[i]);
        i += 1;
        assert(bytes@ =~= old(bytes)@ + tail@.take(i as int));
    }
    assert(tail@.take(i as int) =~= tail@);
}

/// The end of the piece of `p` that starts at `i`.
pub(crate) fn find_piece_end(p: &[u8], i: usize) -> (end: usize)
    requires
        i <= p.len(),
    ensures
        end == piece_end(p@, i as int),
        i <= end <= p.len(),
{
    let mut end: usize = i;
    while end < p.len() && p[end] != SEPARATOR
        invariant
            i <= end <= p.len(),
            piece_end(p@, i as int) == piece_end(p@, end as int),
        decreases p.len() - end,
    {
        end += 1;
    }
    end
}

impl MediaPath {
    /// The path that a text spells.
    pub fn from_text(text: &str) -> (path: MediaPath)
        ensures
            path@ == encode_utf8(text@),
    {
        MediaPath { bytes: copy_bytes(text.as_bytes()) }
    }

    /// The name that the path ends in, unless it ends in `..` or has no component at all.
    pub fn file_name(&self) -> (name: Option<Vec<u8>>)
        ensures
            match name {
                Some(n) => file_name(self@) == Some(n@),
                None => file_name(self@) is None,
            },
    {
        let p = self.bytes.as_slice();
        let mut i: usize = 0;
        let mut name: Option<(usize, usize)> = None;
        let ghost mut seen: Seq<Component> = if is_absolute(p@) {
            seq![Component::RootDir]
        } else {
            Seq::empty()
        };
        assert(components(p@) =~= seen + components_from(p@, 0));
        while i < p.len()
            invariant
                components(p@) == seen + components_from(p@, i as int),
                match name {
                    Some(range) => {
                        &&& range.0 <= range.1 <= p.len()
                        &&& seen.len() > 0
                        &&& seen.last() == Component::Normal(
                            p@.subrange(range.0 as int, range.1 as int),
                        )
                    },
                    None => seen.len() == 0 || !(seen.last() is Normal),
                },
            decreases p.len() - i,
        {
            let end = find_piece_end(p, i);
            let ghost piece = p@.subrange(i as int, end as int);
            let len: usize = end - i;
            let is_dot = len == 1 && p[i] == DOT;
            let is_dots = len == 2 && p[i] == DOT && p[i + 1] == DOT;
            proof {
                if is_dot {
                    assert(piece =~= seq![DOT]);
                }
                if is_dots {
                    assert(piece =~= seq![DOT, DOT]);
                }
                if piece == seq![DOT] {
                    assert(piece[0] == DOT);
                }
                if piece == seq![DOT, DOT] {
                    assert(piece[0] == DOT && piece[1] == DOT);
                }
                match classify(piece, i == 0) {
                    Some(c) => {
                        assert(seen + (seq![c] + components_from(p@, end + 1)) =~= seen.push(c)
                            + components_from(p@, end + 1));
                        seen = seen.push(c);
                    },
                    None => {},
                }
            }
            if len > 0 {
                if is_dot {
                    if i == 0 {
                        name = None;
                    }
                } else if is_dots {
                    name = None;
                } else {
                    name = Some((i, end));
                }
            }
            if end == p.len() {
                assert(components_from(p@, end + 1) =~= Seq::empty());
                assert(components_from(p@, end as int) =~= Seq::empty());
                i = end;
            } else {
                i = end + 1;
            }
        }
        assert(components(p@) =~= seen);
        match name {
            Some((from, to)) => {
                let mut bytes: Vec<u8> = Vec::new();
                push_bytes(&mut bytes, vstd::slice::slice_subrange(p, from, to));
                assert(bytes@ =~= p@.subrange(from as int, to as int));
                Some(bytes)
            },
            None => None,
        }
    }

    /// What follows the last dot of the file name, if the name has a dot after its first byte.
    pub fn extension(&self) -> (ext: Option<Vec<u8>>)
        ensures
            match ext {
                Some(e) => extension(self@) == Some(e@),
                None => extension(self@) is None,
            },
    {
        let name = match self.file_name() {
            Some(name) => name,
            None => {
                return None;
            },
        };
        let mut i: usize = name.len();
        assert(name@.take(i as int) =~= name@);
        while i > 0
            invariant
                i <= name.len(),
                file_name(self@) == Some(name@),
                last_dot(name@) == last_dot(name@.take(i as int)),
            decreases i,
        {
            assert(name@.take(i as int).drop_last() =~= name@.take(i - 1));
            if name[i - 1] == DOT {
                if i == 1 {
                    return None;
                }
                let mut ext: Vec<u8> = Vec::new();
                push_bytes(&mut ext, vstd::slice::slice_subrange(name.as_slice(), i, name.len()));
                assert(ext@ =~= name@.skip(i as int));
                return Some(ext);
            }
            i -= 1;
        }
        None
    }

    /// The path with `tail` appended.
    pub fn join(&self, tail: &[u8]) -> (path: MediaPath)
        ensures
            path@ == joined(self@, tail@),
    {
        if tail.len() > 0 && tail[0] == SEPARATOR {
            return MediaPath { bytes: copy_bytes(tail) };
        }
        let mut bytes = copy_bytes(&self.bytes);
        if bytes.len() > 0 && bytes[bytes.len() - 1] != SEPARATOR {
            bytes.push(SEPARATOR);
        }
        push_bytes(&mut bytes, tail);
        assert(bytes@ =~= joined(self@, tail@));
        MediaPath { bytes }
    }

    /// Whether this path and another one are the same, byte for byte.
    pub fn same_as(&self, other: &MediaPath) -> (same: bool)
        ensures
            same == (self@ == other@),
    {
        if self.bytes.len() != other.bytes.len() {
            return false;
        }
        let mut i: usize = 0;
        while i < self.bytes.len()
            invariant
                i <= self.bytes.len(),
                self.bytes.len() == other.bytes.len(),
                forall|k: int| 0 <= k < i ==> self.bytes@[k] == other.bytes@[k],
            decreases self.bytes.len() - i,
        {
            if self.bytes[i] != other.bytes[i] {
                return false;
            }
            i += 1;
        }
        assert(self@ =~= other@);
        true
    }

    /// The path as a text, with replacement characters for what is not UTF-8.
    pub fn to_text(&self) -> (text: String)
        ensures
            text@ == utf8_lossy(self@),
            valid_utf8(self@) ==> text@ == decode_utf8(self@),
    {
        from_utf8_lossy(&self.bytes)
    }
}

} // verus!
