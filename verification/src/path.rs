//! File system paths, as the bytes that the kernel sees.

use vstd::prelude::*;
use vstd::utf8::encode_utf8;

verus! {

/// The byte that separates the components of a path.
pub const SEPARATOR: u8 = 0x2f;

/// A path, which need not be valid UTF-8.
#[derive(Debug, PartialEq, Eq)]
pub struct FsPath {
    pub bytes: Vec<u8>,
}

impl View for FsPath {
    type V = Seq<u8>;

    open spec fn view(&self) -> Seq<u8> {
        self.bytes@
    }
}

/// Whether a path starts at the root of the file system.
pub open spec fn absolute(path: Seq<u8>) -> bool {
    path.len() > 0 && path[0] == SEPARATOR
}

/// `other` seen from `base`: an absolute path stands for itself, any other one is
/// appended, behind a separator where `base` does not end in one.
pub open spec fn joined(base: Seq<u8>, other: Seq<u8>) -> Seq<u8> {
    if absolute(other) {
        other
    } else if base.len() == 0 || base.last() == SEPARATOR {
        base + other
    } else {
        base.push(SEPARATOR) + other
    }
}

impl Clone for FsPath {
    fn clone(&self) -> (copy: FsPath)
        ensures
            copy@ == self@,
    {
        FsPath { bytes: self.bytes.clone() }
    }
}

impl FsPath {
    /// The path that a text spells.
    pub fn new(text: &str) -> (path: FsPath)
        ensures
            path@ == encode_utf8(text@),
    {
        FsPath { bytes: text.as_bytes_vec() }
    }

    pub fn is_empty(&self) -> (empty: bool)
        ensures
            empty == (self@.len() == 0),
    {
        self.bytes.len() == 0
    }

    pub fn is_absolute(&self) -> (b: bool)
        ensures
            b == absolute(self@),
    {
        self.bytes.len() > 0 && self.bytes[0] == SEPARATOR
    }

    pub fn join(&self, other: &FsPath) -> (path: FsPath)
        ensures
            path@ == joined(self@, other@),
    {
        if other.is_absolute() {
            return other.clone();
        }
        let mut bytes: Vec<u8> = self.bytes.clone();
        if bytes.len() > 0 && bytes[bytes.len() - 1] != SEPARATOR {
            bytes.push(SEPARATOR);
        }
        let mut tail: Vec<u8> = other.bytes.clone();
        bytes.append(&mut tail);
        FsPath { bytes }
    }
}

/// A path that starts at the root stands for itself wherever it is joined to; another one is
/// the end of the path that it gives, behind what it was joined to and at most one separator.
pub proof fn law_join(base: Seq<u8>, other: Seq<u8>)
    ensures
        absolute(other) <==> other.len() > 0 && other[0] == 0x2f,
        other.len() > 0 && other[0] == 0x2f ==> joined(base, other) == other,
        !(other.len() > 0 && other[0] == 0x2f) ==> {
            &&& joined(base, other).take(base.len() as int) == base
            &&& joined(base, other).skip(joined(base, other).len() - other.len()) == other
            &&& if base.len() == 0 || base[base.len() - 1] == 0x2f {
                joined(base, other).len() == base.len() + other.len()
            } else {
                joined(base, other).len() == base.len() + 1 + other.len() && joined(
                    base,
                    other,
                )[base.len() as int] == 0x2f
            }
        },
{
    if !absolute(other) {
        let path = joined(base, other);
        assert(path.take(base.len() as int) =~= base);
        assert(path.skip(path.len() - other.len()) =~= other);
    }
}

} // verus!
