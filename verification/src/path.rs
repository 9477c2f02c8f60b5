//! Unix paths.

use crate::bytes::push_all;
use vstd::prelude::*;
use vstd::utf8::*;

verus! {

/// The byte `/`.
pub const SEPARATOR: u8 = 47;

/// The byte `.`.
pub const DOT: u8 = 46;

/// A Unix path: any byte string.
#[derive(Debug)]
pub struct UnixPath {
    bytes: Vec<u8>,
}

impl View for UnixPath {
    type V = Seq<u8>;

    closed spec fn view(&self) -> Seq<u8> {
        self.bytes@
    }
}

/// `base` followed by the components of `path`; an absolute `path` stands for
/// itself.
pub open spec fn joined(base: Seq<u8>, path: Seq<u8>) -> Seq<u8> {
    if path.len() > 0 && path[0] == SEPARATOR {
        path
    } else if base.len() == 0 || base.last() == SEPARATOR {
        base + path
    } else {
        base.push(SEPARATOR) + path
    }
}

impl UnixPath {
    /// The path with the given bytes.
    pub fn new(bytes: &[u8]) -> (path: UnixPath)
        ensures
            path@ == bytes@,
    {
        let mut owned: Vec<u8> = Vec::new();
        push_all(&mut owned, bytes);
        assert(owned@ == bytes@);
        UnixPath { bytes: owned }
    }

    /// The bytes of this path.
    pub fn as_bytes(&self) -> (bytes: &[u8])
        ensures
            bytes@ == self@,
    {
        &self.bytes
    }

    /// A copy of this path.
    pub fn copy(&self) -> (path: UnixPath)
        ensures
            path@ == self@,
    {
        UnixPath::new(&self.bytes)
    }

    /// This path followed by the components of another.
    pub fn join(&self, path: &str) -> (joint: UnixPath)
        ensures
            joint@ == joined(self@, encode_utf8(path@)),
    {
        let tail: &[u8] = path.as_bytes();
        let mut bytes: Vec<u8> = Vec::new();
        if !(tail.len() > 0 && tail[0] == SEPARATOR) {
            push_all(&mut bytes, &self.bytes);
            if bytes.len() > 0 && bytes[bytes.len() - 1] != SEPARATOR {
                bytes.push(SEPARATOR);
            }
        }
        push_all(&mut bytes, tail);
        assert(bytes@ == joined(self@, encode_utf8(path@)));
        UnixPath { bytes }
    }
}

/// The position of the last `.` in `name`, or -1.
pub open spec fn last_dot(name: Seq<u8>) -> int
    decreases name.len(),
{
    if name.len() == 0 {
        -1
    } else if name.last() == DOT {
        name.len() - 1
    } else {
        last_dot(name.drop_last())
    }
}

/// The extension of a file name: what follows its last `.`. A name without a
/// `.`, or with a `.` only at its start, has none.
pub open spec fn extension_of(name: Seq<u8>) -> Option<Seq<u8>> {
    if last_dot(name) > 0 {
        Some(name.skip(last_dot(name) + 1))
    } else {
        None
    }
}

/// A file name without its extension.
pub open spec fn stem_of(name: Seq<u8>) -> Seq<u8> {
    if last_dot(name) > 0 {
        name.take(last_dot(name))
    } else {
        name
    }
}

/// Split a file name into its stem and its extension.
pub fn split_extension(name: &[u8]) -> (parts: (&[u8], Option<&[u8]>))
    ensures
        parts.0@ == stem_of(name@),
        match parts.1 {
            Some(extension) => extension_of(name@) == Some(extension@),
            None => extension_of(name@) is None,
        },
{
    let mut end: usize = name.len();
    assert(name@.take(end as int) == name@);
    while end > 0
        invariant
            end <= name@.len(),
            last_dot(name@.take(end as int)) == last_dot(name@),
        decreases end,
    {
        assert(name@.take(end as int).drop_last() == name@.take(end - 1));
        if name[end - 1] == DOT {
            if end == 1 {
                return (name, None);
            }
            let stem = vstd::slice::slice_subrange(name, 0, end - 1);
            let extension = vstd::slice::slice_subrange(name, end, name.len());
            assert(stem@ == stem_of(name@));
            assert(extension@ == name@.skip(end as int));
            return (stem, Some(extension));
        }
        end = end - 1;
    }
    (name, None)
}

} // verus!
