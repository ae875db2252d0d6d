//! Owned byte storage backing a [`crate::bitmap::Bitmap`].

use vstd::prelude::*;

verus! {

/// An owned, contiguous run of bytes, viewed as the sequence of bytes it holds.
///
/// The byte storage is directly reachable through `data`: this plays the role
/// of the raw-access escape hatch that in-place bit mutation needs.
#[derive(Clone, Debug)]
pub struct Buffer {
    pub data: Vec<u8>,
}

impl View for Buffer {
    type V = Seq<u8>;

    open spec fn view(&self) -> Seq<u8> {
        self.data@
    }
}

impl Buffer {
    /// Length of the stored bytes.
    pub fn len(&self) -> (n: usize)
        ensures
            n == self@.len(),
    {
        self.data.len()
    }

    /// Immutable view of the stored bytes.
    pub fn data(&self) -> (bytes: &Vec<u8>)
        ensures
            bytes@ == self@,
    {
        &self.data
    }
}

impl From<Vec<u8>> for Buffer {
    /// Take ownership of `bytes` as buffer storage, copying nothing.
    fn from(bytes: Vec<u8>) -> (buf: Buffer) {
        Buffer { data: bytes }
    }
}

impl vstd::std_specs::convert::FromSpecImpl<Vec<u8>> for Buffer {
    open spec fn obeys_from_spec() -> bool {
        true
    }

    open spec fn from_spec(bytes: Vec<u8>) -> Buffer {
        Buffer { data: bytes }
    }
}

impl PartialEq for Buffer {
    /// Two buffers are equal when they hold the same bytes.
    fn eq(&self, other: &Buffer) -> (r: bool) {
        let r = self.data == other.data;
        proof {
            if r {
                assert(self@ =~= other@);
            }
        }
        r
    }
}

impl vstd::std_specs::cmp::PartialEqSpecImpl for Buffer {
    open spec fn obeys_eq_spec() -> bool {
        true
    }

    open spec fn eq_spec(&self, other: &Buffer) -> bool {
        self@ == other@
    }
}

} // verus!
