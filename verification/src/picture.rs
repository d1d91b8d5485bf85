//! Format-independent cover-art payloads.

use vstd::prelude::*;

verus! {

/// The MIME type of a picture payload.
#[derive(Clone, Copy, Debug, PartialEq, Eq, Structural)]
pub enum MimeType {
    Png,
    Jpeg,
    Tiff,
    Bmp,
    Gif,
}

/// The declared role of a picture within a tag.
#[derive(Clone, Copy, Debug, PartialEq, Eq, Structural)]
pub enum PictureType {
    Other,
    Icon,
    CoverFront,
    CoverBack,
    Artist,
}

/// A format-independent cover-art payload.
#[derive(Clone, Debug)]
pub struct Picture {
    pub pic_type: PictureType,
    pub mime_type: MimeType,
    pub data: Vec<u8>,
}

/// Value equality of two pictures: same declared type, same MIME type,
/// same bytes.
pub open spec fn same_picture(a: Picture, b: Picture) -> bool {
    a.pic_type == b.pic_type && a.mime_type == b.mime_type && a.data@ == b.data@
}

/// Byte-for-byte comparison of two payloads.
fn bytes_eq(a: &Vec<u8>, b: &Vec<u8>) -> (r: bool)
    ensures
        r == (a@ == b@),
{
    if a.len() != b.len() {
        proof {
            assert(a@ != b@);
        }
        return false;
    }
    let n = a.len();
    let mut i: usize = 0;
    while i < n
        invariant
            n == a.len() == b.len(),
            0 <= i <= n,
            forall|j: int| 0 <= j < i ==> a@[j] == b@[j],
        decreases n - i,
    {
        if a[i] != b[i] {
            return false;
        }
        i += 1;
    }
    proof {
        assert(a@ =~= b@);
    }
    true
}

impl PartialEq for Picture {
    fn eq(&self, other: &Picture) -> (r: bool) {
        self.pic_type == other.pic_type && self.mime_type == other.mime_type && bytes_eq(
            &self.data,
            &other.data,
        )
    }
}

impl vstd::std_specs::cmp::PartialEqSpecImpl for Picture {
    open spec fn obeys_eq_spec() -> bool {
        true
    }

    open spec fn eq_spec(&self, other: &Picture) -> bool {
        same_picture(*self, *other)
    }
}

} // verus!
