//! Opaque references to concrete font resources.

use vstd::prelude::*;

verus! {

/// The mathematical value of a `Handle`: where the resource lives and which
/// face within it is meant.
pub enum HandleView {
    Path { path: Seq<char>, font_index: u32 },
    Memory { bytes: Seq<u8>, font_index: u32 },
}

/// A reference to one concrete font resource: either a font file on disk
/// together with the index of the face inside it, or the raw bytes of a font
/// together with that index.  Two handles are equal exactly when they have
/// the same variant and the same fields; nothing is normalised.
#[derive(Debug)]
pub enum Handle {
    /// A font file on disk, by path, and the face index within the file.
    Path { path: String, font_index: u32 },
    /// A font held in memory, by its bytes, and the face index within them.
    Memory { bytes: Vec<u8>, font_index: u32 },
}

impl View for Handle {
    type V = HandleView;

    open spec fn view(&self) -> HandleView {
        match self {
            Handle::Path { path, font_index } => HandleView::Path {
                path: path@,
                font_index: *font_index,
            },
            Handle::Memory { bytes, font_index } => HandleView::Memory {
                bytes: bytes@,
                font_index: *font_index,
            },
        }
    }
}

fn bytes_eq(a: &Vec<u8>, b: &Vec<u8>) -> (r: bool)
    ensures
        r == (a@ == b@),
{
    if a.len() != b.len() {
        proof {
            assert(a@ != b@);
        }
        return false;
    }
    let mut i: usize = 0;
    while i < a.len()
        invariant
            i <= a@.len(),
            a@.len() == b@.len(),
            forall|k: int| 0 <= k < i as int ==> a@[k] == b@[k],
        decreases a@.len() - i,
    {
        if a[i] != b[i] {
            proof {
                assert(a@[i as int] != b@[i as int]);
            }
            return false;
        }
        i = i + 1;
    }
    proof {
        assert(a@ =~= b@);
    }
    true
}

impl PartialEq for Handle {
    /// Two handles are equal exactly when they have the same variant and the
    /// same fields.
    fn eq(&self, other: &Handle) -> (r: bool) {
        match (self, other) {
            (
                Handle::Path { path: p1, font_index: i1 },
                Handle::Path { path: p2, font_index: i2 },
            ) => p1.eq(p2) && *i1 == *i2,
            (
                Handle::Memory { bytes: b1, font_index: i1 },
                Handle::Memory { bytes: b2, font_index: i2 },
            ) => bytes_eq(b1, b2) && *i1 == *i2,
            _ => false,
        }
    }
}

impl vstd::std_specs::cmp::PartialEqSpecImpl for Handle {
    open spec fn obeys_eq_spec() -> bool {
        true
    }

    open spec fn eq_spec(&self, other: &Handle) -> bool {
        self@ == other@
    }
}

impl Clone for Handle {
    fn clone(&self) -> (r: Self)
        ensures
            r@ == self@,
    {
        match self {
            Handle::Path { path, font_index } => Handle::Path {
                path: path.clone(),
                font_index: *font_index,
            },
            Handle::Memory { bytes, font_index } => {
                let copied = bytes.clone();
                proof {
                    assert(copied@ =~= bytes@);
                }
                Handle::Memory { bytes: copied, font_index: *font_index }
            },
        }
    }
}

impl Handle {
    /// Builds a handle for a font file on disk.
    pub fn from_path(path: String, font_index: u32) -> (r: Handle)
        ensures
            r@ == (HandleView::Path { path: path@, font_index }),
    {
        Handle::Path { path, font_index }
    }

    /// Builds a handle for a font held in memory.
    pub fn from_memory(bytes: Vec<u8>, font_index: u32) -> (r: Handle)
        ensures
            r@ == (HandleView::Memory { bytes: bytes@, font_index }),
    {
        Handle::Memory { bytes, font_index }
    }
}

} // verus!
