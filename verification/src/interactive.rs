//! Path-text helpers behind the interactive prompt's completion: whether a
//! path names a hidden entry, and case-insensitive prefix matching of file
//! names. Both work on the text alone; listing directories is the
//! surrounding binary's business.

use vstd::prelude::*;
use vstd::utf8::encode_utf8;

use crate::strutil::{basename, chars_vec, spec_basename};

verus! {

/// Whether a path names a hidden directory entry.
pub trait IsHidden {
    /// The path's text.
    spec fn path_text(&self) -> Seq<char>;

    /// Whether the path's final component starts with a dot.
    fn is_hidden(&self) -> (r: bool)
        ensures
            r == (spec_basename(self.path_text()).len() > 0 && spec_basename(self.path_text())[0]
                == '.'),
    ;
}

impl IsHidden for String {
    open spec fn path_text(&self) -> Seq<char> {
        self@
    }

    fn is_hidden(&self) -> (r: bool) {
        let name = basename(self.as_str());
        let cs = chars_vec(name.as_str());
        if cs.len() == 0 {
            false
        } else {
            cs[0] == '.'
        }
    }
}

/// The byte with an ASCII capital letter lowered, any other byte as it is.
pub open spec fn ascii_lower_byte(b: u8) -> u8 {
    if 65 <= b && b <= 90 {
        (b + 32) as u8
    } else {
        b
    }
}

/// Whether the two byte sequences agree, after ASCII lowercasing, on every
/// position both of them have.
pub open spec fn spec_prefix_match(a: Seq<u8>, b: Seq<u8>) -> bool {
    forall|i: int|
        0 <= i < a.len() && i < b.len() ==> ascii_lower_byte(#[trigger] a[i]) == ascii_lower_byte(
            b[i],
        )
}

/// ASCII-case-insensitive prefix matching of file-name texts.
pub trait Prefix {
    /// The name's text.
    spec fn name_text(&self) -> Seq<char>;

    /// Whether this name starts with the other, comparing their UTF-8
    /// bytes with ASCII case folded, over the positions both names have.
    fn starts_with(&self, other: &Self) -> (r: bool)
        ensures
            r == spec_prefix_match(encode_utf8(self.name_text()), encode_utf8(other.name_text())),
    ;
}

impl Prefix for String {
    open spec fn name_text(&self) -> Seq<char> {
        self@
    }

    fn starts_with(&self, other: &String) -> (r: bool) {
        let a = self.as_str().as_bytes();
        let b = other.as_str().as_bytes();
        let n: usize = if a.len() <= b.len() {
            a.len()
        } else {
            b.len()
        };
        let mut i: usize = 0;
        while i < n
            invariant
                n <= a.len(),
                n <= b.len(),
                n == if a@.len() <= b@.len() {
                    a@.len()
                } else {
                    b@.len()
                },
                i <= n,
                a@ == encode_utf8(self.name_text()),
                b@ == encode_utf8(other.name_text()),
                forall|j: int|
                    0 <= j < i ==> ascii_lower_byte(#[trigger] a@[j]) == ascii_lower_byte(b@[j]),
            decreases n - i,
        {
            let x = *vstd::slice::slice_index_get(a, i);
            let y = *vstd::slice::slice_index_get(b, i);
            let xl: u8 = if 65 <= x && x <= 90 {
                x + 32
            } else {
                x
            };
            let yl: u8 = if 65 <= y && y <= 90 {
                y + 32
            } else {
                y
            };
            if xl != yl {
                assert(ascii_lower_byte(a@[i as int]) != ascii_lower_byte(b@[i as int]));
                return false;
            }
            i = i + 1;
        }
        true
    }
}

} // verus!
