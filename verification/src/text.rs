//! Character and string helpers: Unicode whitespace classification (the
//! `White_Space` property, as `str::trim` uses it) and string equality.

use vstd::prelude::*;
use vstd::string::StrSliceExecFns;

verus! {

/// A character with the Unicode `White_Space` property. These are exactly the
/// characters that `str::trim` removes, so a text node is dropped by the
/// extractor precisely when every character in it satisfies this predicate.
pub open spec fn spec_whitespace_char(c: char) -> bool {
    ||| c as u32 == 0x09
    ||| c as u32 == 0x0A
    ||| c as u32 == 0x0B
    ||| c as u32 == 0x0C
    ||| c as u32 == 0x0D
    ||| c as u32 == 0x20
    ||| c as u32 == 0x85
    ||| c as u32 == 0xA0
    ||| c as u32 == 0x1680
    ||| (0x2000 <= c as u32 && c as u32 <= 0x200A)
    ||| c as u32 == 0x2028
    ||| c as u32 == 0x2029
    ||| c as u32 == 0x202F
    ||| c as u32 == 0x205F
    ||| c as u32 == 0x3000
}

/// A string made of whitespace only (the empty string included): such a text
/// node contributes nothing to the extracted output.
pub open spec fn whitespace_only(s: Seq<char>) -> bool {
    forall|i: int| 0 <= i < s.len() ==> spec_whitespace_char(#[trigger] s[i])
}

pub fn whitespace_char(c: char) -> (r: bool)
    ensures
        r == spec_whitespace_char(c),
{
    let u = c as u32;
    u == 0x09 || u == 0x0A || u == 0x0B || u == 0x0C || u == 0x0D || u == 0x20 || u == 0x85
        || u == 0xA0 || u == 0x1680 || (0x2000 <= u && u <= 0x200A) || u == 0x2028 || u == 0x2029
        || u == 0x202F || u == 0x205F || u == 0x3000
}

/// Whether every character of `s` is whitespace; true for the empty string.
pub fn is_whitespace_only(s: &str) -> (r: bool)
    ensures
        r == whitespace_only(s@),
{
    let n = s.unicode_len();
    let mut i: usize = 0;
    while i < n
        invariant
            n == s@.len(),
            0 <= i <= n,
            forall|j: int| 0 <= j < i ==> spec_whitespace_char(#[trigger] s@[j]),
        decreases n - i,
    {
        let c = s.get_char(i);
        if !whitespace_char(c) {
            return false;
        }
        i += 1;
    }
    true
}

/// Relies on `str`'s `PartialEq`: two string slices compare equal exactly when
/// their character contents are equal.
#[verifier::external_body]
pub(crate) fn str_eq(a: &str, b: &str) -> (r: bool)
    ensures
        r == (a@ == b@),
{
    a == b
}

} // verus!
