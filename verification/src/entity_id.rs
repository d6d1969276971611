//! Entity identifiers as text: validation and normalization of the
//! 16-byte identifier's hexadecimal form. Accepted are the canonical
//! hyphenated form (8-4-4-4-12 digits) and the plain 32-digit form,
//! with digits in either case; the canonical output is hyphenated
//! lower case.

use vstd::prelude::*;
use crate::text::{char_expand, lemma_char_expand_snoc, string_push};

verus! {

/// Whether `c` is a hexadecimal digit, either case.
pub open spec fn is_hex_digit(c: char) -> bool {
    (48 <= c as u32 <= 57) || (97 <= c as u32 <= 102) || (65 <= c as u32 <= 70)
}

/// `c` with an upper-case hexadecimal digit folded to lower case.
pub open spec fn hex_lower(c: char) -> char {
    if 65 <= c as u32 <= 70 {
        (((c as u32) + 32) as u8) as char
    } else {
        c
    }
}

/// The positions of the hyphens in the canonical 36-character form.
pub open spec fn hyphen_pos(i: int) -> bool {
    i == 8 || i == 13 || i == 18 || i == 23
}

/// Whether `s` is a well-formed identifier: canonical hyphenated, or
/// plain 32 digits.
pub open spec fn valid_id_text(s: Seq<char>) -> bool {
    ||| (s.len() == 36 && forall|i: int|
        0 <= i < 36 ==> (if hyphen_pos(i) {
            (#[trigger] s[i]) == '-'
        } else {
            is_hex_digit(s[i])
        }))
    ||| (s.len() == 32 && forall|i: int| 0 <= i < 32 ==> is_hex_digit(#[trigger] s[i]))
}

/// The expansion step that drops hyphens and lowers digits.
pub open spec fn digit_step(c: char) -> Seq<char> {
    if c == '-' {
        Seq::empty()
    } else {
        seq![hex_lower(c)]
    }
}

/// The 32 digits of `s`, hyphens removed and folded to lower case.
pub open spec fn digits_of(s: Seq<char>) -> Seq<char> {
    char_expand(|c: char| digit_step(c), s)
}

/// The canonical form of a valid identifier text: its 32 lower-case
/// digits grouped 8-4-4-4-12 by hyphens.
pub open spec fn canonical_id(s: Seq<char>) -> Seq<char> {
    let d = digits_of(s);
    d.subrange(0, 8) + seq!['-'] + d.subrange(8, 12) + seq!['-'] + d.subrange(12, 16) + seq!['-']
        + d.subrange(16, 20) + seq!['-'] + d.subrange(20, 32)
}

/// How many hyphens of the canonical form lie before position `i`.
pub open spec fn hyphens_before(i: int) -> int {
    (if i > 8 {
        1int
    } else {
        0int
    }) + (if i > 13 {
        1int
    } else {
        0int
    }) + (if i > 18 {
        1int
    } else {
        0int
    }) + (if i > 23 {
        1int
    } else {
        0int
    })
}

/// Checks an identifier text and returns its canonical form: the
/// hyphenated lower-case spelling. Exactly the well-formed texts are
/// accepted; anything else returns `None`.
pub fn normalize_id(s: &str) -> (r: Option<String>)
    ensures
        r is Some <==> valid_id_text(s@),
        r matches Some(t) ==> t@ == canonical_id(s@),
{
    let ghost f = |c: char| digit_step(c);
    let len = s.unicode_len();
    if len != 36 && len != 32 {
        return None;
    }
    let hyphenated = len == 36;
    let mut low = String::new();
    let mut i: usize = 0;
    while i < len
        invariant
            len == s@.len(),
            len == 36 || len == 32,
            hyphenated == (len == 36),
            i <= len,
            f == (|c: char| digit_step(c)),
            low@ == char_expand(f, s@.take(i as int)),
            forall|j: int|
                0 <= j < i ==> (if hyphenated && hyphen_pos(j) {
                    (#[trigger] s@[j]) == '-'
                } else {
                    is_hex_digit(s@[j])
                }),
            hyphenated ==> low@.len() == i - hyphens_before(i as int),
            !hyphenated ==> low@.len() == i,
        decreases len - i,
    {
        let c = s.get_char(i);
        let ghost prev = low@;
        if hyphenated && (i == 8 || i == 13 || i == 18 || i == 23) {
            if c != '-' {
                return None;
            }
        } else {
            let v = c as u32;
            if !((48 <= v && v <= 57) || (97 <= v && v <= 102) || (65 <= v && v <= 70)) {
                return None;
            }
            let lc: char = if 65 <= v && v <= 70 {
                ((v + 32) as u8) as char
            } else {
                c
            };
            proof {
                assert(lc == hex_lower(c));
            }
            string_push(&mut low, lc);
        }
        proof {
            assert(low@ =~= prev + digit_step(c));
            assert(f(s@[i as int]) == digit_step(c));
            lemma_char_expand_snoc(f, s@, i as int);
            assert(low@ =~= char_expand(f, s@.take(i + 1)));
        }
        i = i + 1;
    }
    proof {
        assert(s@.take(len as int) =~= s@);
        assert(valid_id_text(s@));
        assert(low@ == digits_of(s@));
        assert(low@.len() == 32);
    }
    let ls = low.as_str();
    let mut out = String::new();
    out.append(ls.substring_char(0, 8));
    string_push(&mut out, '-');
    out.append(ls.substring_char(8, 12));
    string_push(&mut out, '-');
    out.append(ls.substring_char(12, 16));
    string_push(&mut out, '-');
    out.append(ls.substring_char(16, 20));
    string_push(&mut out, '-');
    out.append(ls.substring_char(20, 32));
    proof {
        assert(out@ =~= canonical_id(s@));
    }
    Some(out)
}

} // verus!
