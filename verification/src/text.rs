//! Plain-text helpers shared by the codec, the serializer and the
//! repository front-ends: decimal rendering of integers, JSON string
//! escaping and `LIKE`-pattern sanitization.

use vstd::prelude::*;

verus! {

/// The character for a single decimal or hexadecimal digit value.
pub open spec fn digit_char(d: int) -> char {
    if d < 10 {
        ((48 + d) as u8) as char
    } else {
        ((87 + d) as u8) as char
    }
}

/// Decimal digits of `n`, most significant first, empty for zero.
pub open spec fn dec_digits_aux(n: nat) -> Seq<char>
    decreases n,
{
    if n == 0 {
        Seq::empty()
    } else {
        dec_digits_aux(n / 10).push(digit_char((n % 10) as int))
    }
}

/// Canonical decimal text of a natural number (`"0"` for zero).
pub open spec fn dec_digits(n: nat) -> Seq<char> {
    if n == 0 {
        seq!['0']
    } else {
        dec_digits_aux(n)
    }
}

/// Canonical decimal text of an integer, `'-'`-prefixed when negative.
pub open spec fn int_digits(i: int) -> Seq<char> {
    if i < 0 {
        seq!['-'] + dec_digits((-i) as nat)
    } else {
        dec_digits(i as nat)
    }
}

/// Expansion of each character of `s` through `f`, concatenated in order.
pub open spec fn char_expand(f: spec_fn(char) -> Seq<char>, s: Seq<char>) -> Seq<char>
    decreases s.len(),
{
    if s.len() == 0 {
        Seq::empty()
    } else {
        f(s[0]) + char_expand(f, s.skip(1))
    }
}

/// `char_expand` distributes over concatenation.
pub proof fn lemma_char_expand_concat(f: spec_fn(char) -> Seq<char>, a: Seq<char>, b: Seq<char>)
    ensures
        char_expand(f, a + b) == char_expand(f, a) + char_expand(f, b),
    decreases a.len(),
{
    if a.len() == 0 {
        assert(a + b =~= b);
        assert(char_expand(f, a) + char_expand(f, b) =~= char_expand(f, b));
    } else {
        lemma_char_expand_concat(f, a.skip(1), b);
        assert((a + b).skip(1) =~= a.skip(1) + b);
        assert(f(a[0]) + (char_expand(f, a.skip(1)) + char_expand(f, b)) =~= (f(a[0])
            + char_expand(f, a.skip(1))) + char_expand(f, b));
    }
}

/// Expanding one more character appends that character's expansion.
pub proof fn lemma_char_expand_snoc(f: spec_fn(char) -> Seq<char>, s: Seq<char>, i: int)
    requires
        0 <= i < s.len(),
    ensures
        char_expand(f, s.take(i + 1)) == char_expand(f, s.take(i)) + f(s[i]),
{
    let single = seq![s[i]];
    assert(s.take(i + 1) =~= s.take(i) + single);
    lemma_char_expand_concat(f, s.take(i), single);
    assert(single.len() == 1);
    assert(single.skip(1) =~= Seq::<char>::empty());
    assert(char_expand(f, single) == f(single[0]) + char_expand(f, single.skip(1)));
    assert(char_expand(f, Seq::<char>::empty()) == Seq::<char>::empty());
    assert(f(s[i]) + Seq::<char>::empty() =~= f(s[i]));
}

/// How one character is written inside a JSON string: quote and backslash
/// get a backslash escape, the control characters their usual short forms,
/// any other control character a `\u00XX` escape, everything else itself.
pub open spec fn json_escape_char(c: char) -> Seq<char> {
    if c == '"' {
        seq!['\\', '"']
    } else if c == '\\' {
        seq!['\\', '\\']
    } else if c == '\u{8}' {
        seq!['\\', 'b']
    } else if c == '\u{c}' {
        seq!['\\', 'f']
    } else if c == '\n' {
        seq!['\\', 'n']
    } else if c == '\r' {
        seq!['\\', 'r']
    } else if c == '\t' {
        seq!['\\', 't']
    } else if (c as u32) < 32 {
        seq!['\\', 'u', '0', '0', digit_char((c as u32) as int / 16), digit_char(
            (c as u32) as int % 16,
        )]
    } else {
        seq![c]
    }
}

/// The body of a JSON string literal holding the text `s`.
pub open spec fn json_escaped(s: Seq<char>) -> Seq<char> {
    char_expand(|c: char| json_escape_char(c), s)
}

/// How one character is written inside a SQL `LIKE` pattern so that it
/// only matches itself: the wildcards `%` and `_` get a backslash escape.
pub open spec fn like_escape_char(c: char) -> Seq<char> {
    if c == '%' {
        seq!['\\', '%']
    } else if c == '_' {
        seq!['\\', '_']
    } else {
        seq![c]
    }
}

/// `s` with every `LIKE` wildcard escaped.
pub open spec fn like_escaped(s: Seq<char>) -> Seq<char> {
    char_expand(|c: char| like_escape_char(c), s)
}

/// Relies on `alloc::string::String::push`: appends the character to the
/// end of the string.
#[verifier::external_body]
pub fn string_push(s: &mut String, c: char)
    ensures
        final(s)@ == old(s)@.push(c),
{
    s.push(c)
}

/// The decimal text of a `u64`, e.g. `"0"`, `"42"`.
pub fn u64_to_dec_string(n: u64) -> (r: String)
    ensures
        r@ == dec_digits(n as nat),
{
    if n == 0 {
        let r = String::from_str("0");
        proof {
            reveal_strlit("0");
            assert(r@ =~= dec_digits(0));
        }
        return r;
    }
    let mut digits: Vec<char> = Vec::new();
    let mut m = n;
    while m > 0
        invariant
            dec_digits_aux(n as nat) == dec_digits_aux(m as nat) + digits@,
        decreases m,
    {
        let d: u8 = (m % 10) as u8;
        let c: char = (48 + d) as char;
        proof {
            assert(c == digit_char((m % 10) as int));
            assert(dec_digits_aux((m / 10) as nat).push(c) =~= dec_digits_aux((m / 10) as nat)
                + seq![c]);
            assert(dec_digits_aux((m / 10) as nat) + (seq![c] + digits@) =~= (dec_digits_aux(
                (m / 10) as nat,
            ) + seq![c]) + digits@);
        }
        digits.insert(0, c);
        m = m / 10;
    }
    assert(digits@ =~= dec_digits_aux(n as nat));
    let mut out = String::new();
    let mut j: usize = 0;
    while j < digits.len()
        invariant
            j <= digits@.len(),
            out@ == digits@.take(j as int),
        decreases digits@.len() - j,
    {
        string_push(&mut out, digits[j]);
        proof {
            assert(digits@.take(j + 1) =~= digits@.take(j as int).push(digits@[j as int]));
        }
        j = j + 1;
    }
    assert(out@ =~= digits@);
    out
}

/// The decimal text of an `i64`, `'-'`-prefixed when negative.
pub fn i64_to_dec_string(i: i64) -> (r: String)
    ensures
        r@ == int_digits(i as int),
{
    if i >= 0 {
        u64_to_dec_string(i as u64)
    } else {
        let m: u64 = (-(i as i128)) as u64;
        let mut out = String::from_str("-");
        proof {
            reveal_strlit("-");
        }
        let tail = u64_to_dec_string(m);
        out.append(tail.as_str());
        proof {
            assert(out@ =~= seq!['-'] + dec_digits(m as nat));
        }
        out
    }
}

/// The body of a JSON string literal holding the text of `s`.
pub fn json_escape(s: &str) -> (r: String)
    ensures
        r@ == json_escaped(s@),
{
    let ghost f = |c: char| json_escape_char(c);
    let len = s.unicode_len();
    let mut out = String::new();
    let mut i: usize = 0;
    while i < len
        invariant
            len == s@.len(),
            i <= len,
            f == (|c: char| json_escape_char(c)),
            out@ == char_expand(f, s@.take(i as int)),
        decreases len - i,
    {
        let c = s.get_char(i);
        let ghost prev = out@;
        if c == '"' {
            string_push(&mut out, '\\');
            string_push(&mut out, '"');
        } else if c == '\\' {
            string_push(&mut out, '\\');
            string_push(&mut out, '\\');
        } else if c == '\u{8}' {
            string_push(&mut out, '\\');
            string_push(&mut out, 'b');
        } else if c == '\u{c}' {
            string_push(&mut out, '\\');
            string_push(&mut out, 'f');
        } else if c == '\n' {
            string_push(&mut out, '\\');
            string_push(&mut out, 'n');
        } else if c == '\r' {
            string_push(&mut out, '\\');
            string_push(&mut out, 'r');
        } else if c == '\t' {
            string_push(&mut out, '\\');
            string_push(&mut out, 't');
        } else if (c as u32) < 32 {
            let v: u32 = c as u32;
            string_push(&mut out, '\\');
            string_push(&mut out, 'u');
            string_push(&mut out, '0');
            string_push(&mut out, '0');
            string_push(&mut out, (48 + (v / 16) as u8) as char);
            let low: u8 = (v % 16) as u8;
            let low_c: char = if low < 10 {
                (48 + low) as char
            } else {
                (87 + low) as char
            };
            string_push(&mut out, low_c);
            proof {
                assert((48 + (v / 16) as u8) as char == digit_char((c as u32) as int / 16));
                assert(low_c == digit_char((c as u32) as int % 16));
            }
        } else {
            string_push(&mut out, c);
        }
        proof {
            assert(out@ =~= prev + json_escape_char(c));
            assert(f(s@[i as int]) == json_escape_char(c));
            lemma_char_expand_snoc(f, s@, i as int);
            assert(out@ =~= char_expand(f, s@.take(i + 1)));
        }
        i = i + 1;
    }
    assert(s@.take(len as int) =~= s@);
    out
}

/// A JSON string literal holding the text `s`.
pub open spec fn json_string(s: Seq<char>) -> Seq<char> {
    seq!['"'] + json_escaped(s) + seq!['"']
}

/// Renders a JSON string literal holding the text of `s`.
pub fn json_string_exec(s: &str) -> (r: String)
    ensures
        r@ == json_string(s@),
{
    let mut out = String::new();
    string_push(&mut out, '"');
    let body = json_escape(s);
    out.append(body.as_str());
    string_push(&mut out, '"');
    proof {
        assert(out@ =~= json_string(s@));
    }
    out
}

/// `input` with the SQL `LIKE` wildcards `%` and `_` escaped by a
/// backslash, so that a search string is matched literally.
pub fn sanitize_like(input: &str) -> (r: String)
    ensures
        r@ == like_escaped(input@),
{
    let ghost f = |c: char| like_escape_char(c);
    let len = input.unicode_len();
    let mut out = String::new();
    let mut i: usize = 0;
    while i < len
        invariant
            len == input@.len(),
            i <= len,
            f == (|c: char| like_escape_char(c)),
            out@ == char_expand(f, input@.take(i as int)),
        decreases len - i,
    {
        let c = input.get_char(i);
        let ghost prev = out@;
        if c == '%' {
            string_push(&mut out, '\\');
            string_push(&mut out, '%');
        } else if c == '_' {
            string_push(&mut out, '\\');
            string_push(&mut out, '_');
        } else {
            string_push(&mut out, c);
        }
        proof {
            assert(out@ =~= prev + like_escape_char(c));
            assert(f(input@[i as int]) == like_escape_char(c));
            lemma_char_expand_snoc(f, input@, i as int);
            assert(out@ =~= char_expand(f, input@.take(i + 1)));
        }
        i = i + 1;
    }
    assert(input@.take(len as int) =~= input@);
    out
}

} // verus!
