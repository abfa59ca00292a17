//! UTF-16 encoding and decoding of text.
//!
//! The wide side of the marshaling layer exchanges UTF-16 code units with the
//! host.  Encoding maps each character to one unit in the basic plane or to a
//! surrogate pair above it; decoding is total and substitutes a replacement
//! marker for every ill-formed unit, so a truncated or corrupted host buffer
//! still decodes to some text.

use vstd::prelude::*;
use vstd::utf8::{char_is_scalar, char_u32_cast, is_scalar};

verus! {

/// A unit that opens a surrogate pair.
pub open spec fn is_lead_surrogate(u: u16) -> bool {
    0xD800 <= u < 0xDC00
}

/// A unit that closes a surrogate pair.
pub open spec fn is_trail_surrogate(u: u16) -> bool {
    0xDC00 <= u < 0xE000
}

/// A unit reserved for surrogate pairs, never a character of its own.
pub open spec fn is_surrogate(u: u16) -> bool {
    0xD800 <= u < 0xE000
}

/// The UTF-16 units of one character: the character's own value in the basic
/// plane, a lead and a trail surrogate above it.
pub open spec fn utf16_encode_char(c: char) -> Seq<u16> {
    let v = c as u32;
    if v < 0x10000 {
        seq![v as u16]
    } else {
        seq![
            (0xD800 + (v - 0x10000) / 0x400) as u16,
            (0xDC00 + (v - 0x10000) % 0x400) as u16,
        ]
    }
}

/// The UTF-16 encoding of a character sequence.
pub open spec fn utf16_encode(s: Seq<char>) -> Seq<u16>
    decreases s.len(),
{
    if s.len() == 0 {
        Seq::empty()
    } else {
        utf16_encode_char(s[0]) + utf16_encode(s.drop_first())
    }
}

/// How many units the first decoded character consumes: two for a complete
/// surrogate pair, one otherwise.
pub open spec fn utf16_step(u: Seq<u16>) -> int
    recommends
        u.len() > 0,
{
    if is_lead_surrogate(u[0]) && u.len() >= 2 && is_trail_surrogate(u[1]) {
        2
    } else {
        1
    }
}

/// The first decoded character: a basic-plane unit stands for itself, a
/// complete surrogate pair combines, and any lone surrogate becomes the
/// replacement marker.
pub open spec fn utf16_first_char(u: Seq<u16>) -> char
    recommends
        u.len() > 0,
{
    if !is_surrogate(u[0]) {
        (u[0] as u32) as char
    } else if is_lead_surrogate(u[0]) && u.len() >= 2 && is_trail_surrogate(u[1]) {
        ((0x10000 + (u[0] - 0xD800) * 0x400 + (u[1] - 0xDC00)) as u32) as char
    } else {
        '\u{FFFD}'
    }
}

/// The total UTF-16 decoding of a unit sequence, with replacement for every
/// ill-formed unit.
pub open spec fn utf16_decode(u: Seq<u16>) -> Seq<char>
    decreases u.len(),
{
    if u.len() == 0 {
        Seq::empty()
    } else {
        seq![utf16_first_char(u)] + utf16_decode(u.skip(utf16_step(u)))
    }
}

/// Encoding distributes over concatenation.
pub proof fn lemma_utf16_encode_concat(a: Seq<char>, b: Seq<char>)
    ensures
        utf16_encode(a + b) == utf16_encode(a) + utf16_encode(b),
    decreases a.len(),
{
    if a.len() == 0 {
        assert(a + b =~= b);
        assert(utf16_encode(a) + utf16_encode(b) =~= utf16_encode(b));
    } else {
        lemma_utf16_encode_concat(a.drop_first(), b);
        assert((a + b).len() > 0);
        assert((a + b)[0] == a[0]);
        assert((a + b).drop_first() =~= a.drop_first() + b);
        assert(utf16_encode(a + b) =~= utf16_encode_char(a[0]) + utf16_encode(a.drop_first())
            + utf16_encode(b));
        assert(utf16_encode(a) + utf16_encode(b) =~= utf16_encode_char(a[0]) + utf16_encode(
            a.drop_first(),
        ) + utf16_encode(b));
    }
}

/// Encoding a single character yields that character's units.
pub proof fn lemma_utf16_encode_one(c: char)
    ensures
        utf16_encode(seq![c]) == utf16_encode_char(c),
{
    assert(seq![c].len() == 1);
    assert(seq![c][0] == c);
    assert(seq![c].drop_first() =~= Seq::<char>::empty());
    assert(utf16_encode(Seq::<char>::empty()) =~= Seq::<u16>::empty());
    assert(utf16_encode(seq![c]) =~= utf16_encode_char(c) + Seq::<u16>::empty());
    assert(utf16_encode_char(c) + Seq::<u16>::empty() =~= utf16_encode_char(c));
}

/// Extending the encoded prefix by one character appends that character's
/// units.
pub proof fn lemma_utf16_encode_take_step(t: Seq<char>, i: int)
    requires
        0 <= i < t.len(),
    ensures
        utf16_encode(t.take(i + 1)) == utf16_encode(t.take(i)) + utf16_encode_char(t[i]),
{
    assert(t.take(i + 1) =~= t.take(i) + seq![t[i]]);
    lemma_utf16_encode_concat(t.take(i), seq![t[i]]);
    lemma_utf16_encode_one(t[i]);
}

/// Encodes text as UTF-16 units, without any terminator.
pub fn encode_utf16_units(s: &str) -> (r: Vec<u16>)
    ensures
        r@ == utf16_encode(s@),
{
    let n = s.unicode_len();
    let mut r: Vec<u16> = Vec::new();
    let mut i: usize = 0;
    while i < n
        invariant
            i <= n,
            n == s@.len(),
            r@ == utf16_encode(s@.take(i as int)),
        decreases n - i,
    {
        let c = s.get_char(i);
        let v = c as u32;
        proof {
            char_is_scalar(c);
        }
        if v < 0x10000 {
            r.push(v as u16);
        } else {
            let w = v - 0x10000;
            assert(w <= 0xFFFFF);
            assert(w / 0x400 <= 0x3FF) by (nonlinear_arith)
                requires
                    w <= 0xFFFFF,
            ;
            r.push(0xD800 + (w / 0x400) as u16);
            r.push(0xDC00 + (w % 0x400) as u16);
        }
        proof {
            lemma_utf16_encode_take_step(s@, i as int);
            assert(r@ =~= utf16_encode(s@.take(i as int)) + utf16_encode_char(s@[i as int]));
        }
        i = i + 1;
    }
    proof {
        assert(s@.take(n as int) =~= s@);
    }
    r
}

/// Relies on char::from_u32: every Unicode scalar value converts, to itself,
/// and no surrogate or out-of-range value does.
pub assume_specification[ char::from_u32 ](v: u32) -> (r: Option<char>)
    ensures
        r is Some <==> is_scalar(v),
        r matches Some(c) ==> c as u32 == v,
;

/// Relies on String::push: appends the given character to the end of the
/// string.
pub assume_specification[ String::push ](s: &mut String, c: char)
    ensures
        final(s)@ == old(s)@.push(c),
;

/// Decodes UTF-16 units into text, replacing every ill-formed unit.
pub fn decode_utf16_units(units: &[u16]) -> (r: String)
    ensures
        r@ == utf16_decode(units@),
{
    let n = units.len();
    let mut r = String::new();
    let mut i: usize = 0;
    proof {
        assert(units@.skip(0) =~= units@);
        assert(r@ + utf16_decode(units@) =~= utf16_decode(units@));
    }
    while i < n
        invariant
            i <= n,
            n == units@.len(),
            r@ + utf16_decode(units@.skip(i as int)) == utf16_decode(units@),
        decreases n - i,
    {
        let ghost rest = units@.skip(i as int);
        let ghost r0 = r@;
        assert(rest.len() > 0);
        assert(rest[0] == units@[i as int]);
        let w = units[i];
        let c: char;
        let step: usize;
        if w < 0xD800 || w >= 0xE000 {
            assert(is_scalar(w as u32));
            c = char::from_u32(w as u32).unwrap();
            step = 1;
            proof {
                char_u32_cast(c, w as u32);
                assert(!is_surrogate(rest[0]));
                assert(utf16_step(rest) == 1);
                assert(utf16_first_char(rest) == c);
            }
        } else if w < 0xDC00 && i + 1 < n && 0xDC00 <= units[i + 1] && units[i + 1] < 0xE000 {
            assert(rest.len() >= 2 && rest[1] == units@[i as int + 1]);
            let w2 = units[i + 1];
            proof {
                assert((w as u32 - 0xD800) * 0x400 <= 0x3FF * 0x400) by (nonlinear_arith)
                    requires
                        w as u32 - 0xD800 <= 0x3FF,
                ;
            }
            let v = 0x10000 + (w as u32 - 0xD800) * 0x400 + (w2 as u32 - 0xDC00);
            assert(is_scalar(v));
            c = char::from_u32(v).unwrap();
            step = 2;
            proof {
                char_u32_cast(c, v);
                assert(is_lead_surrogate(rest[0]) && is_trail_surrogate(rest[1]));
                assert(utf16_step(rest) == 2);
                assert(utf16_first_char(rest) == c);
            }
        } else {
            c = '\u{FFFD}';
            step = 1;
            proof {
                assert(is_surrogate(rest[0]));
                assert(!(is_lead_surrogate(rest[0]) && rest.len() >= 2 && is_trail_surrogate(
                    rest[1],
                )));
                assert(utf16_step(rest) == 1);
                assert(utf16_first_char(rest) == c);
            }
        }
        r.push(c);
        proof {
            assert(r@ =~= r0 + seq![c]);
            assert(rest.skip(step as int) =~= units@.skip(i as int + step as int));
            assert(utf16_decode(rest) == seq![c] + utf16_decode(units@.skip(i as int + step as int)));
            assert(r0 + seq![c] + utf16_decode(units@.skip(i as int + step as int)) =~= r0 + (
            seq![c] + utf16_decode(units@.skip(i as int + step as int))));
        }
        i = i + step;
    }
    proof {
        assert(units@.skip(n as int) =~= Seq::<u16>::empty());
        assert(r@ + Seq::<char>::empty() =~= r@);
    }
    r
}

/// Decoding the encoding of any text returns that text.
pub proof fn lemma_utf16_round_trip(s: Seq<char>)
    ensures
        utf16_decode(utf16_encode(s)) == s,
    decreases s.len(),
{
    if s.len() == 0 {
        assert(utf16_decode(utf16_encode(s)) =~= s);
    } else {
        let c = s[0];
        let v = c as u32;
        let u = utf16_encode(s);
        let rest = utf16_encode(s.drop_first());
        char_is_scalar(c);
        char_u32_cast(c, v);
        lemma_utf16_round_trip(s.drop_first());
        if v < 0x10000 {
            assert(u =~= seq![v as u16] + rest);
            assert(u[0] == v as u16);
            assert(!is_surrogate(u[0]));
            assert(utf16_step(u) == 1);
            assert(u[0] as u32 == v);
            assert(utf16_first_char(u) == c);
            assert(u.skip(1) =~= rest);
            assert(utf16_decode(u) =~= seq![c] + s.drop_first());
            assert(seq![c] + s.drop_first() =~= s);
        } else {
            let w = v - 0x10000;
            let hi = (0xD800 + w / 0x400) as u16;
            let lo = (0xDC00 + w % 0x400) as u16;
            assert(0 <= w <= 0xFFFFF);
            assert(0 <= w / 0x400 <= 0x3FF) by (nonlinear_arith)
                requires
                    0 <= w <= 0xFFFFF,
            ;
            assert(u =~= seq![hi, lo] + rest);
            assert(is_lead_surrogate(hi));
            assert(is_trail_surrogate(lo));
            assert(utf16_step(u) == 2);
            assert(hi - 0xD800 == w / 0x400);
            assert(lo - 0xDC00 == w % 0x400);
            vstd::arithmetic::div_mod::lemma_fundamental_div_mod(w, 0x400);
            assert(0x10000 + (hi - 0xD800) * 0x400 + (lo - 0xDC00) == v);
            assert(utf16_first_char(u) == c);
            assert(u.skip(2) =~= rest);
            assert(utf16_decode(u) =~= seq![c] + s.drop_first());
            assert(seq![c] + s.drop_first() =~= s);
        }
    }
}

/// Text without the NUL character encodes without zero units, so a scan for
/// a terminator never cuts it short.
pub proof fn lemma_utf16_encode_no_zero(s: Seq<char>)
    requires
        forall|i: int| 0 <= i < s.len() ==> s[i] != '\0',
    ensures
        forall|j: int| 0 <= j < utf16_encode(s).len() ==> utf16_encode(s)[j] != 0,
    decreases s.len(),
{
    if s.len() > 0 {
        let c = s[0];
        let v = c as u32;
        char_is_scalar(c);
        char_u32_cast(c, v);
        assert(forall|i: int| 0 <= i < s.drop_first().len() ==> s.drop_first()[i] != '\0');
        lemma_utf16_encode_no_zero(s.drop_first());
        assert(v != 0) by {
            if v == 0 {
                assert('\0' as u32 == 0);
                char_u32_cast('\0', 0);
                assert(c == '\0');
            }
        }
        if v < 0x10000 {
            assert(utf16_encode_char(c) =~= seq![v as u16]);
            assert(v as u16 != 0);
        } else {
            assert(utf16_encode_char(c)[0] >= 0xD800);
            assert(utf16_encode_char(c)[1] >= 0xDC00);
        }
        assert(forall|j: int| 0 <= j < utf16_encode(s).len() ==> utf16_encode(s)[j]
            == if j < utf16_encode_char(c).len() {
                utf16_encode_char(c)[j]
            } else {
                utf16_encode(s.drop_first())[j - utf16_encode_char(c).len()]
            });
    }
}

} // verus!
