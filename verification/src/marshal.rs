//! Bounded string marshaling over caller-owned, fixed-capacity buffers.
//!
//! The host hands the plugin raw buffers of narrow bytes or wide UTF-16
//! units together with a byte capacity.  Reading scans for a terminator
//! within the capacity and treats an unterminated buffer as full content;
//! writing copies at most the capacity less one unit and always places a
//! terminator, so the destination ends null-terminated and nothing beyond
//! the capacity is touched.  Narrow content travels through the host's code
//! page converter; the two-pass size-then-convert protocol around that
//! primitive is assembled here from its reported sizes, fail-soft on every
//! failure.

use vstd::prelude::*;

use crate::text::{decode_utf16_units, encode_utf16_units, utf16_decode, utf16_encode};

verus! {

/// The smaller of two mathematical integers.
pub open spec fn spec_min(a: int, b: int) -> int {
    if a <= b {
        a
    } else {
        b
    }
}

/// Units before the first zero unit, or the whole length without one.
pub open spec fn content_len16(s: Seq<u16>) -> int
    decreases s.len(),
{
    if s.len() == 0 {
        0
    } else if s[0] == 0 {
        0
    } else {
        1 + content_len16(s.drop_first())
    }
}

/// Bytes before the first zero byte, or the whole length without one.
pub open spec fn content_len8(s: Seq<u8>) -> int
    decreases s.len(),
{
    if s.len() == 0 {
        0
    } else if s[0] == 0 {
        0
    } else {
        1 + content_len8(s.drop_first())
    }
}

/// The content of a wide buffer: its units up to the first terminator.
pub open spec fn content16(s: Seq<u16>) -> Seq<u16> {
    s.take(content_len16(s))
}

/// The content of a narrow buffer: its bytes up to the first terminator.
pub open spec fn content8(s: Seq<u8>) -> Seq<u8> {
    s.take(content_len8(s))
}

/// The content length is within the sequence and marks its first zero.
pub proof fn lemma_content_len16_props(s: Seq<u16>)
    ensures
        0 <= content_len16(s) <= s.len(),
        forall|j: int| 0 <= j < content_len16(s) ==> s[j] != 0,
        content_len16(s) < s.len() ==> s[content_len16(s)] == 0,
    decreases s.len(),
{
    if s.len() != 0 && s[0] != 0 {
        lemma_content_len16_props(s.drop_first());
        assert(forall|j: int| 0 < j < content_len16(s) ==> s[j] == s.drop_first()[j - 1]);
    }
}

/// A position with no zero before it, and a zero at it unless it is the
/// whole length, is the content length.
pub proof fn lemma_content_len16_at(s: Seq<u16>, i: int)
    requires
        0 <= i <= s.len(),
        forall|j: int| 0 <= j < i ==> s[j] != 0,
        i < s.len() ==> s[i] == 0,
    ensures
        content_len16(s) == i,
    decreases i,
{
    if i == 0 {
    } else {
        assert(s[0] != 0);
        assert(forall|j: int| 0 <= j < i - 1 ==> s.drop_first()[j] == s[j + 1]);
        assert(i - 1 < s.drop_first().len() ==> s.drop_first()[i - 1] == s[i]);
        lemma_content_len16_at(s.drop_first(), i - 1);
    }
}

/// As `lemma_content_len16_props`, for narrow bytes.
pub proof fn lemma_content_len8_props(s: Seq<u8>)
    ensures
        0 <= content_len8(s) <= s.len(),
        forall|j: int| 0 <= j < content_len8(s) ==> s[j] != 0,
        content_len8(s) < s.len() ==> s[content_len8(s)] == 0,
    decreases s.len(),
{
    if s.len() != 0 && s[0] != 0 {
        lemma_content_len8_props(s.drop_first());
        assert(forall|j: int| 0 < j < content_len8(s) ==> s[j] == s.drop_first()[j - 1]);
    }
}

/// As `lemma_content_len16_at`, for narrow bytes.
pub proof fn lemma_content_len8_at(s: Seq<u8>, i: int)
    requires
        0 <= i <= s.len(),
        forall|j: int| 0 <= j < i ==> s[j] != 0,
        i < s.len() ==> s[i] == 0,
    ensures
        content_len8(s) == i,
    decreases i,
{
    if i == 0 {
    } else {
        assert(s[0] != 0);
        assert(forall|j: int| 0 <= j < i - 1 ==> s.drop_first()[j] == s[j + 1]);
        assert(i - 1 < s.drop_first().len() ==> s.drop_first()[i - 1] == s[i]);
        lemma_content_len8_at(s.drop_first(), i - 1);
    }
}

/// Index of the first zero unit within `limit`, or `limit` without one.
fn scan_zero16(buf: &[u16], limit: usize) -> (r: usize)
    requires
        limit <= buf@.len(),
    ensures
        r == content_len16(buf@.take(limit as int)),
{
    let ghost t = buf@.take(limit as int);
    let mut i: usize = 0;
    while i < limit
        invariant
            i <= limit,
            limit <= buf@.len(),
            t == buf@.take(limit as int),
            forall|j: int| 0 <= j < i ==> buf@[j] != 0,
        decreases limit - i,
    {
        if buf[i] == 0 {
            proof {
                assert(forall|j: int| 0 <= j < i ==> t[j] == buf@[j]);
                lemma_content_len16_at(t, i as int);
            }
            return i;
        }
        i = i + 1;
    }
    proof {
        assert(forall|j: int| 0 <= j < limit ==> t[j] == buf@[j]);
        lemma_content_len16_at(t, limit as int);
    }
    limit
}

/// Index of the first zero byte within `limit`, or `limit` without one.
fn scan_zero8(buf: &[u8], limit: usize) -> (r: usize)
    requires
        limit <= buf@.len(),
    ensures
        r == content_len8(buf@.take(limit as int)),
{
    let ghost t = buf@.take(limit as int);
    let mut i: usize = 0;
    while i < limit
        invariant
            i <= limit,
            limit <= buf@.len(),
            t == buf@.take(limit as int),
            forall|j: int| 0 <= j < i ==> buf@[j] != 0,
        decreases limit - i,
    {
        if buf[i] == 0 {
            proof {
                assert(forall|j: int| 0 <= j < i ==> t[j] == buf@[j]);
                lemma_content_len8_at(t, i as int);
            }
            return i;
        }
        i = i + 1;
    }
    proof {
        assert(forall|j: int| 0 <= j < limit ==> t[j] == buf@[j]);
        lemma_content_len8_at(t, limit as int);
    }
    limit
}

/// What reading a wide buffer under a byte capacity returns: the capacity in
/// units rounded down, the units clipped to it, their content up to the
/// terminator, decoded.
pub open spec fn spec_read_wide(b: Seq<u16>, maxlen: int) -> Seq<char> {
    utf16_decode(content16(b.take(spec_min(maxlen / 2, b.len() as int))))
}

/// Reads text from a wide host buffer of at most `maxlen` bytes.  A missing
/// buffer reads as empty text; an unterminated one as full content.
pub fn pwstr_to_string(buf: Option<&[u16]>, maxlen: usize) -> (r: String)
    ensures
        buf is None ==> r@ == Seq::<char>::empty(),
        buf matches Some(b) ==> r@ == spec_read_wide(b@, maxlen as int),
{
    match buf {
        None => String::new(),
        Some(b) => {
            let units = maxlen / 2;
            let limit = if units <= b.len() {
                units
            } else {
                b.len()
            };
            let clen = scan_zero16(b, limit);
            proof {
                lemma_content_len16_props(b@.take(limit as int));
                assert(b@.subrange(0, clen as int) =~= content16(b@.take(limit as int)));
            }
            decode_utf16_units(&b[0..clen])
        },
    }
}

/// Reads text from a narrow host buffer, given the wide units the host's
/// code page converter produced for its content.  A missing buffer reads as
/// empty text; otherwise the converter's output, up to its terminator, is
/// decoded.
pub fn pstr_to_string(buf: Option<&[u8]>, converted: &[u16]) -> (r: String)
    ensures
        buf is None ==> r@ == Seq::<char>::empty(),
        buf is Some ==> r@ == utf16_decode(content16(converted@)),
{
    match buf {
        None => String::new(),
        Some(_) => {
            let clen = scan_zero16(converted, converted.len());
            proof {
                lemma_content_len16_props(converted@.take(converted@.len() as int));
                assert(converted@.take(converted@.len() as int) =~= converted@);
                assert(converted@.subrange(0, clen as int) =~= content16(converted@));
            }
            decode_utf16_units(&converted[0..clen])
        },
    }
}

/// The image of writing a payload into a buffer of `cap` units: at most
/// `cap - 1` payload units, one terminator, and the old units beyond it.
pub open spec fn written_image16(payload: Seq<u16>, orig: Seq<u16>, cap: int) -> Seq<u16>
    recommends
        orig.len() == cap,
        cap >= 1,
{
    let n = spec_min(payload.len() as int, cap - 1);
    payload.take(n) + seq![0u16] + orig.skip(n + 1)
}

/// As `written_image16`, for narrow bytes.
pub open spec fn written_image8(payload: Seq<u8>, orig: Seq<u8>, cap: int) -> Seq<u8>
    recommends
        orig.len() == cap,
        cap >= 1,
{
    let n = spec_min(payload.len() as int, cap - 1);
    payload.take(n) + seq![0u8] + orig.skip(n + 1)
}

/// A write stays within the capacity: the buffer keeps its length, the
/// terminator lands within the last writable slot, and every unit beyond it
/// is left as it was.
pub proof fn lemma_write_bounded16(payload: Seq<u16>, orig: Seq<u16>, cap: int)
    requires
        orig.len() == cap,
        cap >= 1,
    ensures
        written_image16(payload, orig, cap).len() == cap,
        written_image16(payload, orig, cap)[spec_min(payload.len() as int, cap - 1)] == 0,
        spec_min(payload.len() as int, cap - 1) <= cap - 1,
        forall|j: int|
            spec_min(payload.len() as int, cap - 1) < j < cap ==> written_image16(
                payload,
                orig,
                cap,
            )[j] == orig[j],
{
    let n = spec_min(payload.len() as int, cap - 1);
    let w = written_image16(payload, orig, cap);
    assert(w.len() == cap);
    assert(w[n] == 0);
    assert(forall|j: int| n < j < cap ==> w[j] == orig.skip(n + 1)[j - n - 1]);
    assert(forall|j: int| n < j < cap ==> orig.skip(n + 1)[j - n - 1] == orig[j]);
}

/// As `lemma_write_bounded16`, for narrow bytes.
pub proof fn lemma_write_bounded8(payload: Seq<u8>, orig: Seq<u8>, cap: int)
    requires
        orig.len() == cap,
        cap >= 1,
    ensures
        written_image8(payload, orig, cap).len() == cap,
        written_image8(payload, orig, cap)[spec_min(payload.len() as int, cap - 1)] == 0,
        spec_min(payload.len() as int, cap - 1) <= cap - 1,
        forall|j: int|
            spec_min(payload.len() as int, cap - 1) < j < cap ==> written_image8(
                payload,
                orig,
                cap,
            )[j] == orig[j],
{
    let n = spec_min(payload.len() as int, cap - 1);
    let w = written_image8(payload, orig, cap);
    assert(w.len() == cap);
    assert(w[n] == 0);
    assert(forall|j: int| n < j < cap ==> w[j] == orig.skip(n + 1)[j - n - 1]);
    assert(forall|j: int| n < j < cap ==> orig.skip(n + 1)[j - n - 1] == orig[j]);
}

/// Writes text into a wide buffer of `maxlen` bytes, so `maxlen / 2` units:
/// at most `maxlen / 2 - 1` units of the UTF-16 encoding, then a
/// terminator; every later unit is left as it was.  A capacity without room
/// for even the terminator leaves the buffer untouched.
pub fn string_to_pwstr(s: &str, buf: &mut Vec<u16>, maxlen: usize)
    requires
        old(buf)@.len() == maxlen / 2,
    ensures
        maxlen / 2 >= 1 ==> final(buf)@ == written_image16(
            utf16_encode(s@),
            old(buf)@,
            maxlen as int / 2,
        ),
        maxlen / 2 == 0 ==> final(buf)@ == old(buf)@,
{
    let cap = maxlen / 2;
    if cap == 0 {
        return;
    }
    let wide = encode_utf16_units(s);
    let n = if wide.len() <= cap - 1 {
        wide.len()
    } else {
        cap - 1
    };
    let mut i: usize = 0;
    while i < n
        invariant
            i <= n,
            n == spec_min(wide@.len() as int, cap - 1),
            cap >= 1,
            buf@.len() == cap,
            forall|j: int| 0 <= j < i ==> buf@[j] == wide@[j],
            forall|j: int| i <= j < cap ==> buf@[j] == old(buf)@[j],
        decreases n - i,
    {
        buf[i] = wide[i];
        i = i + 1;
    }
    buf[n] = 0;
    proof {
        assert(buf@ =~= written_image16(wide@, old(buf)@, cap as int));
    }
}

/// Writes converted narrow bytes into a narrow buffer of `maxlen` bytes: at
/// most `maxlen - 1` of them, then a terminator; every later byte is left
/// as it was.  A capacity of zero leaves the buffer untouched.
pub fn string_to_pstr(ansi: &[u8], buf: &mut Vec<u8>, maxlen: usize)
    requires
        old(buf)@.len() == maxlen,
    ensures
        maxlen >= 1 ==> final(buf)@ == written_image8(ansi@, old(buf)@, maxlen as int),
        maxlen == 0 ==> final(buf)@ == old(buf)@,
{
    if maxlen == 0 {
        return;
    }
    let n = if ansi.len() <= maxlen - 1 {
        ansi.len()
    } else {
        maxlen - 1
    };
    let mut i: usize = 0;
    while i < n
        invariant
            i <= n,
            n == spec_min(ansi@.len() as int, maxlen as int - 1),
            maxlen >= 1,
            buf@.len() == maxlen,
            n <= ansi@.len(),
            forall|j: int| 0 <= j < i ==> buf@[j] == ansi@[j],
            forall|j: int| i <= j < maxlen ==> buf@[j] == old(buf)@[j],
        decreases n - i,
    {
        buf[i] = ansi[i];
        i = i + 1;
    }
    buf[n] = 0;
    proof {
        assert(buf@ =~= written_image8(ansi@, old(buf)@, maxlen as int));
    }
}

/// The content of a narrow buffer before conversion, bounded by `maxlen`
/// bytes: what the first pass of the code page converter is given.
pub fn buffer_content8(buf: &[u8], maxlen: usize) -> (r: Vec<u8>)
    ensures
        r@ == content8(buf@.take(spec_min(maxlen as int, buf@.len() as int))),
{
    let limit = if maxlen <= buf.len() {
        maxlen
    } else {
        buf.len()
    };
    let clen = scan_zero8(buf, limit);
    proof {
        lemma_content_len8_props(buf@.take(limit as int));
    }
    let mut r: Vec<u8> = Vec::new();
    let mut i: usize = 0;
    while i < clen
        invariant
            i <= clen,
            clen <= limit <= buf@.len(),
            r@ == buf@.take(i as int),
        decreases clen - i,
    {
        r.push(buf[i]);
        proof {
            assert(r@ =~= buf@.take(i as int + 1));
        }
        i = i + 1;
    }
    proof {
        assert(buf@.take(clen as int) =~= content8(buf@.take(limit as int)));
    }
    r
}

/// The content of wide units before conversion, bounded by their length:
/// what the first pass of the code page converter is given.
pub fn buffer_content16(units: &[u16]) -> (r: Vec<u16>)
    ensures
        r@ == content16(units@),
{
    let clen = scan_zero16(units, units.len());
    proof {
        lemma_content_len16_props(units@.take(units@.len() as int));
        assert(units@.take(units@.len() as int) =~= units@);
    }
    let mut r: Vec<u16> = Vec::new();
    let mut i: usize = 0;
    while i < clen
        invariant
            i <= clen,
            clen <= units@.len(),
            r@ == units@.take(i as int),
        decreases clen - i,
    {
        r.push(units[i]);
        proof {
            assert(r@ =~= units@.take(i as int + 1));
        }
        i = i + 1;
    }
    proof {
        assert(units@.take(clen as int) =~= content16(units@));
    }
    r
}

/// The buffer the second conversion pass is to fill, from the size the
/// first pass reported: a non-positive report is a failure and yields
/// nothing, else room for the content and one terminator.
pub fn two_pass_output_size(required: i32) -> (r: Option<usize>)
    ensures
        required <= 0 ==> r is None,
        required > 0 ==> r == Some((required + 1) as usize),
{
    if required <= 0 {
        None
    } else {
        Some(required as usize + 1)
    }
}

/// Closes the two-pass conversion: a failed or out-of-range second pass
/// yields the single-terminator empty result, else the written units, one
/// terminator placed after them, truncated to content plus terminator.
pub fn finish_two_pass16(buffer: Vec<u16>, written: i32) -> (r: Vec<u16>)
    ensures
        written <= 0 || written >= buffer@.len() ==> r@ == seq![0u16],
        0 < written < buffer@.len() ==> r@ == buffer@.take(written as int) + seq![0u16],
        r@.len() >= 1,
        r@[r@.len() - 1] == 0,
{
    if written <= 0 {
        let mut r: Vec<u16> = Vec::new();
        r.push(0);
        proof {
            assert(r@ =~= seq![0u16]);
        }
        return r;
    }
    let w = written as usize;
    if w >= buffer.len() {
        let mut r: Vec<u16> = Vec::new();
        r.push(0);
        proof {
            assert(r@ =~= seq![0u16]);
        }
        return r;
    }
    let ghost b0 = buffer@;
    let mut buffer = buffer;
    buffer[w] = 0;
    buffer.truncate(w + 1);
    proof {
        assert(buffer@ =~= b0.take(w as int) + seq![0u16]);
        assert(buffer@[buffer@.len() - 1] == 0);
    }
    buffer
}

/// As `finish_two_pass16`, for the narrow direction.
pub fn finish_two_pass8(buffer: Vec<u8>, written: i32) -> (r: Vec<u8>)
    ensures
        written <= 0 || written >= buffer@.len() ==> r@ == seq![0u8],
        0 < written < buffer@.len() ==> r@ == buffer@.take(written as int) + seq![0u8],
        r@.len() >= 1,
        r@[r@.len() - 1] == 0,
{
    if written <= 0 {
        let mut r: Vec<u8> = Vec::new();
        r.push(0);
        proof {
            assert(r@ =~= seq![0u8]);
        }
        return r;
    }
    let w = written as usize;
    if w >= buffer.len() {
        let mut r: Vec<u8> = Vec::new();
        r.push(0);
        proof {
            assert(r@ =~= seq![0u8]);
        }
        return r;
    }
    let ghost b0 = buffer@;
    let mut buffer = buffer;
    buffer[w] = 0;
    buffer.truncate(w + 1);
    proof {
        assert(buffer@ =~= b0.take(w as int) + seq![0u8]);
        assert(buffer@[buffer@.len() - 1] == 0);
    }
    buffer
}

/// Narrow round trip up to the code page converter: converted bytes without
/// a zero, fitting below the terminator slot of a buffer of `maxlen` bytes,
/// are stored by a narrow write and recovered exactly by the narrow read's
/// scan.  What the converter itself makes of them depends on the host's
/// active code page and cannot be stated here.
pub proof fn lemma_narrow_store_round_trip(ansi: Seq<u8>, orig: Seq<u8>, maxlen: int)
    requires
        orig.len() == maxlen,
        maxlen >= 1,
        ansi.len() <= maxlen - 1,
        forall|j: int| 0 <= j < ansi.len() ==> ansi[j] != 0,
    ensures
        content8(written_image8(ansi, orig, maxlen)) == ansi,
{
    let n = spec_min(ansi.len() as int, maxlen - 1);
    assert(n == ansi.len());
    let w = written_image8(ansi, orig, maxlen);
    assert(forall|j: int| 0 <= j < n ==> w[j] == ansi[j]);
    assert(w[n] == 0);
    lemma_content_len8_at(w, n);
    assert(content8(w) =~= ansi);
}

/// Wide round trip: text without the NUL character, whose encoding fits
/// below the terminator slot of a buffer of `maxlen` bytes, is reproduced
/// exactly by a write followed by a read of that buffer.
pub proof fn lemma_wide_round_trip(s: Seq<char>, orig: Seq<u16>, maxlen: int)
    requires
        orig.len() == maxlen / 2,
        maxlen / 2 >= 1,
        utf16_encode(s).len() <= maxlen / 2 - 1,
        forall|i: int| 0 <= i < s.len() ==> s[i] != '\0',
    ensures
        spec_read_wide(written_image16(utf16_encode(s), orig, maxlen / 2), maxlen) == s,
{
    let cap = maxlen / 2;
    let e = utf16_encode(s);
    let n = spec_min(e.len() as int, cap - 1);
    assert(n == e.len());
    let w = written_image16(e, orig, cap);
    crate::text::lemma_utf16_encode_no_zero(s);
    assert(w.len() == cap);
    assert(w.take(spec_min(maxlen / 2, w.len() as int)) =~= w);
    assert(forall|j: int| 0 <= j < n ==> w[j] == e[j]);
    assert(w[n] == 0);
    lemma_content_len16_at(w, n);
    assert(content16(w) =~= e);
    crate::text::lemma_utf16_round_trip(s);
}

} // verus!
