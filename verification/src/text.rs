//! UTF-16 little-endian text encoding and the fixed 16-byte text field
//! that outbound reports carry at offsets 16..32.

use vstd::prelude::*;

verus! {

/// Number of bytes of the text field in an outbound report.
pub const TEXT_FIELD_LEN: usize = 16;

/// A sequence of `n` zero bytes.
pub open spec fn zeros(n: nat) -> Seq<u8> {
    Seq::new(n, |i: int| 0u8)
}

/// The UTF-16 code units of a single character: one unit for characters in
/// the basic multilingual plane, a surrogate pair (high unit first) for the
/// rest.
pub open spec fn utf16_units_of_char(c: char) -> Seq<u16> {
    let v = c as int;
    if v < 0x10000 {
        seq![v as u16]
    } else {
        seq![
            (0xD800 + (v - 0x10000) / 0x400) as u16,
            (0xDC00 + (v - 0x10000) % 0x400) as u16,
        ]
    }
}

/// The UTF-16 code units of a character sequence, in character order.
pub open spec fn utf16_units(s: Seq<char>) -> Seq<u16>
    decreases s.len(),
{
    if s.len() == 0 {
        Seq::empty()
    } else {
        utf16_units_of_char(s[0]) + utf16_units(s.drop_first())
    }
}

/// Little-endian serialization of 16-bit units: low byte before high byte.
pub open spec fn le_bytes(units: Seq<u16>) -> Seq<u8>
    decreases units.len(),
{
    if units.len() == 0 {
        Seq::empty()
    } else {
        seq![(units[0] as int % 256) as u8, (units[0] as int / 256) as u8]
            + le_bytes(units.drop_first())
    }
}

/// The 16-byte text field of a report: the UTF-16LE encoding of the text,
/// truncated to the first 16 bytes (8 code units) and zero-padded to
/// exactly 16 bytes.
pub open spec fn text_payload(s: Seq<char>) -> Seq<u8> {
    let b = le_bytes(utf16_units(s));
    if b.len() >= 16 {
        b.take(16)
    } else {
        b + zeros((16 - b.len()) as nat)
    }
}

/// The length-code byte for a text field: twice the code-unit count when
/// the text fits in one field (at most 8 units), else the given fallback
/// code.
pub open spec fn length_code(unit_count: nat, long_code: u8) -> u8 {
    if unit_count <= 8 {
        (2 * unit_count) as u8
    } else {
        long_code
    }
}

pub proof fn lemma_text_payload_len(s: Seq<char>)
    ensures
        text_payload(s).len() == 16,
{
}

pub proof fn lemma_utf16_units_concat(a: Seq<char>, b: Seq<char>)
    ensures
        utf16_units(a + b) == utf16_units(a) + utf16_units(b),
    decreases a.len(),
{
    if a.len() == 0 {
        assert(a + b =~= b);
        assert(utf16_units(a) + utf16_units(b) =~= utf16_units(b));
    } else {
        assert((a + b).drop_first() =~= a.drop_first() + b);
        lemma_utf16_units_concat(a.drop_first(), b);
        assert((a + b)[0] == a[0]);
        assert(utf16_units(a + b) =~= utf16_units(a) + utf16_units(b));
    }
}

pub proof fn lemma_le_bytes_concat(a: Seq<u16>, b: Seq<u16>)
    ensures
        le_bytes(a + b) == le_bytes(a) + le_bytes(b),
    decreases a.len(),
{
    if a.len() == 0 {
        assert(a + b =~= b);
        assert(le_bytes(a) + le_bytes(b) =~= le_bytes(b));
    } else {
        assert((a + b).drop_first() =~= a.drop_first() + b);
        lemma_le_bytes_concat(a.drop_first(), b);
        assert((a + b)[0] == a[0]);
        assert(le_bytes(a + b) =~= le_bytes(a) + le_bytes(b));
    }
}

pub proof fn lemma_utf16_units_single(c: char)
    ensures
        utf16_units(seq![c]) == utf16_units_of_char(c),
{
    assert(seq![c].drop_first() =~= Seq::<char>::empty());
    assert(utf16_units_of_char(c) + utf16_units(Seq::<char>::empty())
        =~= utf16_units_of_char(c));
}

pub proof fn lemma_le_bytes_single(u: u16)
    ensures
        le_bytes(seq![u]) == seq![(u as int % 256) as u8, (u as int / 256) as u8],
{
    assert(seq![u].drop_first() =~= Seq::<u16>::empty());
    assert(seq![(u as int % 256) as u8, (u as int / 256) as u8] + le_bytes(Seq::<u16>::empty())
        =~= seq![(u as int % 256) as u8, (u as int / 256) as u8]);
}

pub proof fn lemma_le_bytes_pair(a: u16, b: u16)
    ensures
        le_bytes(seq![a, b]) == seq![
            (a as int % 256) as u8,
            (a as int / 256) as u8,
            (b as int % 256) as u8,
            (b as int / 256) as u8,
        ],
{
    assert(seq![a, b] =~= seq![a] + seq![b]);
    lemma_le_bytes_concat(seq![a], seq![b]);
    lemma_le_bytes_single(a);
    lemma_le_bytes_single(b);
    assert(le_bytes(seq![a]) + le_bytes(seq![b]) =~= seq![
        (a as int % 256) as u8,
        (a as int / 256) as u8,
        (b as int % 256) as u8,
        (b as int / 256) as u8,
    ]);
}

pub proof fn lemma_le_bytes_len(units: Seq<u16>)
    ensures
        le_bytes(units).len() == 2 * units.len(),
    decreases units.len(),
{
    if units.len() > 0 {
        lemma_le_bytes_len(units.drop_first());
    }
}

/// The UTF-16LE encoding of a text, as a byte vector.
pub fn encode_utf16_le(text: &str) -> (r: Vec<u8>)
    ensures
        r@ == le_bytes(utf16_units(text@)),
{
    let n = text.unicode_len();
    let mut out: Vec<u8> = Vec::new();
    let mut i: usize = 0;
    while i < n
        invariant
            n == text@.len(),
            i <= n,
            out@ == le_bytes(utf16_units(text@.take(i as int))),
        decreases n - i,
    {
        let c = text.get_char(i);
        let ghost prefix = text@.take(i as int);
        let v = c as u32;
        if v < 0x10000 {
            let u = v as u16;
            out.push((u % 256) as u8);
            out.push((u / 256) as u8);
        } else {
            let off = v - 0x10000;
            let hi = (0xD800 + off / 0x400) as u16;
            let lo = (0xDC00 + off % 0x400) as u16;
            out.push((hi % 256) as u8);
            out.push((hi / 256) as u8);
            out.push((lo % 256) as u8);
            out.push((lo / 256) as u8);
        }
        proof {
            assert(text@.take((i + 1) as int) =~= prefix + seq![c]);
            lemma_utf16_units_concat(prefix, seq![c]);
            lemma_utf16_units_single(c);
            lemma_le_bytes_concat(utf16_units(prefix), utf16_units_of_char(c));
            if c as int >= 0x10000 {
                lemma_le_bytes_pair(
                    (0xD800 + (c as int - 0x10000) / 0x400) as u16,
                    (0xDC00 + (c as int - 0x10000) % 0x400) as u16,
                );
            } else {
                lemma_le_bytes_single(c as u16);
            }
        }
        i = i + 1;
    }
    proof {
        assert(text@.take(n as int) =~= text@);
    }
    out
}

/// The 16-byte text field for a text: UTF-16LE encoded, truncated to 16
/// bytes, zero-padded to 16 bytes.
pub fn make_text_payload(text: &str) -> (r: Vec<u8>)
    ensures
        r@ == text_payload(text@),
        r@.len() == 16,
{
    let encoded = encode_utf16_le(text);
    let mut out: Vec<u8> = Vec::new();
    let mut i: usize = 0;
    while i < 16
        invariant
            i <= 16,
            encoded@ == le_bytes(utf16_units(text@)),
            out@.len() == i,
            forall|j: int|
                0 <= j < i ==> out@[j] == (if j < encoded@.len() {
                    encoded@[j]
                } else {
                    0u8
                }),
        decreases 16 - i,
    {
        if i < encoded.len() {
            let b = encoded[i];
            out.push(b);
        } else {
            out.push(0u8);
        }
        i = i + 1;
    }
    proof {
        assert(out@ =~= text_payload(text@));
    }
    out
}

/// The number of UTF-16 code units a text encodes to.
pub fn utf16_unit_count(text: &str) -> (r: usize)
    ensures
        r == utf16_units(text@).len(),
{
    let encoded = encode_utf16_le(text);
    proof {
        lemma_le_bytes_len(utf16_units(text@));
    }
    encoded.len() / 2
}

} // verus!
