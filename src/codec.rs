//! Hex and modhex text encodings of byte sequences.

use vstd::prelude::*;

verus! {

/// Decoding failed: the text has odd length or holds a character that is not a hex digit.
#[derive(Debug, Clone, Copy, PartialEq, Eq, Structural)]
pub enum CodecError {
    MalformedHex,
}

/// The lowercase hex digit of a nibble.
pub open spec fn hex_char(v: u8) -> char {
    if v < 10 {
        ((48 + v) as u8) as char
    } else {
        ((87 + v) as u8) as char
    }
}

/// Two lowercase hex digits per byte, most significant nibble first.
pub open spec fn hex_of(b: Seq<u8>) -> Seq<char> {
    Seq::new(
        2 * b.len(),
        |i: int| if i % 2 == 0 { hex_char(b[i / 2] >> 4u8) } else { hex_char(b[i / 2] & 0x0fu8) },
    )
}

/// Whether `c` is one of `0-9`, `a-f`, `A-F`.
pub open spec fn is_hex_digit(c: char) -> bool {
    ('0' <= c && c <= '9') || ('a' <= c && c <= 'f') || ('A' <= c && c <= 'F')
}

/// The nibble that a hex digit stands for, either case.
pub open spec fn hex_value(c: char) -> u8 {
    if '0' <= c && c <= '9' {
        (c as u32 - 48) as u8
    } else if 'a' <= c && c <= 'f' {
        (c as u32 - 87) as u8
    } else {
        (c as u32 - 55) as u8
    }
}

/// Text that decodes: even length and hex digits only.
pub open spec fn is_valid_hex(s: Seq<char>) -> bool {
    s.len() % 2 == 0 && forall|i: int| 0 <= i < s.len() ==> is_hex_digit(#[trigger] s[i])
}

/// The bytes that valid hex text stands for.
pub open spec fn bytes_of_hex(s: Seq<char>) -> Seq<u8> {
    Seq::new(s.len() / 2, |i: int| (hex_value(s[2 * i]) * 16 + hex_value(s[2 * i + 1])) as u8)
}

/// The modhex alphabet, indexed by nibble.
pub open spec fn modhex_alphabet() -> Seq<char> {
    seq!['c', 'b', 'd', 'e', 'f', 'g', 'h', 'i', 'j', 'k', 'l', 'n', 'r', 't', 'u', 'v']
}

/// Each hex digit replaced by the modhex symbol of its nibble; other characters dropped.
pub open spec fn modhex_of(s: Seq<char>) -> Seq<char>
    decreases s.len(),
{
    if s.len() == 0 {
        Seq::empty()
    } else {
        let c = s.last();
        let rest = modhex_of(s.drop_last());
        if is_hex_digit(c) {
            rest.push(modhex_alphabet()[hex_value(c) as int])
        } else {
            rest
        }
    }
}

/// Relies on String::push: appends one character.
#[verifier::external_body]
fn push_char(s: &mut String, c: char)
    ensures
        final(s)@ == old(s)@.push(c),
{
    s.push(c)
}

fn nibble_char(v: u8) -> (c: char)
    requires
        v < 16,
    ensures
        c == hex_char(v),
{
    if v < 10 {
        (48 + v) as char
    } else {
        (87 + v) as char
    }
}

/// Renders bytes as lowercase hex, two digits per byte.
pub fn to_hex(data: &[u8]) -> (s: String)
    ensures
        s@ == hex_of(data@),
{
    let mut out = String::new();
    let mut i: usize = 0;
    while i < data.len()
        invariant
            i <= data@.len(),
            out@ == hex_of(data@.subrange(0, i as int)),
        decreases data@.len() - i,
    {
        let b = data[i];
        assert(b >> 4u8 < 16) by (bit_vector);
        assert(b & 0x0fu8 < 16) by (bit_vector);
        push_char(&mut out, nibble_char(b >> 4u8));
        push_char(&mut out, nibble_char(b & 0x0fu8));
        i = i + 1;
        assert(out@ =~= hex_of(data@.subrange(0, i as int)));
    }
    assert(data@.subrange(0, i as int) =~= data@);
    out
}

fn digit_value(c: char) -> (r: Option<u8>)
    ensures
        r is Some <==> is_hex_digit(c),
        r is Some ==> r->Some_0 == hex_value(c) && r->Some_0 < 16,
{
    if '0' <= c && c <= '9' {
        Some((c as u32 - 48) as u8)
    } else if 'a' <= c && c <= 'f' {
        Some((c as u32 - 87) as u8)
    } else if 'A' <= c && c <= 'F' {
        Some((c as u32 - 55) as u8)
    } else {
        None
    }
}

/// Decodes hex text, either case, two digits per byte. Whitespace is not a
/// hex digit: text read from a file is trimmed before it comes here.
pub fn from_hex(s: &str) -> (r: Result<Vec<u8>, CodecError>)
    ensures
        r is Ok <==> is_valid_hex(s@),
        r is Ok ==> r->Ok_0@ == bytes_of_hex(s@),
        r is Err ==> r->Err_0 == CodecError::MalformedHex,
{
    let n = s.unicode_len();
    if n % 2 != 0 {
        return Err(CodecError::MalformedHex);
    }
    let mut out: Vec<u8> = Vec::new();
    let mut i: usize = 0;
    while i < n
        invariant
            n == s@.len(),
            n % 2 == 0,
            i % 2 == 0,
            i <= n,
            forall|j: int| 0 <= j < i ==> is_hex_digit(#[trigger] s@[j]),
            out@ == bytes_of_hex(s@.subrange(0, i as int)),
        decreases n - i,
    {
        let hi = digit_value(s.get_char(i));
        let lo = digit_value(s.get_char(i + 1));
        match (hi, lo) {
            (Some(h), Some(l)) => {
                out.push(h * 16 + l);
                i = i + 2;
                assert(out@ =~= bytes_of_hex(s@.subrange(0, i as int)));
            },
            _ => {
                assert(!is_hex_digit(s@[i as int]) || !is_hex_digit(s@[i + 1]));
                return Err(CodecError::MalformedHex);
            },
        }
    }
    assert(s@.subrange(0, i as int) =~= s@);
    Ok(out)
}

fn modhex_symbol(v: u8) -> (c: char)
    requires
        v < 16,
    ensures
        c == modhex_alphabet()[v as int],
{
    match v {
        0 => 'c',
        1 => 'b',
        2 => 'd',
        3 => 'e',
        4 => 'f',
        5 => 'g',
        6 => 'h',
        7 => 'i',
        8 => 'j',
        9 => 'k',
        10 => 'l',
        11 => 'n',
        12 => 'r',
        13 => 't',
        14 => 'u',
        _ => 'v',
    }
}

/// Re-encodes hex text in modhex; characters that are not hex digits are skipped.
pub fn to_modhex(hex: &str) -> (m: String)
    ensures
        m@ == modhex_of(hex@),
{
    let n = hex.unicode_len();
    let mut out = String::new();
    let mut i: usize = 0;
    while i < n
        invariant
            n == hex@.len(),
            i <= n,
            out@ == modhex_of(hex@.subrange(0, i as int)),
        decreases n - i,
    {
        let c = hex.get_char(i);
        assert(hex@.subrange(0, i + 1).drop_last() =~= hex@.subrange(0, i as int));
        match digit_value(c) {
            Some(v) => push_char(&mut out, modhex_symbol(v)),
            None => {},
        }
        i = i + 1;
    }
    assert(hex@.subrange(0, i as int) =~= hex@);
    out
}


proof fn lemma_nibble_digit(v: u8)
    requires
        v < 16,
    ensures
        is_hex_digit(hex_char(v)),
        hex_value(hex_char(v)) == v,
        '0' <= hex_char(v) <= '9' || 'a' <= hex_char(v) <= 'f',
{
}

/// Decoding the hex rendering of any bytes gives those bytes back.
pub proof fn lemma_hex_round_trip(b: Seq<u8>)
    ensures
        is_valid_hex(hex_of(b)),
        bytes_of_hex(hex_of(b)) == b,
{
    let h = hex_of(b);
    assert forall|i: int| 0 <= i < h.len() implies is_hex_digit(#[trigger] h[i]) by {
        let x = b[i / 2];
        assert(x >> 4u8 < 16 && x & 0x0fu8 < 16) by (bit_vector);
        lemma_nibble_digit(x >> 4u8);
        lemma_nibble_digit(x & 0x0fu8);
    }
    assert forall|i: int| 0 <= i < b.len() implies #[trigger] bytes_of_hex(h)[i] == b[i] by {
        let x = b[i];
        assert(x >> 4u8 < 16 && x & 0x0fu8 < 16) by (bit_vector);
        lemma_nibble_digit(x >> 4u8);
        lemma_nibble_digit(x & 0x0fu8);
        assert((2 * i) / 2 == i && (2 * i + 1) / 2 == i && (2 * i) % 2 == 0 && (2 * i + 1) % 2 == 1);
        assert(((x >> 4u8) * 16 + (x & 0x0fu8)) as u8 == x) by (bit_vector);
    }
    assert(bytes_of_hex(h) =~= b);
}

/// Lowercase hex digits: those that `to_hex` writes.
pub open spec fn is_lower_hex(s: Seq<char>) -> bool {
    forall|i: int| 0 <= i < s.len() ==> ('0' <= #[trigger] s[i] <= '9' || 'a' <= s[i] <= 'f')
}

proof fn lemma_alphabet_distinct(a: int, b: int)
    requires
        0 <= a < 16,
        0 <= b < 16,
        a != b,
    ensures
        modhex_alphabet()[a] != modhex_alphabet()[b],
{
    let m = modhex_alphabet();
    assert(m[0] == 'c' && m[1] == 'b' && m[2] == 'd' && m[3] == 'e' && m[4] == 'f' && m[5] == 'g'
        && m[6] == 'h' && m[7] == 'i' && m[8] == 'j' && m[9] == 'k' && m[10] == 'l' && m[11] == 'n'
        && m[12] == 'r' && m[13] == 't' && m[14] == 'u' && m[15] == 'v');
}

proof fn lemma_modhex_pointwise(h: Seq<char>)
    requires
        forall|i: int| 0 <= i < h.len() ==> is_hex_digit(#[trigger] h[i]),
    ensures
        modhex_of(h).len() == h.len(),
        forall|i: int|
            0 <= i < h.len() ==> #[trigger] modhex_of(h)[i] == modhex_alphabet()[hex_value(h[i]) as int],
    decreases h.len(),
{
    if h.len() > 0 {
        let t = h.drop_last();
        assert forall|i: int| 0 <= i < t.len() implies is_hex_digit(#[trigger] t[i]) by {
            assert(t[i] == h[i]);
        }
        lemma_modhex_pointwise(t);
    }
}

/// Modhex rendering of valid hex text keeps its length, and every symbol is
/// drawn from the modhex alphabet.
pub proof fn lemma_modhex_shape(h: Seq<char>)
    requires
        is_valid_hex(h),
    ensures
        modhex_of(h).len() == h.len(),
        forall|i: int| 0 <= i < h.len() ==> modhex_alphabet().contains(#[trigger] modhex_of(h)[i]),
{
    lemma_modhex_pointwise(h);
    assert forall|i: int| 0 <= i < h.len() implies modhex_alphabet().contains(#[trigger] modhex_of(h)[i]) by {
        assert(hex_value(h[i]) < 16);
        assert(modhex_alphabet()[hex_value(h[i]) as int] == modhex_of(h)[i]);
    }
}

/// Hex digits of different value get different modhex symbols.
pub proof fn lemma_modhex_symbols_distinct(c1: char, c2: char)
    requires
        is_hex_digit(c1),
        is_hex_digit(c2),
        hex_value(c1) != hex_value(c2),
    ensures
        modhex_of(seq![c1]) != modhex_of(seq![c2]),
{
    lemma_modhex_pointwise(seq![c1]);
    lemma_modhex_pointwise(seq![c2]);
    lemma_alphabet_distinct(hex_value(c1) as int, hex_value(c2) as int);
    assert(modhex_of(seq![c1])[0] != modhex_of(seq![c2])[0]);
}

/// Valid hex texts with the same modhex rendering hold the same nibbles at
/// every position; lowercase ones are equal.
pub proof fn lemma_modhex_injective(h1: Seq<char>, h2: Seq<char>)
    requires
        is_valid_hex(h1),
        is_valid_hex(h2),
        modhex_of(h1) == modhex_of(h2),
    ensures
        h1.len() == h2.len(),
        forall|i: int| 0 <= i < h1.len() ==> hex_value(#[trigger] h1[i]) == hex_value(h2[i]),
        bytes_of_hex(h1) == bytes_of_hex(h2),
        is_lower_hex(h1) && is_lower_hex(h2) ==> h1 == h2,
{
    lemma_modhex_pointwise(h1);
    lemma_modhex_pointwise(h2);
    assert forall|i: int| 0 <= i < h1.len() implies hex_value(#[trigger] h1[i]) == hex_value(h2[i]) by {
        assert(h1.len() == h2.len());
        assert(is_hex_digit(h1[i]) && is_hex_digit(h2[i]));
        assert(modhex_of(h1)[i] == modhex_alphabet()[hex_value(h1[i]) as int]);
        assert(modhex_of(h2)[i] == modhex_alphabet()[hex_value(h2[i]) as int]);
        assert(hex_value(h1[i]) < 16 && hex_value(h2[i]) < 16);
        if hex_value(h1[i]) != hex_value(h2[i]) {
            lemma_alphabet_distinct(hex_value(h1[i]) as int, hex_value(h2[i]) as int);
        }
    }
    assert forall|i: int| 0 <= i < h1.len() / 2 implies #[trigger] bytes_of_hex(h1)[i] == bytes_of_hex(h2)[i] by {
        assert(hex_value(h1[2 * i]) == hex_value(h2[2 * i]));
        assert(hex_value(h1[2 * i + 1]) == hex_value(h2[2 * i + 1]));
    }
    assert(bytes_of_hex(h1) =~= bytes_of_hex(h2));
    if is_lower_hex(h1) && is_lower_hex(h2) {
        assert forall|i: int| 0 <= i < h1.len() implies h1[i] == h2[i] by {
            assert(hex_value(h1[i]) == hex_value(h2[i]));
        }
        assert(h1 =~= h2);
    }
}

} // verus!
