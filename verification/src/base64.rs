//! Base64 with the standard alphabet and padding.
use vstd::prelude::*;
use vstd::utf8::*;

verus! {

broadcast use vstd::string::group_string_axioms;

/// The character that stands for a number below 64.
pub open spec fn symbol(v: int) -> char {
    if 0 <= v < 26 {
        (65 + v) as char
    } else if 26 <= v < 52 {
        (71 + v) as char
    } else if 52 <= v < 62 {
        (v - 4) as char
    } else if v == 62 {
        '+'
    } else {
        '/'
    }
}

/// The number that a byte stands for. A byte that is no base64 symbol stands for zero.
pub open spec fn sextet(b: u8) -> int {
    if 65 <= b <= 90 {
        b - 65
    } else if 97 <= b <= 122 {
        b - 71
    } else if 48 <= b <= 57 {
        b + 4
    } else if b == 43 {
        62
    } else if b == 47 {
        63
    } else {
        0
    }
}

/// The base64 text of a sequence of bytes.
pub open spec fn encoded(data: Seq<u8>) -> Seq<char>
    decreases data.len(),
{
    if data.len() == 0 {
        Seq::empty()
    } else if data.len() == 1 {
        seq![symbol(data[0] as int / 4), symbol(data[0] as int % 4 * 16), '=', '=']
    } else if data.len() == 2 {
        seq![
            symbol(data[0] as int / 4),
            symbol(data[0] as int % 4 * 16 + data[1] as int / 16),
            symbol(data[1] as int % 16 * 4),
            '=',
        ]
    } else {
        seq![
            symbol(data[0] as int / 4),
            symbol(data[0] as int % 4 * 16 + data[1] as int / 16),
            symbol(data[1] as int % 16 * 4 + data[2] as int / 64),
            symbol(data[2] as int % 64),
        ] + encoded(data.skip(3))
    }
}

/// Whether a byte carries data: padding and line ends do not.
pub open spec fn carries_data(b: u8) -> bool {
    b != 61 && b != 10 && b != 13
}

/// The bytes that carry data.
pub open spec fn data_bytes(bytes: Seq<u8>) -> Seq<u8>
    decreases bytes.len(),
{
    if bytes.len() == 0 {
        Seq::empty()
    } else if carries_data(bytes[0]) {
        seq![bytes[0]] + data_bytes(bytes.skip(1))
    } else {
        data_bytes(bytes.skip(1))
    }
}

/// The bytes that groups of four symbols denote. A last group of two or three symbols denotes
/// one or two bytes; a single symbol at the end denotes nothing.
pub open spec fn decoded_groups(b: Seq<u8>) -> Seq<u8>
    decreases b.len(),
{
    if b.len() < 2 {
        Seq::empty()
    } else {
        let first = (sextet(b[0]) * 4 + sextet(b[1]) / 16) as u8;
        if b.len() == 2 {
            seq![first]
        } else {
            let second = (sextet(b[1]) % 16 * 16 + sextet(b[2]) / 4) as u8;
            if b.len() == 3 {
                seq![first, second]
            } else {
                let third = (sextet(b[2]) % 4 * 64 + sextet(b[3])) as u8;
                seq![first, second, third] + decoded_groups(b.skip(4))
            }
        }
    }
}

/// The bytes that a base64 text denotes.
pub open spec fn decoded(text: Seq<char>) -> Seq<u8> {
    decoded_groups(data_bytes(encode_utf8(text)))
}

/// The character that stands for a number below 64.
fn symbol_char(v: u8) -> (c: char)
    requires
        v < 64,
    ensures
        c == symbol(v as int),
{
    if v < 26 {
        (65 + v) as char
    } else if v < 52 {
        (71 + v) as char
    } else if v < 62 {
        (v - 4) as char
    } else if v == 62 {
        '+'
    } else {
        '/'
    }
}

/// The number that a byte stands for.
fn sextet_of(b: u8) -> (v: u8)
    ensures
        v == sextet(b),
        v < 64,
{
    match b {
        65..=90 => b - 65,
        97..=122 => b - 71,
        48..=57 => b + 4,
        43 => 62,
        47 => 63,
        _ => 0,
    }
}

/// Encode bytes as base64 text.
pub fn base64_encode(input: &[u8]) -> (r: String)
    ensures
        r@ == encoded(input@),
{
    let mut out = String::new();
    let mut i: usize = 0;
    assert(input@.skip(0) =~= input@);
    while input.len() - i >= 3
        invariant
            i <= input@.len(),
            out@ + encoded(input@.skip(i as int)) == encoded(input@),
        decreases input.len() - i,
    {
        let b0: u8 = input[i];
        let b1: u8 = input[i + 1];
        let b2: u8 = input[i + 2];
        let ghost rest = input@.skip(i as int);
        let ghost before = out@;
        assert(rest.skip(3) =~= input@.skip(i + 3));
        out.push(symbol_char(b0 / 4));
        out.push(symbol_char(b0 % 4 * 16 + b1 / 16));
        out.push(symbol_char(b1 % 16 * 4 + b2 / 64));
        out.push(symbol_char(b2 % 64));
        i += 3;
        assert(out@ + encoded(input@.skip(i as int)) =~= before + encoded(rest));
    }
    let ghost rest = input@.skip(i as int);
    let ghost before = out@;
    if input.len() - i == 2 {
        let b0: u8 = input[i];
        let b1: u8 = input[i + 1];
        out.push(symbol_char(b0 / 4));
        out.push(symbol_char(b0 % 4 * 16 + b1 / 16));
        out.push(symbol_char(b1 % 16 * 4));
        out.push('=');
    } else if input.len() - i == 1 {
        let b0: u8 = input[i];
        out.push(symbol_char(b0 / 4));
        out.push(symbol_char(b0 % 4 * 16));
        out.push('=');
        out.push('=');
    }
    assert(out@ =~= before + encoded(rest));
    out
}

/// The bytes that carry data.
fn keep_data_bytes(bytes: &[u8]) -> (r: Vec<u8>)
    ensures
        r@ == data_bytes(bytes@),
{
    let mut out: Vec<u8> = Vec::new();
    let mut i: usize = 0;
    assert(bytes@.skip(0) =~= bytes@);
    while i < bytes.len()
        invariant
            i <= bytes@.len(),
            out@ + data_bytes(bytes@.skip(i as int)) == data_bytes(bytes@),
        decreases bytes.len() - i,
    {
        let b: u8 = bytes[i];
        let ghost rest = bytes@.skip(i as int);
        let ghost before = out@;
        assert(rest.skip(1) =~= bytes@.skip(i + 1));
        if b != 61 && b != 10 && b != 13 {
            out.push(b);
        }
        i += 1;
        assert(out@ + data_bytes(bytes@.skip(i as int)) =~= before + data_bytes(rest));
    }
    assert(out@ + data_bytes(bytes@.skip(i as int)) =~= out@);
    out
}

/// Decode base64 text. Padding and line ends are skipped, and a symbol outside the alphabet
/// counts as zero.
pub fn base64_decode(input: &str) -> (r: Vec<u8>)
    ensures
        r@ == decoded(input@),
{
    let b = keep_data_bytes(input.as_bytes());
    let mut out: Vec<u8> = Vec::new();
    let mut i: usize = 0;
    assert(b@.skip(0) =~= b@);
    while b.len() - i >= 4
        invariant
            i <= b@.len(),
            out@ + decoded_groups(b@.skip(i as int)) == decoded_groups(b@),
        decreases b.len() - i,
    {
        let s0: u8 = sextet_of(b[i]);
        let s1: u8 = sextet_of(b[i + 1]);
        let s2: u8 = sextet_of(b[i + 2]);
        let s3: u8 = sextet_of(b[i + 3]);
        let ghost rest = b@.skip(i as int);
        let ghost before = out@;
        assert(rest.skip(4) =~= b@.skip(i + 4));
        out.push(s0 * 4 + s1 / 16);
        out.push(s1 % 16 * 16 + s2 / 4);
        out.push(s2 % 4 * 64 + s3);
        i += 4;
        assert(out@ + decoded_groups(b@.skip(i as int)) =~= before + decoded_groups(rest));
    }
    let ghost rest = b@.skip(i as int);
    let ghost before = out@;
    if b.len() - i >= 2 {
        let s0: u8 = sextet_of(b[i]);
        let s1: u8 = sextet_of(b[i + 1]);
        out.push(s0 * 4 + s1 / 16);
        if b.len() - i == 3 {
            let s2: u8 = sextet_of(b[i + 2]);
            out.push(s1 % 16 * 16 + s2 / 4);
        }
    }
    assert(out@ =~= before + decoded_groups(rest));
    out
}

// ── Laws ─────────────────────────────────────────────────────────────────────

/// A symbol is an ASCII character that carries data and stands for its number.
proof fn lemma_symbol(v: int)
    requires
        0 <= v < 64,
    ensures
        (symbol(v) as u32) < 128,
        carries_data(symbol(v) as u8),
        sextet(symbol(v) as u8) == v,
{
}

/// Base64 text is ASCII.
proof fn lemma_encoded_is_ascii(data: Seq<u8>)
    ensures
        is_ascii_chars(encoded(data)),
    decreases data.len(),
{
    let e = encoded(data);
    if data.len() >= 3 {
        lemma_encoded_is_ascii(data.skip(3));
        lemma_symbol(data[0] as int / 4);
        lemma_symbol(data[0] as int % 4 * 16 + data[1] as int / 16);
        lemma_symbol(data[1] as int % 16 * 4 + data[2] as int / 64);
        lemma_symbol(data[2] as int % 64);
        assert forall|i: int| 0 <= i < e.len() implies (#[trigger] e[i] as u32) < 128 by {
            if i >= 4 {
                assert(e[i] == encoded(data.skip(3))[i - 4]);
            }
        }
    } else if data.len() == 2 {
        lemma_symbol(data[0] as int / 4);
        lemma_symbol(data[0] as int % 4 * 16 + data[1] as int / 16);
        lemma_symbol(data[1] as int % 16 * 4);
    } else if data.len() == 1 {
        lemma_symbol(data[0] as int / 4);
        lemma_symbol(data[0] as int % 4 * 16);
    }
}

/// The characters of a text as bytes.
pub open spec fn as_bytes(text: Seq<char>) -> Seq<u8> {
    Seq::new(text.len(), |i: int| text[i] as u8)
}

/// What a first byte leaves of the bytes that carry data.
proof fn lemma_data_byte(b: u8, rest: Seq<u8>)
    ensures
        data_bytes(seq![b] + rest) == if carries_data(b) {
            seq![b] + data_bytes(rest)
        } else {
            data_bytes(rest)
        },
{
    assert((seq![b] + rest).skip(1) =~= rest);
}

/// What four bytes leave of the bytes that carry data, if the first two do.
proof fn lemma_data_group(a: u8, b: u8, c: u8, d: u8, rest: Seq<u8>)
    requires
        carries_data(a),
        carries_data(b),
        carries_data(c) || !carries_data(d),
    ensures
        data_bytes(seq![a, b, c, d] + rest) == if carries_data(d) {
            seq![a, b, c, d] + data_bytes(rest)
        } else if carries_data(c) {
            seq![a, b, c] + data_bytes(rest)
        } else {
            seq![a, b] + data_bytes(rest)
        },
{
    let r3 = seq![d] + rest;
    let r2 = seq![c] + r3;
    let r1 = seq![b] + r2;
    lemma_data_byte(d, rest);
    lemma_data_byte(c, r3);
    lemma_data_byte(b, r2);
    lemma_data_byte(a, r1);
    assert(seq![a, b, c, d] + rest =~= seq![a] + r1);
    if carries_data(d) {
        assert(data_bytes(seq![a] + r1) =~= seq![a, b, c, d] + data_bytes(rest));
    } else if carries_data(c) {
        assert(data_bytes(seq![a] + r1) =~= seq![a, b, c] + data_bytes(rest));
    } else {
        assert(data_bytes(seq![a] + r1) =~= seq![a, b] + data_bytes(rest));
    }
}

/// The numbers that three bytes are cut into give the bytes back.
proof fn lemma_cut(x: u8, y: u8, z: u8)
    ensures
        0 <= x as int / 4 < 64,
        0 <= x as int % 4 * 16 + y as int / 16 < 64,
        0 <= y as int % 16 * 4 + z as int / 64 < 64,
        0 <= z as int % 64 < 64,
        x as int / 4 * 4 + (x as int % 4 * 16 + y as int / 16) / 16 == x,
        (x as int % 4 * 16 + y as int / 16) % 16 * 16 + (y as int % 16 * 4 + z as int / 64) / 4
            == y,
        (y as int % 16 * 4 + z as int / 64) % 4 * 64 + z as int % 64 == z,
{
}

/// Decoding the symbols of encoded bytes gives the bytes.
proof fn lemma_groups_round_trip(data: Seq<u8>)
    ensures
        decoded_groups(data_bytes(as_bytes(encoded(data)))) == data,
    decreases data.len(),
{
    let t = as_bytes(encoded(data));
    if data.len() == 0 {
        assert(t =~= Seq::empty());
        assert(data =~= Seq::empty());
    } else {
        let x = data[0];
        let y = if data.len() > 1 {
            data[1]
        } else {
            0
        };
        let z = if data.len() > 2 {
            data[2]
        } else {
            0
        };
        let v0 = x as int / 4;
        let v1 = x as int % 4 * 16 + y as int / 16;
        let v2 = y as int % 16 * 4 + z as int / 64;
        let v3 = z as int % 64;
        lemma_cut(x, y, z);
        lemma_symbol(v0);
        lemma_symbol(v1);
        lemma_symbol(v2);
        lemma_symbol(v3);
        let a = symbol(v0) as u8;
        let b = symbol(v1) as u8;
        let c = symbol(v2) as u8;
        let d = symbol(v3) as u8;
        let none = Seq::<u8>::empty();
        if data.len() == 1 {
            lemma_data_group(a, b, 61, 61, none);
            assert(t =~= seq![a, b, 61u8, 61u8] + none);
            assert(data_bytes(t) =~= seq![a, b]);
            assert(decoded_groups(seq![a, b]) =~= data);
        } else if data.len() == 2 {
            lemma_data_group(a, b, c, 61, none);
            assert(t =~= seq![a, b, c, 61u8] + none);
            assert(data_bytes(t) =~= seq![a, b, c]);
            assert(decoded_groups(seq![a, b, c]) =~= data);
        } else {
            let rest = as_bytes(encoded(data.skip(3)));
            lemma_data_group(a, b, c, d, rest);
            assert(t =~= seq![a, b, c, d] + rest);
            let kept = seq![a, b, c, d] + data_bytes(rest);
            assert(kept.skip(4) =~= data_bytes(rest));
            lemma_groups_round_trip(data.skip(3));
            assert(decoded_groups(kept) == seq![x, y, z] + decoded_groups(kept.skip(4)));
            assert(seq![x, y, z] + data.skip(3) =~= data);
        }
    }
}

/// Decoding what was encoded gives the bytes back.
pub proof fn law_decode_undoes_encode(data: Seq<u8>)
    ensures
        decoded(encoded(data)) == data,
{
    lemma_encoded_is_ascii(data);
    is_ascii_chars_encode_utf8(encoded(data));
    assert(encode_utf8(encoded(data)) =~= as_bytes(encoded(data)));
    lemma_groups_round_trip(data);
}

/// Encoded text is made of whole groups of four characters.
pub proof fn law_encoded_length(data: Seq<u8>)
    ensures
        encoded(data).len() == (data.len() + 2) / 3 * 4,
    decreases data.len(),
{
    if data.len() >= 3 {
        law_encoded_length(data.skip(3));
    }
}

/// The symbols: capital letters, small letters, digits, a plus sign and a slash.
pub proof fn law_symbols(v: int)
    requires
        0 <= v < 64,
    ensures
        v < 26 ==> symbol(v) as u32 == 'A' as u32 + v,
        26 <= v < 52 ==> symbol(v) as u32 == 'a' as u32 + (v - 26),
        52 <= v < 62 ==> symbol(v) as u32 == '0' as u32 + (v - 52),
        v == 62 ==> symbol(v) == '+',
        v == 63 ==> symbol(v) == '/',
        sextet(symbol(v) as u8) == v,
{
}

/// Three bytes become four symbols that stand for the same 24 bits, and what follows is encoded in
/// the same way.
pub proof fn law_three_bytes_are_four_symbols(data: Seq<u8>)
    requires
        data.len() >= 3,
    ensures
        ({
            let text = encoded(data);
            let value = |i: int| sextet(text[i] as u8);
            &&& text.len() >= 4
            &&& data[0] * 65536 + data[1] * 256 + data[2] == value(0) * 262144 + value(1) * 4096
                + value(2) * 64 + value(3)
            &&& text.skip(4) == encoded(data.skip(3))
        }),
{
    let a = data[0] as int;
    let b = data[1] as int;
    let c = data[2] as int;
    law_symbols(a / 4);
    law_symbols(a % 4 * 16 + b / 16);
    law_symbols(b % 16 * 4 + c / 64);
    law_symbols(c % 64);
    assert(encoded(data).skip(4) =~= encoded(data.skip(3)));
}

/// One or two bytes at the end become two or three symbols, filled up with equals signs.
pub proof fn law_the_end_is_filled_up(a: u8, b: u8)
    ensures
        ({
            let one = encoded(seq![a]);
            let two = encoded(seq![a, b]);
            let value = |c: char| sextet(c as u8);
            &&& one.len() == 4 && one[2] == '=' && one[3] == '='
            &&& a * 16 == value(one[0]) * 64 + value(one[1])
            &&& two.len() == 4 && two[3] == '='
            &&& (a * 256 + b) * 4 == value(two[0]) * 4096 + value(two[1]) * 64 + value(two[2])
        }),
{
    let x = a as int;
    let y = b as int;
    law_symbols(x / 4);
    law_symbols(x % 4 * 16);
    law_symbols(x % 4 * 16 + y / 16);
    law_symbols(y % 16 * 4);
}

/// Equals signs and line ends carry no data wherever they stand, and every other byte carries some.
pub proof fn law_line_ends_are_skipped(a: Seq<u8>, b: u8, c: Seq<u8>)
    ensures
        b == 0x3D || b == 0x0A || b == 0x0D ==> data_bytes(a + seq![b] + c) == data_bytes(a + c),
        b != 0x3D && b != 0x0A && b != 0x0D ==> data_bytes(a + seq![b] + c) == data_bytes(a) + seq![
            b,
        ] + data_bytes(c),
    decreases a.len(),
{
    let s = a + seq![b] + c;
    if a.len() == 0 {
        assert(s.skip(1) =~= c);
        assert(a + c =~= c);
        assert(data_bytes(a) + seq![b] + data_bytes(c) =~= seq![b] + data_bytes(c));
    } else {
        law_line_ends_are_skipped(a.skip(1), b, c);
        assert(s.skip(1) =~= a.skip(1) + seq![b] + c);
        assert((a + c).skip(1) =~= a.skip(1) + c);
        let rest = data_bytes(a.skip(1));
        assert(seq![a[0]] + (rest + seq![b] + data_bytes(c)) =~= seq![a[0]] + rest + seq![b]
            + data_bytes(c));
    }
}

/// A byte that is no symbol reads as the first symbol does.
pub proof fn law_other_bytes_read_as_zero(b: u8)
    requires
        !(0x41 <= b <= 0x5A || 0x61 <= b <= 0x7A || 0x30 <= b <= 0x39 || b == 0x2B || b == 0x2F),
    ensures
        sextet(b) == 0,
{
}

/// Four symbols stand for three bytes with the same 24 bits, and two or three at the end for one or
/// two bytes; a single one stands for none.
pub proof fn law_four_symbols_are_three_bytes(b: Seq<u8>)
    ensures
        ({
            let out = decoded_groups(b);
            let v = |i: int| sextet(b[i]);
            &&& b.len() < 2 ==> out.len() == 0
            &&& b.len() == 2 ==> out.len() == 1 && out[0] as int == (v(0) * 64 + v(1)) / 16
            &&& b.len() == 3 ==> out.len() == 2 && out[0] * 256 + out[1] == (v(0) * 4096 + v(1) * 64
                + v(2)) / 4
            &&& b.len() >= 4 ==> out.len() >= 3 && out[0] * 65536 + out[1] * 256 + out[2] == v(0)
                * 262144 + v(1) * 4096 + v(2) * 64 + v(3) && out.skip(3) == decoded_groups(
                b.skip(4),
            )
        }),
{
    let v = |i: int| sextet(b[i]);
    if b.len() >= 4 {
        assert(decoded_groups(b).skip(3) =~= decoded_groups(b.skip(4)));
    }
}

} // verus!
