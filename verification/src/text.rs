//! Strings as sequences of characters, and the few operations on them that the rest of the
//! library needs.
use vstd::prelude::*;
use vstd::utf8::*;

verus! {

/// `String::push` appends one character to the end of the string.
pub assume_specification[ String::push ](s: &mut String, c: char)
    ensures
        final(s)@ == old(s)@.push(c),
;

/// The text that `str::to_lowercase` turns a text into, by the lower-case mappings of the Unicode
/// character database.
pub uninterp spec fn lowercase(s: Seq<char>) -> Seq<char>;

/// `str::to_lowercase` returns the lower-case equivalent of the string, in which every character
/// has become one or more characters. It is a function of the string's characters alone; what it
/// does to a given character is left unsaid.
pub assume_specification[ str::to_lowercase ](s: &str) -> (r: String)
    ensures
        r@ == lowercase(s@),
        s@.len() > 0 ==> r@.len() > 0,
;

/// Whether a number is that of a character.
pub open spec fn is_scalar(i: u32) -> bool {
    i <= 0xD7FF || 0xE000 <= i <= 0x10FFFF
}

/// `char::from_u32` returns the character with the given number, or `None` where the number is
/// not that of a character.
pub assume_specification[ char::from_u32 ](i: u32) -> (r: Option<char>)
    ensures
        r == if is_scalar(i) {
            Some(i as char)
        } else {
            None
        },
;

/// Whether two strings hold the same characters.
pub fn str_eq(a: &str, b: &str) -> (r: bool)
    ensures
        r == (a@ == b@),
{
    let x = a.as_bytes();
    let y = b.as_bytes();
    proof {
        encode_utf8_decode_utf8(a@);
        encode_utf8_decode_utf8(b@);
    }
    if x.len() != y.len() {
        return false;
    }
    let mut i: usize = 0;
    while i < x.len()
        invariant
            i <= x.len(),
            x@.len() == y@.len(),
            x@ == encode_utf8(a@),
            y@ == encode_utf8(b@),
            forall|j: int| 0 <= j < i ==> x@[j] == y@[j],
        decreases x.len() - i,
    {
        if x[i] != y[i] {
            return false;
        }
        i += 1;
    }
    assert(x@ =~= y@);
    true
}

/// The characters of a string, in order.
pub fn chars_of(s: &str) -> (r: Vec<char>)
    ensures
        r@ == s@,
{
    let mut out: Vec<char> = Vec::new();
    for c in it: s.chars()
        invariant
            out@ == s@.take(it.index()),
            it.seq() == s@,
    {
        out.push(c);
    }
    out
}

/// The string made of the characters `chars[from..to]`.
pub fn string_from(chars: &Vec<char>, from: usize, to: usize) -> (r: String)
    requires
        from <= to <= chars@.len(),
    ensures
        r@ == chars@.subrange(from as int, to as int),
{
    let mut out = String::new();
    let mut i: usize = from;
    while i < to
        invariant
            from <= i <= to <= chars@.len(),
            out@ == chars@.subrange(from as int, i as int),
        decreases to - i,
    {
        out.push(chars[i]);
        i += 1;
    }
    out
}

// ── ASCII case ───────────────────────────────────────────────────────────────

/// Whether a character is an ASCII capital letter.
pub open spec fn is_upper(c: char) -> bool {
    'A' <= c <= 'Z'
}

/// Whether a character is an ASCII small letter.
pub open spec fn is_lower(c: char) -> bool {
    'a' <= c <= 'z'
}

/// Whether a character is an ASCII digit.
pub open spec fn is_digit(c: char) -> bool {
    '0' <= c <= '9'
}

/// A character with an ASCII capital letter made small.
pub open spec fn lower_char(c: char) -> char {
    if is_upper(c) {
        ((c as u32) + 32) as char
    } else {
        c
    }
}

/// A character with an ASCII small letter made capital.
pub open spec fn upper_char(c: char) -> char {
    if is_lower(c) {
        ((c as u32) - 32) as char
    } else {
        c
    }
}

/// Text with its ASCII capital letters made small.
pub open spec fn lower_text(s: Seq<char>) -> Seq<char> {
    s.map_values(|c: char| lower_char(c))
}

/// Makes an ASCII capital letter small.
pub fn ascii_lower(c: char) -> (r: char)
    ensures
        r == lower_char(c),
{
    if 'A' <= c && c <= 'Z' {
        (c as u8 + 32) as char
    } else {
        c
    }
}

/// Makes an ASCII small letter capital.
pub fn ascii_upper(c: char) -> (r: char)
    ensures
        r == upper_char(c),
{
    if 'a' <= c && c <= 'z' {
        (c as u8 - 32) as char
    } else {
        c
    }
}

/// The characters with ASCII capital letters made small.
pub fn ascii_lower_string(chars: &Vec<char>) -> (r: String)
    ensures
        r@ == lower_text(chars@),
{
    let mut out = String::new();
    let mut i: usize = 0;
    while i < chars.len()
        invariant
            i <= chars@.len(),
            out@ == lower_text(chars@.take(i as int)),
        decreases chars.len() - i,
    {
        out.push(ascii_lower(chars[i]));
        i += 1;
        assert(lower_text(chars@.take(i as int)) =~= lower_text(chars@.take(i - 1)).push(
            lower_char(chars@[i - 1]),
        ));
    }
    assert(chars@.take(i as int) =~= chars@);
    out
}

// ── Decimal numbers ──────────────────────────────────────────────────────────

/// The decimal digits of a number, most significant first.
pub open spec fn decimal(n: nat) -> Seq<char>
    decreases n,
{
    if n < 10 {
        seq![(48 + n) as char]
    } else {
        decimal(n / 10).push((48 + n % 10) as char)
    }
}

/// The number that a string of decimal digits denotes.
pub open spec fn digits_value(s: Seq<char>) -> nat
    decreases s.len(),
{
    if s.len() == 0 {
        0
    } else {
        10 * digits_value(s.drop_last()) + (s.last() as u32 - 48) as nat
    }
}

/// Whether every character is a decimal digit.
pub open spec fn all_digits(s: Seq<char>) -> bool {
    forall|i: int| 0 <= i < s.len() ==> is_digit(#[trigger] s[i])
}

/// The digits of `n` denote `n`.
pub proof fn lemma_decimal_value(n: nat)
    ensures
        all_digits(decimal(n)),
        decimal(n).len() >= 1,
        digits_value(decimal(n)) == n,
    decreases n,
{
    if n < 10 {
        assert(decimal(n).drop_last() =~= Seq::<char>::empty());
        reveal_with_fuel(digits_value, 2);
    } else {
        lemma_decimal_value(n / 10);
        assert(decimal(n).drop_last() =~= decimal(n / 10));
    }
}

/// The number that a text denotes: decimal digits, with a plus sign in front or not, as far as it
/// is not too large for an index.
pub open spec fn index_in(s: Seq<char>) -> Option<nat> {
    let d = if s.len() > 0 && s[0] == '+' {
        s.skip(1)
    } else {
        s
    };
    if d.len() > 0 && all_digits(d) && digits_value(d) <= usize::MAX {
        Some(digits_value(d))
    } else {
        None
    }
}

proof fn lemma_digits_grow(d: Seq<char>, n: int)
    requires
        all_digits(d),
        0 <= n <= d.len(),
    ensures
        digits_value(d.take(n)) <= digits_value(d),
    decreases d.len(),
{
    if n == d.len() {
        assert(d.take(n) =~= d);
    } else {
        assert(all_digits(d.drop_last()));
        lemma_digits_grow(d.drop_last(), n);
        assert(d.drop_last().take(n) =~= d.take(n));
        assert(is_digit(d[d.len() - 1]));
    }
}

/// The number below ten that a character denotes.
fn digit_of(c: char) -> (r: Option<usize>)
    ensures
        match r {
            Some(n) => is_digit(c) && n == c as u32 - 48 && n < 10,
            None => !is_digit(c),
        },
{
    let v: u32 = c as u32;
    if 48 <= v && v <= 57 {
        Some((v - 48) as usize)
    } else {
        None
    }
}

/// Reads a number.
pub fn parse_index(s: &str) -> (r: Option<usize>)
    ensures
        match r {
            Some(n) => index_in(s@) == Some(n as nat),
            None => index_in(s@) is None,
        },
{
    let chars = chars_of(s);
    let start: usize = if chars.len() > 0 && chars[0] == '+' {
        1
    } else {
        0
    };
    let ghost d = if s@.len() > 0 && s@[0] == '+' {
        s@.skip(1)
    } else {
        s@
    };
    assert(d =~= chars@.skip(start as int));
    if start >= chars.len() {
        return None;
    }
    let mut value: usize = 0;
    let mut i: usize = start;
    assert(d.take(0) =~= Seq::empty());
    while i < chars.len()
        invariant
            start <= i <= chars@.len(),
            chars@ == s@,
            d == chars@.skip(start as int),
            d == (if s@.len() > 0 && s@[0] == '+' {
                s@.skip(1)
            } else {
                s@
            }),
            all_digits(d.take(i - start)),
            value == digits_value(d.take(i - start)),
        decreases chars.len() - i,
    {
        let ghost k = i - start;
        assert(d[k] == chars@[i as int]);
        match digit_of(chars[i]) {
            Some(n) => {
                assert(d.take(k + 1).drop_last() =~= d.take(k));
                assert(d.take(k + 1).last() == d[k]);
                if value > (usize::MAX - n) / 10 {
                    proof {
                        if all_digits(d) {
                            lemma_digits_grow(d, k + 1);
                        }
                    }
                    return None;
                }
                value = value * 10 + n;
                assert forall|j: int| 0 <= j < k + 1 implies is_digit(
                    #[trigger] d.take(k + 1)[j],
                ) by {
                    if j < k {
                        assert(d.take(k)[j] == d.take(k + 1)[j]);
                    }
                }
            },
            None => {
                assert(!is_digit(d[k]));
                return None;
            },
        }
        i += 1;
    }
    assert(d.take(i - start) =~= d);
    Some(value)
}

/// The digit character of a number below ten.
fn digit_char(d: u64) -> (c: char)
    requires
        d < 10,
    ensures
        c == (48 + d) as char,
{
    (48u8 + d as u8) as char
}

/// Appends the decimal digits of `n`.
pub fn push_decimal(s: &mut String, n: u64)
    ensures
        final(s)@ == old(s)@ + decimal(n as nat),
    decreases n,
{
    if n < 10 {
        s.push(digit_char(n));
    } else {
        push_decimal(s, n / 10);
        s.push(digit_char(n % 10));
    }
    assert(s@ =~= old(s)@ + decimal(n as nat));
}

/// The ASCII bytes of the decimal digits of a number.
pub open spec fn decimal_bytes(n: nat) -> Seq<u8>
    decreases n,
{
    if n < 10 {
        seq![(48 + n) as u8]
    } else {
        decimal_bytes(n / 10).push((48 + n % 10) as u8)
    }
}

/// Appends the ASCII bytes of the decimal digits of `n`.
pub fn push_decimal_bytes(v: &mut Vec<u8>, n: u64)
    ensures
        final(v)@ == old(v)@ + decimal_bytes(n as nat),
    decreases n,
{
    if n < 10 {
        v.push(48u8 + n as u8);
    } else {
        push_decimal_bytes(v, n / 10);
        v.push(48u8 + (n % 10) as u8);
    }
    assert(v@ =~= old(v)@ + decimal_bytes(n as nat));
}

// ── Splitting ────────────────────────────────────────────────────────────────

/// The pieces of a text between the occurrences of a separator. There is one piece more than
/// there are separators.
pub open spec fn split_on(s: Seq<char>, sep: char) -> Seq<Seq<char>>
    decreases s.len(),
{
    if s.len() == 0 {
        seq![Seq::<char>::empty()]
    } else if s.last() == sep {
        split_on(s.drop_last(), sep).push(Seq::<char>::empty())
    } else {
        let rest = split_on(s.drop_last(), sep);
        rest.drop_last().push(rest.last().push(s.last()))
    }
}

/// A split has at least one piece.
pub proof fn lemma_split_nonempty(s: Seq<char>, sep: char)
    ensures
        split_on(s, sep).len() >= 1,
    decreases s.len(),
{
    if s.len() > 0 {
        lemma_split_nonempty(s.drop_last(), sep);
    }
}

/// A text without the separator is its own only piece.
pub proof fn lemma_split_single(s: Seq<char>, sep: char)
    requires
        !s.contains(sep),
    ensures
        split_on(s, sep) == seq![s],
    decreases s.len(),
{
    if s.len() > 0 {
        assert(s.last() == s[s.len() - 1]);
        assert(s.drop_last().contains(sep) ==> s.contains(sep)) by {
            if s.drop_last().contains(sep) {
                let i = s.drop_last().index_of(sep);
                assert(s[i] == sep);
            }
        }
        lemma_split_single(s.drop_last(), sep);
        assert(s.drop_last().push(s.last()) =~= s);
        assert(split_on(s, sep) =~= seq![s]);
    } else {
        assert(s =~= Seq::<char>::empty());
    }
}

/// Splitting `a`, a separator and `b` gives the pieces of `a` followed by those of `b`.
pub proof fn lemma_split_concat(a: Seq<char>, sep: char, b: Seq<char>)
    ensures
        split_on(a.push(sep) + b, sep) == split_on(a, sep) + split_on(b, sep),
    decreases b.len(),
{
    let s = a.push(sep) + b;
    if b.len() == 0 {
        assert(s =~= a.push(sep));
        assert(s.drop_last() =~= a);
        assert(split_on(s, sep) =~= split_on(a, sep) + split_on(b, sep));
    } else {
        lemma_split_concat(a, sep, b.drop_last());
        lemma_split_nonempty(b.drop_last(), sep);
        assert(s.drop_last() =~= a.push(sep) + b.drop_last());
        assert(split_on(s, sep) =~= split_on(a, sep) + split_on(b, sep));
    }
}

/// Splits a text at each occurrence of a separator.
pub fn split_chars(chars: &Vec<char>, sep: char) -> (r: Vec<Vec<char>>)
    ensures
        r@.map_values(|p: Vec<char>| p@) == split_on(chars@, sep),
{
    let mut out: Vec<Vec<char>> = Vec::new();
    let mut piece: Vec<char> = Vec::new();
    let mut i: usize = 0;
    assert(chars@.take(0) =~= Seq::<char>::empty());
    assert(out@.map_values(|p: Vec<char>| p@).push(piece@) =~= split_on(chars@.take(0), sep));
    while i < chars.len()
        invariant
            i <= chars@.len(),
            out@.map_values(|p: Vec<char>| p@).push(piece@) == split_on(chars@.take(i as int), sep),
        decreases chars.len() - i,
    {
        let c = chars[i];
        let ghost before = out@.map_values(|p: Vec<char>| p@).push(piece@);
        let ghost old_piece = piece@;
        let ghost old_out = out@;
        assert(chars@.take(i + 1).drop_last() =~= chars@.take(i as int));
        assert(before.drop_last() =~= old_out.map_values(|p: Vec<char>| p@));
        if c == sep {
            out.push(piece);
            piece = Vec::new();
            assert(out@.map_values(|p: Vec<char>| p@) =~= before);
        } else {
            piece.push(c);
        }
        i += 1;
        assert(out@.map_values(|p: Vec<char>| p@).push(piece@) =~= split_on(
            chars@.take(i as int),
            sep,
        ));
    }
    assert(chars@.take(i as int) =~= chars@);
    let ghost before = out@.map_values(|p: Vec<char>| p@).push(piece@);
    out.push(piece);
    assert(out@.map_values(|p: Vec<char>| p@) =~= before);
    out
}


// ── Prefixes ─────────────────────────────────────────────────────────────────

/// Whether a text starts with another.
pub open spec fn starts_with(s: Seq<char>, p: Seq<char>) -> bool {
    p.len() <= s.len() && s.take(p.len() as int) == p
}

/// A text without another at its start, as often as it stands there.
pub open spec fn without_prefix(s: Seq<char>, p: Seq<char>) -> Seq<char>
    decreases s.len(),
{
    if p.len() > 0 && starts_with(s, p) {
        without_prefix(s.skip(p.len() as int), p)
    } else {
        s
    }
}

/// Whether the text from `from` on starts with another.
fn has_prefix_at(s: &Vec<char>, from: usize, p: &Vec<char>) -> (r: bool)
    requires
        from <= s@.len(),
    ensures
        r == starts_with(s@.skip(from as int), p@),
{
    let n: usize = s.len();
    if p.len() > n - from {
        return false;
    }
    let mut i: usize = 0;
    while i < p.len()
        invariant
            i <= p@.len(),
            n == s@.len(),
            from + p@.len() <= n,
            forall|j: int| 0 <= j < i ==> s@[from + j] == p@[j],
        decreases p.len() - i,
    {
        if s[from + i] != p[i] {
            assert(s@.skip(from as int).take(p@.len() as int)[i as int] != p@[i as int]);
            return false;
        }
        i += 1;
    }
    assert(s@.skip(from as int).take(p@.len() as int) =~= p@);
    true
}

/// Whether a text starts with another.
pub fn has_prefix(s: &str, p: &str) -> (r: bool)
    ensures
        r == starts_with(s@, p@),
{
    assert(s@.skip(0) =~= s@);
    has_prefix_at(&chars_of(s), 0, &chars_of(p))
}

/// The text without another at its start, as often as it stands there.
pub fn strip_prefixes(s: &str, p: &str) -> (r: String)
    requires
        p@.len() > 0,
    ensures
        r@ == without_prefix(s@, p@),
{
    let chars = chars_of(s);
    let prefix = chars_of(p);
    let mut from: usize = 0;
    assert(chars@.skip(0) =~= chars@);
    while has_prefix_at(&chars, from, &prefix)
        invariant
            from <= chars@.len(),
            prefix@ == p@,
            p@.len() > 0,
            without_prefix(chars@.skip(from as int), p@) == without_prefix(chars@, p@),
        decreases chars.len() - from,
    {
        let ghost rest = chars@.skip(from as int);
        assert(rest.skip(p@.len() as int) =~= chars@.skip(from + p@.len()));
        from += prefix.len();
    }
    assert(chars@.subrange(from as int, chars@.len() as int) =~= chars@.skip(from as int));
    string_from(&chars, from, chars.len())
}

// ── UTF-16 ───────────────────────────────────────────────────────────────────

/// The UTF-16 code units of a character.
pub open spec fn utf16_units(c: char) -> Seq<u16> {
    let v = c as int;
    if v < 0x10000 {
        seq![v as u16]
    } else {
        seq![
            (0xD800 + (v - 0x10000) / 0x400) as u16,
            (0xDC00 + (v - 0x10000) % 0x400) as u16,
        ]
    }
}

/// The UTF-16 code units of a text.
pub open spec fn utf16(s: Seq<char>) -> Seq<u16>
    decreases s.len(),
{
    if s.len() == 0 {
        Seq::empty()
    } else {
        utf16(s.drop_last()) + utf16_units(s.last())
    }
}

fn push_utf16(v: &mut Vec<u16>, c: char)
    ensures
        final(v)@ == old(v)@ + utf16_units(c),
{
    let n: u32 = c as u32;
    if n < 0x10000 {
        v.push(n as u16);
    } else {
        let m: u32 = n - 0x10000;
        v.push((0xD800 + m / 0x400) as u16);
        v.push((0xDC00 + m % 0x400) as u16);
    }
    assert(v@ =~= old(v)@ + utf16_units(c));
}

/// The UTF-16 code units of a text and a zero behind them.
pub fn wide_null(value: &str) -> (r: Vec<u16>)
    ensures
        r@ == utf16(value@).push(0),
{
    let chars = chars_of(value);
    let mut v: Vec<u16> = Vec::new();
    let mut i: usize = 0;
    assert(chars@.take(0) =~= Seq::empty());
    while i < chars.len()
        invariant
            i <= chars@.len(),
            v@ == utf16(chars@.take(i as int)),
        decreases chars.len() - i,
    {
        assert(chars@.take(i + 1).drop_last() =~= chars@.take(i as int));
        push_utf16(&mut v, chars[i]);
        i += 1;
    }
    assert(chars@.take(i as int) =~= chars@);
    v.push(0);
    v
}

// ── Optional strings ─────────────────────────────────────────────────────────

/// The text of an optional string.
pub open spec fn opt_text(s: Option<String>) -> Option<Seq<char>> {
    match s {
        Some(t) => Some(t@),
        None => None,
    }
}

/// Copies an optional string.
pub fn clone_opt(s: &Option<String>) -> (r: Option<String>)
    ensures
        opt_text(r) == opt_text(*s),
{
    match s {
        Some(t) => Some(t.clone()),
        None => None,
    }
}

// ── Control characters ───────────────────────────────────────────────────────

/// Whether a character is in the Unicode category `Cc`.
pub open spec fn is_control(c: char) -> bool {
    let v = c as u32;
    v <= 0x1F || 0x7F <= v <= 0x9F
}

/// Whether a character is a control character.
pub fn is_control_char(c: char) -> (r: bool)
    ensures
        r == is_control(c),
{
    let v: u32 = c as u32;
    v <= 0x1F || (0x7F <= v && v <= 0x9F)
}

// ── White space ──────────────────────────────────────────────────────────────

/// Whether a character has the Unicode property `White_Space`.
pub open spec fn is_space(c: char) -> bool {
    let v = c as u32;
    9 <= v <= 13 || v == 0x20 || v == 0x85 || v == 0xA0 || v == 0x1680 || 0x2000 <= v <= 0x200A
        || v == 0x2028 || v == 0x2029 || v == 0x202F || v == 0x205F || v == 0x3000
}

/// Text without the white space at its end.
pub open spec fn trimmed_end(s: Seq<char>) -> Seq<char>
    decreases s.len(),
{
    if s.len() > 0 && is_space(s.last()) {
        trimmed_end(s.drop_last())
    } else {
        s
    }
}

/// Text without the white space at its start.
pub open spec fn trimmed_start(s: Seq<char>) -> Seq<char>
    decreases s.len(),
{
    if s.len() > 0 && is_space(s[0]) {
        trimmed_start(s.drop_first())
    } else {
        s
    }
}

/// Text without the white space at either end.
pub open spec fn trimmed(s: Seq<char>) -> Seq<char> {
    trimmed_start(trimmed_end(s))
}

/// Whether a character is white space.
pub fn is_white_space(c: char) -> (r: bool)
    ensures
        r == is_space(c),
{
    let v: u32 = c as u32;
    (9 <= v && v <= 13) || v == 0x20 || v == 0x85 || v == 0xA0 || v == 0x1680 || (0x2000 <= v && v
        <= 0x200A) || v == 0x2028 || v == 0x2029 || v == 0x202F || v == 0x205F || v == 0x3000
}

/// The length of the text without the white space at its end.
pub fn trim_end_len(chars: &Vec<char>) -> (n: usize)
    ensures
        n <= chars@.len(),
        chars@.take(n as int) == trimmed_end(chars@),
{
    let mut n: usize = chars.len();
    assert(chars@.take(n as int) =~= chars@);
    while n > 0 && is_white_space(chars[n - 1])
        invariant
            n <= chars@.len(),
            trimmed_end(chars@.take(n as int)) == trimmed_end(chars@),
        decreases n,
    {
        assert(chars@.take(n as int).drop_last() =~= chars@.take(n - 1));
        n -= 1;
    }
    n
}

/// The text without the white space at its end.
pub fn trim_end(s: &str) -> (r: String)
    ensures
        r@ == trimmed_end(s@),
{
    let chars = chars_of(s);
    let n: usize = trim_end_len(&chars);
    assert(chars@.subrange(0, n as int) =~= chars@.take(n as int));
    string_from(&chars, 0, n)
}

/// The text without the white space at either end.
pub fn trim(s: &str) -> (r: String)
    ensures
        r@ == trimmed(s@),
{
    let chars = chars_of(s);
    let n: usize = trim_end_len(&chars);
    let ghost t = trimmed_end(chars@);
    let mut i: usize = 0;
    assert(t.skip(0) =~= t);
    while i < n && is_white_space(chars[i])
        invariant
            i <= n <= chars@.len(),
            t == chars@.take(n as int),
            trimmed_start(t.skip(i as int)) == trimmed_start(t),
        decreases n - i,
    {
        assert(t.skip(i as int)[0] == chars@[i as int]);
        assert(t.skip(i as int).drop_first() =~= t.skip(i + 1));
        i += 1;
    }
    assert(t.skip(i as int).len() > 0 ==> t.skip(i as int)[0] == chars@[i as int]);
    assert(chars@.subrange(i as int, n as int) =~= t.skip(i as int));
    string_from(&chars, i, n)
}

/// What is left after trimming neither starts nor ends with white space, and trimming again
/// changes nothing.
pub proof fn law_trimmed(s: Seq<char>)
    ensures
        trimmed(s).len() > 0 ==> !is_space(trimmed(s)[0]) && !is_space(trimmed(s).last()),
        trimmed(trimmed(s)) == trimmed(s),
{
    lemma_trimmed_end(s);
    lemma_trimmed_start(trimmed_end(s));
}

proof fn lemma_trimmed_end(s: Seq<char>)
    ensures
        trimmed_end(s).len() > 0 ==> !is_space(trimmed_end(s).last()),
    decreases s.len(),
{
    if s.len() > 0 && is_space(s.last()) {
        lemma_trimmed_end(s.drop_last());
    }
}

proof fn lemma_trimmed_start(s: Seq<char>)
    ensures
        trimmed_start(s).len() > 0 ==> !is_space(trimmed_start(s)[0]),
        trimmed_start(s).len() > 0 ==> trimmed_start(s).last() == s.last(),
    decreases s.len(),
{
    if s.len() > 0 && is_space(s[0]) {
        lemma_trimmed_start(s.drop_first());
    }
}

// ── Joining ──────────────────────────────────────────────────────────────────

/// Texts joined by a separator.
pub open spec fn joined(parts: Seq<Seq<char>>, sep: Seq<char>) -> Seq<char>
    decreases parts.len(),
{
    if parts.len() == 0 {
        Seq::empty()
    } else if parts.len() == 1 {
        parts[0]
    } else {
        joined(parts.drop_last(), sep) + sep + parts.last()
    }
}

/// The characters of each string.
pub open spec fn texts(v: Seq<String>) -> Seq<Seq<char>> {
    v.map_values(|s: String| s@)
}

/// Joins strings by a separator.
pub fn join(parts: &Vec<String>, sep: &str) -> (r: String)
    ensures
        r@ == joined(texts(parts@), sep@),
{
    let ghost all = texts(parts@);
    let mut out = String::new();
    let mut i: usize = 0;
    while i < parts.len()
        invariant
            i <= parts@.len(),
            all == texts(parts@),
            out@ == joined(all.take(i as int), sep@),
        decreases parts.len() - i,
    {
        if i > 0 {
            out.append(sep);
        }
        out.append(parts[i].as_str());
        i += 1;
        assert(all.take(i as int).drop_last() =~= all.take(i - 1));
        assert(out@ =~= joined(all.take(i as int), sep@));
    }
    assert(all.take(i as int) =~= all);
    out
}

/// Only text that is all white space is trimmed to nothing.
pub proof fn lemma_blank(s: Seq<char>)
    ensures
        trimmed(s).len() == 0 <==> forall|j: int| 0 <= j < s.len() ==> is_space(#[trigger] s[j]),
{
    lemma_blank_end(s);
    lemma_blank_start(trimmed_end(s));
    if forall|j: int| 0 <= j < s.len() ==> is_space(#[trigger] s[j]) {
    } else {
        lemma_trimmed_end(s);
        let e = trimmed_end(s);
        assert(is_space(e[e.len() - 1]) == is_space(e.last()));
    }
}

proof fn lemma_blank_end(s: Seq<char>)
    ensures
        trimmed_end(s).len() == 0 <==> forall|j: int|
            0 <= j < s.len() ==> is_space(#[trigger] s[j]),
    decreases s.len(),
{
    if s.len() > 0 {
        if is_space(s.last()) {
            lemma_blank_end(s.drop_last());
            let d = s.drop_last();
            if forall|j: int| 0 <= j < d.len() ==> is_space(#[trigger] d[j]) {
                assert forall|j: int| 0 <= j < s.len() implies is_space(#[trigger] s[j]) by {
                    if j < d.len() {
                        assert(is_space(d[j]));
                    }
                }
            }
            if forall|j: int| 0 <= j < s.len() ==> is_space(#[trigger] s[j]) {
                assert forall|j: int| 0 <= j < d.len() implies is_space(#[trigger] d[j]) by {
                    assert(is_space(s[j]));
                }
            }
        } else {
            assert(!is_space(s[s.len() - 1]));
        }
    }
}

proof fn lemma_blank_start(s: Seq<char>)
    ensures
        trimmed_start(s).len() == 0 <==> forall|j: int|
            0 <= j < s.len() ==> is_space(#[trigger] s[j]),
    decreases s.len(),
{
    if s.len() > 0 && is_space(s[0]) {
        let d = s.drop_first();
        lemma_blank_start(d);
        if forall|j: int| 0 <= j < d.len() ==> is_space(#[trigger] d[j]) {
            assert forall|j: int| 0 <= j < s.len() implies is_space(#[trigger] s[j]) by {
                if j > 0 {
                    assert(is_space(d[j - 1]));
                }
            }
        }
        if forall|j: int| 0 <= j < s.len() ==> is_space(#[trigger] s[j]) {
            assert forall|j: int| 0 <= j < d.len() implies is_space(#[trigger] d[j]) by {
                assert(is_space(s[j + 1]));
            }
        }
    }
}

/// The digits of a number denote it, whether they are characters or bytes: the last digit is the
/// number of ones, the digits before it are those of the number of tens, and only a number without
/// tens is a single digit.
pub proof fn law_decimal_digits(n: nat, d: nat)
    requires
        d < 10,
    ensures
        n > 0 ==> decimal(n * 10 + d) == decimal(n).push((48 + d) as char),
        n > 0 ==> decimal_bytes(n * 10 + d) == decimal_bytes(n).push((48 + d) as u8),
        decimal(d) == seq![(48 + d) as char],
        decimal_bytes(d) == seq![(48 + d) as u8],
{
    assert((n * 10 + d) / 10 == n && (n * 10 + d) % 10 == d) by (nonlinear_arith)
        requires
            d < 10,
    ;
}

/// Trimming the end takes off white space, all of it, and nothing else.
pub proof fn law_trimmed_end(s: Seq<char>)
    ensures
        trimmed_end(s).len() <= s.len(),
        trimmed_end(s) == s.take(trimmed_end(s).len() as int),
        trimmed_end(s).len() > 0 ==> !is_space(trimmed_end(s).last()),
        forall|i: int| trimmed_end(s).len() <= i < s.len() ==> is_space(#[trigger] s[i]),
    decreases s.len(),
{
    if s.len() > 0 && is_space(s.last()) {
        law_trimmed_end(s.drop_last());
        let n = trimmed_end(s).len() as int;
        assert(s.drop_last().take(n) =~= s.take(n));
        assert forall|i: int| n <= i < s.len() implies is_space(#[trigger] s[i]) by {
            if i < s.len() - 1 {
                assert(s.drop_last()[i] == s[i]);
            }
        }
    } else {
        assert(s.take(s.len() as int) =~= s);
    }
}

/// Trimming the start takes off white space, all of it, and nothing else.
pub proof fn law_trimmed_start(s: Seq<char>)
    ensures
        trimmed_start(s).len() <= s.len(),
        trimmed_start(s) == s.skip(s.len() - trimmed_start(s).len()),
        trimmed_start(s).len() > 0 ==> !is_space(trimmed_start(s)[0]),
        forall|i: int| 0 <= i < s.len() - trimmed_start(s).len() ==> is_space(#[trigger] s[i]),
    decreases s.len(),
{
    if s.len() > 0 && is_space(s[0]) {
        law_trimmed_start(s.drop_first());
        let n = trimmed_start(s).len() as int;
        assert(s.drop_first().skip(s.len() - 1 - n) =~= s.skip(s.len() - n));
        assert forall|i: int| 0 <= i < s.len() - n implies is_space(#[trigger] s[i]) by {
            if i > 0 {
                assert(s.drop_first()[i - 1] == s[i]);
            }
        }
    } else {
        assert(s.skip(0) =~= s);
    }
}

/// A number that is written in digits is read back, with a plus sign in front or without.
pub proof fn law_indices_are_read(n: nat)
    requires
        n <= usize::MAX,
    ensures
        index_in(decimal(n)) == Some(n),
        index_in(seq!['+'] + decimal(n)) == Some(n),
{
    lemma_decimal_value(n);
    let d = decimal(n);
    assert(is_digit(d[0]));
    assert((seq!['+'] + d).skip(1) =~= d);
}

/// Text with anything but digits in it, apart from a plus sign in front, denotes no number.
pub proof fn law_other_texts_are_no_indices(s: Seq<char>, i: int)
    requires
        0 <= i < s.len(),
        !is_digit(s[i]),
        i > 0 || s[0] != '+',
    ensures
        index_in(s) is None,
        index_in(Seq::empty()) is None,
{
    if s[0] == '+' {
        assert(s.skip(1)[i - 1] == s[i]);
    }
}

/// The parts of a text between separators hold none, and make up the text again.
pub proof fn law_parts_make_up_the_text(s: Seq<char>, sep: char)
    ensures
        split_on(s, sep).len() >= 1,
        joined(split_on(s, sep), seq![sep]) == s,
        forall|i: int|
            0 <= i < split_on(s, sep).len() ==> !(#[trigger] split_on(s, sep)[i]).contains(sep),
    decreases s.len(),
{
    let parts = split_on(s, sep);
    if s.len() == 0 {
        assert(joined(parts, seq![sep]) =~= s);
        assert(!parts[0].contains(sep));
    } else {
        let rest = split_on(s.drop_last(), sep);
        law_parts_make_up_the_text(s.drop_last(), sep);
        if s.last() == sep {
            assert(parts.drop_last() =~= rest);
            assert(joined(parts, seq![sep]) =~= s.drop_last() + seq![sep] + Seq::empty());
            assert(s =~= s.drop_last() + seq![sep]);
            assert forall|i: int| 0 <= i < parts.len() implies !(#[trigger] parts[i]).contains(
                sep,
            ) by {
                if i < rest.len() {
                    assert(parts[i] == rest[i]);
                }
            }
        } else {
            let last = rest.last().push(s.last());
            assert(parts.drop_last() =~= rest.drop_last());
            assert(parts.last() == last);
            if rest.len() == 1 {
                assert(joined(rest, seq![sep]) == rest[0]);
                assert(parts[0] =~= s);
            } else {
                let head = joined(rest.drop_last(), seq![sep]);
                assert(head + seq![sep] + rest.last() == s.drop_last());
                assert(head + seq![sep] + last =~= (head + seq![sep] + rest.last()).push(s.last()));
                assert(s =~= s.drop_last().push(s.last()));
            }
            assert forall|i: int| 0 <= i < parts.len() implies !(#[trigger] parts[i]).contains(
                sep,
            ) by {
                if i < rest.len() - 1 {
                    assert(parts[i] == rest[i]);
                    assert(!rest[i].contains(sep));
                } else {
                    let old = rest[rest.len() - 1];
                    assert(!old.contains(sep));
                    assert forall|j: int| 0 <= j < last.len() implies last[j] != sep by {
                        if j < old.len() {
                            assert(old.contains(old[j]));
                        }
                    }
                }
            }
        }
    }
}

/// Letters have a small and a capital form, and nothing else has another form.
pub proof fn law_letter_case(c: char)
    ensures
        'A' <= c <= 'Z' ==> 'a' <= lower_char(c) <= 'z' && upper_char(lower_char(c)) == c,
        'a' <= c <= 'z' ==> 'A' <= upper_char(c) <= 'Z' && lower_char(upper_char(c)) == c,
        !('A' <= c <= 'Z') ==> lower_char(c) == c,
        !('a' <= c <= 'z') ==> upper_char(c) == c,
        lower_char('A') == 'a',
        lower_char('Z') == 'z',
{
}

/// Of the characters of ASCII, those for tabs, line feeds and the like and the blank are white space,
/// and those below the blank and the last one are control characters.
pub proof fn law_ascii_white_space_and_control(c: char)
    requires
        (c as u32) < 0x80,
    ensures
        is_space(c) <==> c == ' ' || c == '\t' || c == '\n' || c == '\r' || c as u32 == 0x0B || c as u32
            == 0x0C,
        is_control(c) <==> (c as u32) < 0x20 || c as u32 == 0x7F,
{
}

/// A text without a prefix that it starts with is what follows the prefix, and a text that does not
/// start with it is left as it is.
pub proof fn law_prefixes_come_off(p: Seq<char>, rest: Seq<char>)
    requires
        p.len() > 0,
        !starts_with(rest, p),
    ensures
        without_prefix(p + rest, p) == rest,
        without_prefix(rest, p) == rest,
        starts_with(p + rest, p),
{
    assert((p + rest).take(p.len() as int) =~= p);
    assert((p + rest).skip(p.len() as int) =~= rest);
    reveal_with_fuel(without_prefix, 2);
}

/// A character is one unit of UTF-16, its number, or two from which its number can be worked out, the
/// first in the one range for that and the second in the other; and a text is the units of its
/// characters one after the other.
pub proof fn law_units_of_utf16(c: char, a: Seq<char>, b: Seq<char>)
    ensures
        (c as int) < 0x10000 ==> utf16_units(c) == seq![c as u16],
        c as int >= 0x10000 ==> ({
            let u = utf16_units(c);
            &&& u.len() == 2
            &&& 0xD800 <= u[0] < 0xDC00
            &&& 0xDC00 <= u[1] < 0xE000
            &&& (u[0] - 0xD800) * 0x400 + (u[1] - 0xDC00) + 0x10000 == c as int
        }),
        utf16(a + b) == utf16(a) + utf16(b),
        utf16(seq![c]) == utf16_units(c),
    decreases b.len(),
{
    if b.len() == 0 {
        assert(a + b =~= a);
        assert(utf16(a) + Seq::<u16>::empty() =~= utf16(a));
    } else {
        law_units_of_utf16(c, a, b.drop_last());
        assert((a + b).drop_last() =~= a + b.drop_last());
        let x = utf16(a);
        let y = utf16(b.drop_last());
        let z = utf16_units(b.last());
        assert((x + y) + z =~= x + (y + z));
    }
    reveal_with_fuel(utf16, 2);
    assert(seq![c].drop_last() =~= Seq::<char>::empty());
    assert(utf16(seq![c]) =~= utf16_units(c));
}

/// Parts are put together in order with the separator between them, and only there.
pub proof fn law_parts_are_put_together(parts: Seq<Seq<char>>, part: Seq<char>, sep: Seq<char>)
    ensures
        joined(Seq::empty(), sep).len() == 0,
        joined(seq![part], sep) == part,
        parts.len() > 0 ==> joined(parts.push(part), sep) == joined(parts, sep) + sep + part,
{
    assert(parts.push(part).drop_last() =~= parts);
}

} // verus!
