use vstd::prelude::*;

verus! {

/// The lower-case hexadecimal digit for `d` (0 to 15).
pub open spec fn hex_char(d: int) -> char {
    if d < 10 {
        digit_char(d)
    } else if d == 10 {
        'a'
    } else if d == 11 {
        'b'
    } else if d == 12 {
        'c'
    } else if d == 13 {
        'd'
    } else if d == 14 {
        'e'
    } else {
        'f'
    }
}

/// The characters that stand for `c` inside a JSON double-quoted value:
/// backslash, quote, newline and tab by their short escapes, every other
/// control character (below U+0020) as `\u00XX`, the rest as themselves.
pub open spec fn escape_char(c: char) -> Seq<char> {
    if c == '\\' {
        seq!['\\', '\\']
    } else if c == '"' {
        seq!['\\', '"']
    } else if c == '\n' {
        seq!['\\', 'n']
    } else if c == '\t' {
        seq!['\\', 't']
    } else if (c as u32) < 0x20 {
        seq!['\\', 'u', '0', '0', hex_char(((c as u32) / 16) as int), hex_char(((c as u32) % 16) as int)]
    } else {
        seq![c]
    }
}

/// `s` with every character replaced by what stands for it inside a JSON
/// double-quoted value.
pub open spec fn json_escape(s: Seq<char>) -> Seq<char>
    decreases s.len(),
{
    if s.len() == 0 {
        Seq::empty()
    } else {
        json_escape(s.drop_last()) + escape_char(s.last())
    }
}

/// Appends one character to a string (`String::push`).
#[verifier::external_body]
pub(crate) fn push_char(s: &mut String, c: char)
    ensures
        final(s)@ == old(s)@.push(c),
{
    s.push(c);
}

fn hex_digit(d: u32) -> (c: char)
    requires
        d < 16,
    ensures
        c == hex_char(d as int),
{
    match d {
        0 => '0',
        1 => '1',
        2 => '2',
        3 => '3',
        4 => '4',
        5 => '5',
        6 => '6',
        7 => '7',
        8 => '8',
        9 => '9',
        10 => 'a',
        11 => 'b',
        12 => 'c',
        13 => 'd',
        14 => 'e',
        _ => 'f',
    }
}

/// Escape a string for embedding inside a JSON double-quoted value.
pub fn json_str(s: &str) -> (r: String)
    ensures
        r@ == json_escape(s@),
{
    let mut out = String::new();
    let n = s.unicode_len();
    let mut i: usize = 0;
    while i < n
        invariant
            n == s@.len(),
            i <= n,
            out@ == json_escape(s@.subrange(0, i as int)),
        decreases n - i,
    {
        let c = s.get_char(i);
        assert(s@.subrange(0, i + 1).drop_last() == s@.subrange(0, i as int));
        if c == '\\' {
            push_char(&mut out, '\\');
            push_char(&mut out, '\\');
        } else if c == '"' {
            push_char(&mut out, '\\');
            push_char(&mut out, '"');
        } else if c == '\n' {
            push_char(&mut out, '\\');
            push_char(&mut out, 'n');
        } else if c == '\t' {
            push_char(&mut out, '\\');
            push_char(&mut out, 't');
        } else if (c as u32) < 0x20 {
            let code = c as u32;
            push_char(&mut out, '\\');
            push_char(&mut out, 'u');
            push_char(&mut out, '0');
            push_char(&mut out, '0');
            push_char(&mut out, hex_digit(code / 16));
            push_char(&mut out, hex_digit(code % 16));
        } else {
            push_char(&mut out, c);
        }
        i = i + 1;
    }
    assert(s@.subrange(0, n as int) == s@);
    out
}

/// The decimal digit for `d` (0 to 9).
pub open spec fn digit_char(d: int) -> char {
    if d == 0 {
        '0'
    } else if d == 1 {
        '1'
    } else if d == 2 {
        '2'
    } else if d == 3 {
        '3'
    } else if d == 4 {
        '4'
    } else if d == 5 {
        '5'
    } else if d == 6 {
        '6'
    } else if d == 7 {
        '7'
    } else if d == 8 {
        '8'
    } else {
        '9'
    }
}

/// `n` written in decimal, without leading zeros.
pub open spec fn decimal(n: nat) -> Seq<char>
    decreases n,
{
    if n < 10 {
        seq![digit_char(n as int)]
    } else {
        decimal(n / 10) + seq![digit_char((n % 10) as int)]
    }
}

fn digit(d: u128) -> (c: char)
    requires
        d < 10,
    ensures
        c == digit_char(d as int),
{
    match d {
        0 => '0',
        1 => '1',
        2 => '2',
        3 => '3',
        4 => '4',
        5 => '5',
        6 => '6',
        7 => '7',
        8 => '8',
        _ => '9',
    }
}

/// Appends `n` written in decimal.
pub fn push_decimal(s: &mut String, n: u128)
    ensures
        final(s)@ == old(s)@ + decimal(n as nat),
    decreases n,
{
    if n >= 10 {
        push_decimal(s, n / 10);
    }
    push_char(s, digit(n % 10));
    assert(n < 10 ==> n % 10 == n);
}

/// The value of a hexadecimal digit of either case (0 for any other character).
pub open spec fn hex_value(c: char) -> int {
    let v = c as int;
    if 48 <= v <= 57 {
        v - 48
    } else if 97 <= v <= 102 {
        v - 87
    } else if 65 <= v <= 70 {
        v - 55
    } else {
        0
    }
}

/// Whether `c` is a hexadecimal digit of either case.
pub open spec fn is_hex(c: char) -> bool {
    let v = c as int;
    (48 <= v <= 57) || (97 <= v <= 102) || (65 <= v <= 70)
}

/// Whether a backslash followed by `c` is one of JSON's two-character escapes.
pub open spec fn is_short_escape(c: char) -> bool {
    c == '"' || c == '\\' || c == '/' || c == 'b' || c == 'f' || c == 'n' || c == 'r' || c == 't'
}

/// The character that `c` stands for after a backslash.
pub open spec fn unescape_char(c: char) -> char {
    if c == 'n' {
        '\n'
    } else if c == 't' {
        '\t'
    } else if c == 'r' {
        '\r'
    } else if c == 'b' {
        '\u{8}'
    } else if c == 'f' {
        '\u{c}'
    } else {
        c
    }
}

/// The character whose code point is `v`.
pub open spec fn char_of(v: int) -> char {
    (v as u32) as char
}

/// The code point written by the four hexadecimal digits of `s` from `i` on.
pub open spec fn hex4(s: Seq<char>, i: int) -> int {
    hex_value(s[i]) * 4096 + hex_value(s[i + 1]) * 256 + hex_value(s[i + 2]) * 16 + hex_value(
        s[i + 3],
    )
}

/// Reads back the body of a JSON double-quoted value: a backslash, `u` and
/// four hexadecimal digits stand for the character with that code point, a
/// backslash and one other character for one character, every other
/// character for itself.
pub open spec fn json_unescape(s: Seq<char>) -> Seq<char>
    decreases s.len(),
{
    if s.len() == 0 {
        Seq::empty()
    } else if s[0] == '\\' && s.len() >= 6 && s[1] == 'u' {
        seq![char_of(hex4(s, 2))] + json_unescape(s.subrange(6, s.len() as int))
    } else if s[0] == '\\' && s.len() >= 2 {
        seq![unescape_char(s[1])] + json_unescape(s.subrange(2, s.len() as int))
    } else {
        seq![s[0]] + json_unescape(s.drop_first())
    }
}

/// Whether `s` is a valid body of a JSON double-quoted value: no raw control
/// character (below U+0020), no quote that would end it, and every backslash
/// followed by a two-character escape or by `u` and four hexadecimal digits.
pub open spec fn well_escaped(s: Seq<char>) -> bool
    decreases s.len(),
{
    if s.len() == 0 {
        true
    } else if s[0] == '\\' {
        if s.len() >= 2 && is_short_escape(s[1]) {
            well_escaped(s.subrange(2, s.len() as int))
        } else {
            &&& s.len() >= 6
            &&& s[1] == 'u'
            &&& is_hex(s[2]) && is_hex(s[3]) && is_hex(s[4]) && is_hex(s[5])
            &&& well_escaped(s.subrange(6, s.len() as int))
        }
    } else {
        (s[0] as u32) >= 0x20 && s[0] != '"' && well_escaped(s.drop_first())
    }
}

proof fn lemma_hex_char(d: int)
    requires
        0 <= d < 16,
    ensures
        is_hex(hex_char(d)),
        hex_value(hex_char(d)) == d,
{
}

proof fn lemma_char_of(c: char)
    ensures
        char_of((c as u32) as int) == c,
{
    vstd::utf8::char_u32_cast(c, c as u32);
}

pub(crate) proof fn lemma_json_escape_concat(a: Seq<char>, b: Seq<char>)
    ensures
        json_escape(a + b) == json_escape(a) + json_escape(b),
    decreases b.len(),
{
    if b.len() == 0 {
        assert(a + b =~= a);
        assert(json_escape(a) + json_escape(b) =~= json_escape(a));
    } else {
        lemma_json_escape_concat(a, b.drop_last());
        assert((a + b).drop_last() =~= a + b.drop_last());
        assert((a + b).last() == b.last());
        assert(json_escape(a + b) =~= json_escape(a) + json_escape(b.drop_last()) + escape_char(
            b.last(),
        ));
    }
}

proof fn lemma_json_escape_first(s: Seq<char>)
    requires
        s.len() > 0,
    ensures
        json_escape(s) == escape_char(s[0]) + json_escape(s.drop_first()),
{
    lemma_json_escape_concat(seq![s[0]], s.drop_first());
    assert(seq![s[0]] + s.drop_first() =~= s);
    let one = seq![s[0]];
    assert(one.drop_last() =~= Seq::<char>::empty());
    assert(one.last() == s[0]);
    assert(json_escape(Seq::<char>::empty()) =~= Seq::<char>::empty());
    assert(json_escape(one) == json_escape(one.drop_last()) + escape_char(one.last()));
    assert(json_escape(one) =~= escape_char(s[0]));
}

/// Escaping gives a valid body of a JSON double-quoted value, and reading
/// that value back gives the original text.
pub proof fn lemma_json_escape_reads_back(s: Seq<char>)
    ensures
        json_unescape(json_escape(s)) == s,
        well_escaped(json_escape(s)),
    decreases s.len(),
{
    if s.len() == 0 {
        assert(json_escape(s) =~= Seq::<char>::empty());
        assert(json_unescape(json_escape(s)) =~= s);
    } else {
        lemma_json_escape_first(s);
        lemma_json_escape_reads_back(s.drop_first());
        let c = s[0];
        let rest = json_escape(s.drop_first());
        let e = escape_char(c) + rest;
        let n = escape_char(c).len() as int;
        assert(e.subrange(n, e.len() as int) =~= rest);
        if n == 6 {
            assert((c as u32) < 0x20);
            lemma_hex_char(((c as u32) / 16) as int);
            lemma_hex_char(((c as u32) % 16) as int);
            lemma_char_of(c);
            assert(e[0] == '\\' && e[1] == 'u');
            assert(hex4(e, 2) == (c as u32) as int);
            assert(!is_short_escape(e[1]));
            assert(is_hex(e[2]) && is_hex(e[3]) && is_hex(e[4]) && is_hex(e[5]));
        } else if n == 2 {
            assert(e[0] == '\\');
            assert(e[1] != 'u');
            assert(is_short_escape(e[1]));
        } else {
            assert(e.drop_first() =~= rest);
            assert(e[0] == c);
            assert(!((c as u32) < 0x20));
        }
        assert(json_unescape(e) =~= s);
        assert(well_escaped(e));
    }
}

/// Whether `s` holds no character that JSON escaping changes: no control
/// character, quote or backslash.
pub open spec fn plain(s: Seq<char>) -> bool {
    forall|i: int| 0 <= i < s.len() ==> (#[trigger] s[i] as u32) >= 0x20 && s[i] != '"' && s[i] != '\\'
}

pub(crate) proof fn lemma_plain_concat(a: Seq<char>, b: Seq<char>)
    requires
        plain(a),
        plain(b),
    ensures
        plain(a + b),
{
    assert forall|i: int| 0 <= i < (a + b).len() implies ((#[trigger] (a + b)[i]) as u32) >= 0x20
        && (a + b)[i] != '"' && (a + b)[i] != '\\' by {
        if i >= a.len() {
            assert((a + b)[i] == b[i - a.len()]);
        } else {
            assert((a + b)[i] == a[i]);
        }
    }
}

/// Escaping leaves plain text as it is.
pub(crate) proof fn lemma_json_escape_plain(s: Seq<char>)
    requires
        plain(s),
    ensures
        json_escape(s) == s,
    decreases s.len(),
{
    if s.len() > 0 {
        let t = s.drop_last();
        assert(plain(t)) by {
            assert forall|i: int| 0 <= i < t.len() implies ((#[trigger] t[i]) as u32) >= 0x20 && t[i]
                != '"' && t[i] != '\\' by {
                assert(t[i] == s[i]);
            }
        }
        lemma_json_escape_plain(t);
        let c = s.last();
        assert(c == s[s.len() - 1]);
        assert(escape_char(c) =~= seq![c]);
        assert(t + seq![c] =~= s);
    }
}

proof fn lemma_digit_char_plain(d: int)
    ensures
        plain(seq![digit_char(d)]),
{
    let c = digit_char(d);
    assert((c as u32) >= 0x30 && (c as u32) <= 0x39);
    assert(seq![c][0] == c);
}

/// Decimal digits are plain.
pub(crate) proof fn lemma_decimal_plain(n: nat)
    ensures
        plain(decimal(n)),
    decreases n,
{
    if n < 10 {
        lemma_digit_char_plain(n as int);
    } else {
        lemma_decimal_plain(n / 10);
        lemma_digit_char_plain((n % 10) as int);
        lemma_plain_concat(decimal(n / 10), seq![digit_char((n % 10) as int)]);
    }
}

} // verus!
