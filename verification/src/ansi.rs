//! Plain text building blocks: decimal rendering and the 24-bit color
//! escape sequences the render engine emits.

use vstd::prelude::*;

verus! {

/// The decimal digit character for `d`.
pub open spec fn spec_digit(d: int) -> char {
    if d == 0 {
        '0'
    } else if d == 1 {
        '1'
    } else if d == 2 {
        '2'
    } else if d == 3 {
        '3'
    } else if d == 4 {
        '4'
    } else if d == 5 {
        '5'
    } else if d == 6 {
        '6'
    } else if d == 7 {
        '7'
    } else if d == 8 {
        '8'
    } else {
        '9'
    }
}

/// The decimal rendering of a non-negative number, most significant digit
/// first, with no leading zeros (`0` renders as "0").
pub open spec fn spec_decimal(n: int) -> Seq<char>
    decreases n,
{
    if n < 10 {
        seq![spec_digit(n)]
    } else {
        spec_decimal(n / 10).push(spec_digit(n % 10))
    }
}

fn digit_char(d: u64) -> (c: char)
    requires
        d < 10,
    ensures
        c == spec_digit(d as int),
{
    match d {
        0 => '0',
        1 => '1',
        2 => '2',
        3 => '3',
        4 => '4',
        5 => '5',
        6 => '6',
        7 => '7',
        8 => '8',
        _ => '9',
    }
}

/// Appends the decimal rendering of `n` to `out`.
pub fn push_decimal(out: &mut Vec<char>, n: u64)
    ensures
        final(out)@ == old(out)@ + spec_decimal(n as int),
    decreases n,
{
    if n < 10 {
        out.push(digit_char(n));
    } else {
        push_decimal(out, n / 10);
        out.push(digit_char(n % 10));
        assert(out@ =~= old(out)@ + spec_decimal(n as int));
    }
}

/// The introducer shared by all emitted escape sequences.
pub open spec fn spec_csi() -> Seq<char> {
    seq!['\u{1b}', '[']
}

/// `ESC [ 38;2;r;g;b m`: set the foreground to a 24-bit color.
pub open spec fn spec_fg_escape(c: (u8, u8, u8)) -> Seq<char> {
    spec_csi() + seq!['3', '8', ';', '2', ';'] + spec_decimal(c.0 as int) + seq![';']
        + spec_decimal(c.1 as int) + seq![';'] + spec_decimal(c.2 as int) + seq!['m']
}

/// `ESC [ 48;2;r;g;b m`: set the background to a 24-bit color.
pub open spec fn spec_bg_escape(c: (u8, u8, u8)) -> Seq<char> {
    spec_csi() + seq!['4', '8', ';', '2', ';'] + spec_decimal(c.0 as int) + seq![';']
        + spec_decimal(c.1 as int) + seq![';'] + spec_decimal(c.2 as int) + seq!['m']
}

/// `ESC [ 0 m`: reset all attributes.
pub open spec fn spec_reset_escape() -> Seq<char> {
    spec_csi() + seq!['0', 'm']
}

/// `ESC [ 1 m`: bold.
pub open spec fn spec_bold_escape() -> Seq<char> {
    spec_csi() + seq!['1', 'm']
}

fn push_color_escape(out: &mut Vec<char>, ground: char, c: (u8, u8, u8))
    ensures
        final(out)@ == old(out)@ + spec_csi() + seq![ground] + seq!['8', ';', '2', ';'] + spec_decimal(
            c.0 as int,
        ) + seq![';'] + spec_decimal(c.1 as int) + seq![';'] + spec_decimal(c.2 as int)
            + seq!['m'],
{
    out.push('\u{1b}');
    out.push('[');
    out.push(ground);
    out.push('8');
    out.push(';');
    out.push('2');
    out.push(';');
    push_decimal(out, c.0 as u64);
    out.push(';');
    push_decimal(out, c.1 as u64);
    out.push(';');
    push_decimal(out, c.2 as u64);
    out.push('m');
    assert(out@ =~= old(out)@ + spec_csi() + seq![ground] + seq!['8', ';', '2', ';']
        + spec_decimal(c.0 as int) + seq![';'] + spec_decimal(c.1 as int) + seq![';']
        + spec_decimal(c.2 as int) + seq!['m']);
}

/// Appends the foreground color escape for `c`.
pub fn push_fg_escape(out: &mut Vec<char>, c: (u8, u8, u8))
    ensures
        final(out)@ == old(out)@ + spec_fg_escape(c),
{
    push_color_escape(out, '3', c);
    assert(out@ =~= old(out)@ + spec_fg_escape(c));
}

/// Appends the background color escape for `c`.
pub fn push_bg_escape(out: &mut Vec<char>, c: (u8, u8, u8))
    ensures
        final(out)@ == old(out)@ + spec_bg_escape(c),
{
    push_color_escape(out, '4', c);
    assert(out@ =~= old(out)@ + spec_bg_escape(c));
}

/// Appends the attribute reset escape.
pub fn push_reset_escape(out: &mut Vec<char>)
    ensures
        final(out)@ == old(out)@ + spec_reset_escape(),
{
    out.push('\u{1b}');
    out.push('[');
    out.push('0');
    out.push('m');
    assert(out@ =~= old(out)@ + spec_reset_escape());
}

/// Appends the bold escape.
pub fn push_bold_escape(out: &mut Vec<char>)
    ensures
        final(out)@ == old(out)@ + spec_bold_escape(),
{
    out.push('\u{1b}');
    out.push('[');
    out.push('1');
    out.push('m');
    assert(out@ =~= old(out)@ + spec_bold_escape());
}

/// A run of `n` copies of `c`.
pub open spec fn spec_repeat_char(c: char, n: int) -> Seq<char>
    decreases n,
{
    if n <= 0 {
        Seq::empty()
    } else {
        spec_repeat_char(c, n - 1).push(c)
    }
}

/// Appends `n` copies of `c` to `out`.
pub fn push_repeat_char(out: &mut Vec<char>, c: char, n: usize)
    ensures
        final(out)@ == old(out)@ + spec_repeat_char(c, n as int),
{
    let mut i: usize = 0;
    while i < n
        invariant
            i <= n,
            out@ == old(out)@ + spec_repeat_char(c, i as int),
        decreases n - i,
    {
        out.push(c);
        i = i + 1;
        assert(out@ =~= old(out)@ + spec_repeat_char(c, i as int));
    }
}

/// The characters of `s`, in order, as a vector.
pub fn str_chars(s: &str) -> (r: Vec<char>)
    ensures
        r@ == s@,
{
    let n = s.unicode_len();
    let mut r: Vec<char> = Vec::new();
    let mut i: usize = 0;
    while i < n
        invariant
            n == s@.len(),
            i <= n,
            r@ == s@.take(i as int),
        decreases n - i,
    {
        r.push(s.get_char(i));
        i = i + 1;
        assert(r@ =~= s@.take(i as int));
    }
    proof {
        assert(s@.take(n as int) =~= s@);
    }
    r
}

/// Appends the characters of `s` to `out`.
pub fn push_str_chars(out: &mut Vec<char>, s: &str)
    ensures
        final(out)@ == old(out)@ + s@,
{
    let cs = str_chars(s);
    let mut k: usize = 0;
    while k < cs.len()
        invariant
            k <= cs@.len(),
            cs@ == s@,
            out@ == old(out)@ + cs@.take(k as int),
        decreases cs@.len() - k,
    {
        out.push(cs[k]);
        k = k + 1;
        assert(out@ =~= old(out)@ + cs@.take(k as int));
    }
    proof {
        assert(cs@.take(cs@.len() as int) =~= cs@);
    }
}

/// Whether two strings hold the same characters.
pub fn str_eq(a: &str, b: &str) -> (r: bool)
    ensures
        r == (a@ == b@),
{
    let ca = str_chars(a);
    let cb = str_chars(b);
    if ca.len() != cb.len() {
        return false;
    }
    let mut i: usize = 0;
    while i < ca.len()
        invariant
            i <= ca@.len(),
            ca@ == a@,
            cb@ == b@,
            ca@.len() == cb@.len(),
            forall|k: int| 0 <= k < i ==> ca@[k] == cb@[k],
        decreases ca@.len() - i,
    {
        if ca[i] != cb[i] {
            return false;
        }
        i = i + 1;
    }
    proof {
        assert(a@ =~= b@);
    }
    true
}

/// Builds the `String` holding exactly these characters.
///
/// Relies on `String::from_iter` over `Vec<char>`: the resulting string is
/// the concatenation of the characters in order.
#[verifier::external_body]
pub(crate) fn string_from_chars(v: &Vec<char>) -> (r: String)
    ensures
        r@ == v@,
{
    v.iter().collect()
}

} // verus!
