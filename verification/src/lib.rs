//! A terminal video player core: a framed byte-stream reader, a glyph-based
//! render engine with four pixel-packing modes, and the player/search user
//! interface state machine, all with verified contracts.

use vstd::prelude::*;

pub mod ansi;
pub mod raster;
pub mod renderers;
pub mod source;
pub mod tui;
pub mod youtube;

use crate::ansi::{push_decimal, push_str_chars, spec_decimal, str_chars, string_from_chars};

verus! {

/// Whether `c` separates the two numbers of a size argument.
pub open spec fn spec_is_sep(c: char) -> bool {
    c == 'x' || c == 'X' || c == ':' || c == ','
}

/// The parts of `s` split at every separator, kept in order, empty parts
/// included.
pub open spec fn spec_split_dims(s: Seq<char>) -> Seq<Seq<char>>
    decreases s.len(),
{
    if s.len() == 0 {
        seq![Seq::empty()]
    } else if spec_is_sep(s.last()) {
        spec_split_dims(s.drop_last()).push(Seq::empty())
    } else {
        let r = spec_split_dims(s.drop_last());
        r.update(r.len() - 1, r.last().push(s.last()))
    }
}

/// The numeric value of a digit run, most significant first.
pub open spec fn spec_digits_val(s: Seq<char>) -> int
    decreases s.len(),
{
    if s.len() == 0 {
        0
    } else {
        spec_digits_val(s.drop_last()) * 10 + (s.last() as int - '0' as int)
    }
}

/// Whether every character of `s` is a decimal digit.
pub open spec fn spec_all_digits(s: Seq<char>) -> bool {
    forall|i: int| 0 <= i < s.len() ==> '0' <= #[trigger] s[i] <= '9'
}

/// How a decimal number parses as a `u32`: an optional leading plus sign,
/// then at least one digit, all digits, with a value in range.
pub open spec fn spec_parse_u32(s: Seq<char>) -> Option<u32> {
    let body = if s.len() > 0 && s[0] == '+' {
        s.drop_first()
    } else {
        s
    };
    if body.len() == 0 || !spec_all_digits(body) || spec_digits_val(body) > 0xFFFFFFFF {
        Option::None
    } else {
        Option::Some(spec_digits_val(body) as u32)
    }
}

/// How a size argument parses: exactly two separator-delimited parts, each
/// a decimal number in range.
pub open spec fn spec_parse_dims(s: Seq<char>) -> Result<(u32, u32), Seq<char>> {
    let parts = spec_split_dims(s);
    if parts.len() != 2 {
        Result::Err("Failed to parse dims"@)
    } else {
        match (spec_parse_u32(parts[0]), spec_parse_u32(parts[1])) {
            (Option::Some(w), Option::Some(h)) => Result::Ok((w, h)),
            _ => Result::Err("Failed to parse dims"@),
        }
    }
}

/// Once a prefix of the digits is already out of range, the whole run is.
proof fn lemma_digits_val_grows(s: Seq<char>, k: int)
    requires
        0 <= k <= s.len(),
        spec_all_digits(s),
        spec_digits_val(s.take(k)) > 0xFFFFFFFF,
    ensures
        spec_digits_val(s) > 0xFFFFFFFF,
    decreases s.len() - k,
{
    if k < s.len() {
        assert(s.take(k + 1).drop_last() =~= s.take(k));
        assert(s.take(k + 1).last() == s[k]);
        assert(spec_digits_val(s.take(k + 1)) == spec_digits_val(s.take(k)) * 10 + (s[k] as int
            - '0' as int));
        assert(spec_digits_val(s.take(k)) * 10 > 0xFFFFFFFF * 10) by (nonlinear_arith)
            requires
                spec_digits_val(s.take(k)) > 0xFFFFFFFF,
        {
        }
        lemma_digits_val_grows(s, k + 1);
    } else {
        assert(s.take(k) =~= s);
    }
}

fn parse_u32_digits(part: &Vec<char>) -> (r: Option<u32>)
    ensures
        r == spec_parse_u32(part@),
{
    let start: usize = if part.len() > 0 && part[0] == '+' {
        1
    } else {
        0
    };
    let ghost body = if part@.len() > 0 && part@[0] == '+' {
        part@.drop_first()
    } else {
        part@
    };
    proof {
        assert(part@.skip(start as int) =~= body);
    }
    if part.len() == start {
        return None;
    }
    let mut acc: u64 = 0;
    let mut i: usize = start;
    proof {
        assert(body.take(0) =~= Seq::<char>::empty());
    }
    while i < part.len()
        invariant
            start <= i <= part@.len(),
            start <= 1,
            part@.skip(start as int) == body,
            body == (if part@.len() > 0 && part@[0] == '+' {
                part@.drop_first()
            } else {
                part@
            }),
            body.len() == part@.len() - start,
            spec_all_digits(body.take(i - start)),
            acc == spec_digits_val(body.take(i - start)),
            acc <= 0xFFFFFFFF,
        decreases part@.len() - i,
    {
        let c = part[i];
        proof {
            assert(body[i - start] == part@[i as int]);
        }
        if !('0' <= c && c <= '9') {
            proof {
                assert(!spec_all_digits(body));
            }
            return None;
        }
        let d = (c as u32) - ('0' as u32);
        let next: u64 = acc * 10 + (d as u64);
        proof {
            assert(body.take(i + 1 - start).drop_last() =~= body.take(i - start));
            assert(body.take(i + 1 - start).last() == body[i - start]);
        }
        if next > 0xFFFFFFFF {
            proof {
                if spec_all_digits(body) {
                    lemma_digits_val_grows(body, i + 1 - start);
                }
            }
            return None;
        }
        acc = next;
        i = i + 1;
    }
    proof {
        assert(body.take(body.len() as int) =~= body);
    }
    Some(acc as u32)
}

/// Parses a size argument of the form width, a separator, and height.
pub fn parse_dims(dims: &str) -> (r: Result<(u32, u32), String>)
    ensures
        r matches Ok(wh) ==> spec_parse_dims(dims@) == Result::<(u32, u32), Seq<char>>::Ok(wh),
        r matches Err(e) ==> (spec_parse_dims(dims@) matches Err(m) && e@ == m),
{
    let cs = str_chars(dims);
    let mut parts: Vec<Vec<char>> = Vec::new();
    let mut cur: Vec<char> = Vec::new();
    let mut i: usize = 0;
    proof {
        assert(cs@.take(0) =~= Seq::<char>::empty());
        assert(parts@.map_values(|p: Vec<char>| p@).push(cur@) =~= spec_split_dims(cs@.take(0)));
    }
    while i < cs.len()
        invariant
            i <= cs@.len(),
            cs@ == dims@,
            parts@.map_values(|p: Vec<char>| p@).push(cur@) =~= spec_split_dims(
                cs@.take(i as int),
            ),
        decreases cs@.len() - i,
    {
        let c = cs[i];
        if c == 'x' || c == 'X' || c == ':' || c == ',' {
            parts.push(cur);
            cur = Vec::new();
        } else {
            cur.push(c);
        }
        i = i + 1;
        proof {
            assert(cs@.take(i as int).drop_last() =~= cs@.take(i - 1));
            assert(cs@.take(i as int).last() == cs@[i - 1]);
            assert(parts@.map_values(|p: Vec<char>| p@).push(cur@) =~= spec_split_dims(
                cs@.take(i as int),
            ));
        }
    }
    proof {
        assert(cs@.take(cs@.len() as int) =~= cs@);
    }
    parts.push(cur);
    proof {
        assert(parts@.map_values(|p: Vec<char>| p@) =~= spec_split_dims(dims@));
    }
    if parts.len() != 2 {
        return Err(String::from_str("Failed to parse dims"));
    }
    let w = match parse_u32_digits(&parts[0]) {
        Some(w) => w,
        None => {
            return Err(String::from_str("Failed to parse dims"));
        },
    };
    let h = match parse_u32_digits(&parts[1]) {
        Some(h) => h,
        None => {
            return Err(String::from_str("Failed to parse dims"));
        },
    };
    Ok((w, h))
}

/// The one-line JSON header of an export file.
pub open spec fn spec_export_header(framerate: int, width: int, height: int) -> Seq<char> {
    "{\u{22}framerate\u{22}:"@ + spec_decimal(framerate) + ",\u{22}width\u{22}:"@ + spec_decimal(
        width,
    ) + ",\u{22}height\u{22}:"@ + spec_decimal(height) + "}"@
}

/// Writes the export header line naming the frame rate and the fixed
/// output size.
pub fn export_header(framerate: u32, width: u32, height: u32) -> (r: String)
    ensures
        r@ == spec_export_header(framerate as int, width as int, height as int),
{
    let mut out: Vec<char> = Vec::new();
    push_str_chars(&mut out, "{\u{22}framerate\u{22}:");
    push_decimal(&mut out, framerate as u64);
    push_str_chars(&mut out, ",\u{22}width\u{22}:");
    push_decimal(&mut out, width as u64);
    push_str_chars(&mut out, ",\u{22}height\u{22}:");
    push_decimal(&mut out, height as u64);
    push_str_chars(&mut out, "}");
    let r = string_from_chars(&out);
    proof {
        assert(r@ =~= spec_export_header(framerate as int, width as int, height as int));
    }
    r
}

} // verus!
