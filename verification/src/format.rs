//! Human-readable wording: durations, unit counts, deadline countdowns, and
//! JSON string literals.
use vstd::prelude::*;
use crate::text::{dec, dec_int, dec_pad, push_dec, push_dec_i64, push_dec_pad, push_str, string_of};

verus! {

/// `"<n> <unit>s"`, or `"1 <unit>"` for exactly one.
pub open spec fn plural_spec(n: int, unit: Seq<char>) -> Seq<char> {
    if n == 1 {
        "1 "@ + unit
    } else {
        dec_int(n) + " "@ + unit + "s"@
    }
}

fn push_plural(out: &mut Vec<char>, n: i64, unit: &str)
    ensures
        final(out)@ == old(out)@ + plural_spec(n as int, unit@),
{
    let ghost start = out@;
    if n == 1 {
        push_str(out, "1 ");
        push_str(out, unit);
        proof {
            assert(out@ =~= start + plural_spec(n as int, unit@));
        }
    } else {
        push_dec_i64(out, n);
        push_str(out, " ");
        push_str(out, unit);
        push_str(out, "s");
        proof {
            assert(out@ =~= start + plural_spec(n as int, unit@));
        }
    }
}

/// A whole number of units keeps the integer wording: `q * den / den` reads
/// as `plural(q, unit)`.
pub proof fn lemma_decimal_whole(q: int, den: int, unit: Seq<char>)
    requires
        den >= 1,
    ensures
        decimal_spec(q * den, den, unit) == plural_spec(q, unit),
{
    assert(200 * (q * den) + den == (100 * q) * (2 * den) + den) by (nonlinear_arith);
    vstd::arithmetic::div_mod::lemma_fundamental_div_mod_converse(200 * (q * den) + den, 2 * den, 100 * q, den);
    assert(hundredths(q * den, den) == 100 * q);
}

/// `"<n> <unit>s"`, or `"1 <unit>"` for exactly one.
pub fn plural(n: i64, unit: &str) -> (r: String)
    ensures
        r@ == plural_spec(n as int, unit@),
{
    let mut out: Vec<char> = Vec::new();
    push_plural(&mut out, n, unit);
    string_of(out.as_slice())
}

/// `"<head> and <n> <unit>s"`, or just `head` when `n <= 0`.
pub open spec fn and_then_spec(head: Seq<char>, n: int, unit: Seq<char>) -> Seq<char> {
    if n <= 0 {
        head
    } else {
        head + " and "@ + plural_spec(n, unit)
    }
}

/// `"<head> and <n> <unit>s"`, or just `head` when `n <= 0`.
pub fn and_then(head: String, n: i64, unit: &str) -> (r: String)
    ensures
        r@ == and_then_spec(head@, n as int, unit@),
{
    if n <= 0 {
        return head;
    }
    let mut out: Vec<char> = Vec::new();
    push_str(&mut out, head.as_str());
    push_str(&mut out, " and ");
    push_plural(&mut out, n, unit);
    proof {
        assert(out@ =~= and_then_spec(head@, n as int, unit@));
    }
    string_of(out.as_slice())
}

/// The ratio `num / den`, rounded half up to hundredths, in hundredths.
pub open spec fn hundredths(num: int, den: int) -> int {
    (200 * num + den) / (2 * den)
}

/// `num / den` in `unit`, rounded to two decimals: a whole number keeps the
/// integer wording (`"3 weeks"`), a fraction is spelled out with at most one
/// trailing zero dropped (`"0.25 months"`, `"1.5 weeks"`).
pub open spec fn decimal_spec(num: int, den: int, unit: Seq<char>) -> Seq<char> {
    let h = hundredths(num, den);
    if h % 100 == 0 {
        plural_spec(h / 100, unit)
    } else if h % 10 == 0 {
        dec((h / 100) as nat) + "."@ + dec(((h % 100) / 10) as nat) + " "@ + unit + "s"@
    } else {
        dec((h / 100) as nat) + "."@ + dec_pad((h % 100) as nat, 2) + " "@ + unit + "s"@
    }
}

/// [`decimal_spec`] for a non-negative ratio.
pub fn decimal(num: i64, den: i64, unit: &str) -> (r: String)
    requires
        0 <= num <= 1_000_000_000_000,
        1 <= den <= 1_000_000,
    ensures
        r@ == decimal_spec(num as int, den as int, unit@),
{
    let h: i64 = (200 * num + den) / (2 * den);
    proof {
        assert(0 <= h) by (nonlinear_arith)
            requires
                h == (200 * num + den) / (2 * den),
                num >= 0,
                den >= 1,
        ;
    }
    if h % 100 == 0 {
        return plural(h / 100, unit);
    }
    let mut out: Vec<char> = Vec::new();
    push_dec(&mut out, (h / 100) as u64);
    push_str(&mut out, ".");
    if h % 10 == 0 {
        push_dec(&mut out, ((h % 100) / 10) as u64);
    } else {
        push_dec_pad(&mut out, (h % 100) as u64, 2);
    }
    push_str(&mut out, " ");
    push_str(&mut out, unit);
    push_str(&mut out, "s");
    proof {
        assert(out@ =~= decimal_spec(num as int, den as int, unit@));
    }
    string_of(out.as_slice())
}

/// `"<h>h <mm>m"` for `h > 0`, else `"<m>m"`.
pub open spec fn hm_spec(secs: int) -> Seq<char> {
    let h = secs / 3600;
    let m = (secs % 3600) / 60;
    if h == 0 {
        dec(m as nat) + "m"@
    } else {
        dec(h as nat) + "h "@ + dec_pad(m as nat, 2) + "m"@
    }
}

fn push_hm(out: &mut Vec<char>, secs: i64)
    requires
        secs > 0,
    ensures
        final(out)@ == old(out)@ + hm_spec(secs as int),
{
    let ghost start = out@;
    let h = secs / 3600;
    let m = (secs % 3600) / 60;
    if h == 0 {
        push_dec(out, m as u64);
        push_str(out, "m");
    } else {
        push_dec(out, h as u64);
        push_str(out, "h ");
        push_dec_pad(out, m as u64, 2);
        push_str(out, "m");
    }
    proof {
        assert(out@ =~= start + hm_spec(secs as int));
    }
}

/// Seconds as `"0m"` / `"45m"` / `"6h 20m"`, for a view's total line.
pub open spec fn human_hm_spec(secs: int) -> Seq<char> {
    if secs <= 0 {
        "0m"@
    } else {
        hm_spec(secs)
    }
}

/// Seconds as `"0m"` / `"45m"` / `"6h 20m"`, for a view's total line.
pub fn human_hm(secs: i64) -> (r: String)
    ensures
        r@ == human_hm_spec(secs as int),
{
    if secs <= 0 {
        return "0m".to_owned();
    }
    let mut out: Vec<char> = Vec::new();
    push_hm(&mut out, secs);
    string_of(out.as_slice())
}

/// Seconds as a compact `Hh MMm` / `Mm` / `Ss` string, `"-"` for none.
pub open spec fn human_duration_spec(secs: int) -> Seq<char> {
    if secs <= 0 {
        "-"@
    } else if secs < 60 {
        dec(secs as nat) + "s"@
    } else {
        hm_spec(secs)
    }
}

/// Seconds as a compact `Hh MMm` / `Mm` / `Ss` string, `"-"` for none.
pub fn human_duration(secs: i64) -> (r: String)
    ensures
        r@ == human_duration_spec(secs as int),
{
    if secs <= 0 {
        return "-".to_owned();
    }
    let mut out: Vec<char> = Vec::new();
    if secs < 60 {
        push_dec(&mut out, secs as u64);
        push_str(&mut out, "s");
        proof {
            assert(out@ =~= human_duration_spec(secs as int));
        }
    } else {
        push_hm(&mut out, secs);
        proof {
            assert(out@ =~= human_duration_spec(secs as int));
        }
    }
    string_of(out.as_slice())
}

/// A running total: `"0m"` for none, seconds below a minute, then minutes
/// and hours.
pub open spec fn human_total_spec(secs: int) -> Seq<char> {
    if secs <= 0 {
        "0m"@
    } else if secs < 60 {
        dec(secs as nat) + "s"@
    } else {
        hm_spec(secs)
    }
}

/// A running total: `"0m"` for none, seconds below a minute, then minutes
/// and hours (a sub-minute span reads in seconds rather than `"0m"`).
pub fn human_total(secs: i64) -> (r: String)
    ensures
        r@ == human_total_spec(secs as int),
{
    if secs <= 0 {
        return "0m".to_owned();
    }
    let mut out: Vec<char> = Vec::new();
    if secs < 60 {
        push_dec(&mut out, secs as u64);
        push_str(&mut out, "s");
        proof {
            assert(out@ =~= human_total_spec(secs as int));
        }
    } else {
        push_hm(&mut out, secs);
        proof {
            assert(out@ =~= human_total_spec(secs as int));
        }
    }
    string_of(out.as_slice())
}

/// The same wording as [`human_total`], for the heatmap's cells and totals.
pub fn human_hours(secs: i64) -> (r: String)
    ensures
        r@ == human_total_spec(secs as int),
{
    human_total(secs)
}

// --- JSON string literals ----------------------------------------------------------

/// Lower-case hexadecimal digit.
pub open spec fn hex_digit(d: nat) -> char {
    if d < 10 {
        (('0' as u32) + d) as char
    } else {
        (('a' as u32) + d - 10) as char
    }
}

/// The JSON escape of one character: quote, backslash, `\n`, `\r`, `\t` by
/// name, other control characters as `\u00XX`, everything else as itself.
pub open spec fn json_escape(c: char) -> Seq<char> {
    if c == '"' {
        seq!['\\', '"']
    } else if c == '\\' {
        seq!['\\', '\\']
    } else if c == '\n' {
        seq!['\\', 'n']
    } else if c == '\r' {
        seq!['\\', 'r']
    } else if c == '\t' {
        seq!['\\', 't']
    } else if (c as u32) < 0x20 {
        seq!['\\', 'u', '0', '0', hex_digit(((c as u32) / 16) as nat), hex_digit(((c as u32) % 16) as nat)]
    } else {
        seq![c]
    }
}

/// The escapes of `s[..n]`, in order.
pub open spec fn json_body(s: Seq<char>) -> Seq<char>
    decreases s.len(),
{
    if s.len() == 0 {
        seq![]
    } else {
        json_body(s.drop_last()) + json_escape(s.last())
    }
}

/// `s` as a JSON string literal.
pub open spec fn json_str_spec(s: Seq<char>) -> Seq<char> {
    seq!['"'] + json_body(s) + seq!['"']
}

fn hex(d: u32) -> (c: char)
    requires
        d < 16,
    ensures
        c == hex_digit(d as nat),
{
    if d < 10 {
        ((48 + d) as u8) as char
    } else {
        ((97 + d - 10) as u8) as char
    }
}

/// Appends the JSON string literal for `s`.
pub fn push_json_str(out: &mut Vec<char>, s: &[char])
    ensures
        final(out)@ == old(out)@ + json_str_spec(s@),
{
    let ghost start = out@;
    out.push('"');
    let mut k: usize = 0;
    while k < s.len()
        invariant
            k <= s.len(),
            out@ == start + seq!['"'] + json_body(s@.take(k as int)),
        decreases s.len() - k,
    {
        let c = s[k];
        let ghost before = out@;
        if c == '"' {
            out.push('\\');
            out.push('"');
        } else if c == '\\' {
            out.push('\\');
            out.push('\\');
        } else if c == '\n' {
            out.push('\\');
            out.push('n');
        } else if c == '\r' {
            out.push('\\');
            out.push('r');
        } else if c == '\t' {
            out.push('\\');
            out.push('t');
        } else if (c as u32) < 0x20 {
            out.push('\\');
            out.push('u');
            out.push('0');
            out.push('0');
            out.push(hex((c as u32) / 16));
            out.push(hex((c as u32) % 16));
        } else {
            out.push(c);
        }
        proof {
            assert(out@ =~= before + json_escape(c));
            assert(s@.take(k + 1).drop_last() =~= s@.take(k as int));
        }
        k += 1;
    }
    out.push('"');
    proof {
        assert(s@.take(k as int) =~= s@);
        assert(out@ =~= start + json_str_spec(s@));
    }
}

/// Minimal JSON string escaping (quotes, backslash, control characters).
pub fn json_str(s: &str) -> (r: String)
    ensures
        r@ == json_str_spec(s@),
{
    let v = crate::text::chars_of(s);
    let mut out: Vec<char> = Vec::new();
    push_json_str(&mut out, v.as_slice());
    proof {
        assert(out@ =~= json_str_spec(s@));
    }
    string_of(out.as_slice())
}

/// The escape that `serde_json` writes for one character: like
/// [`json_escape`], but backspace and form feed go by name (`\b`, `\f`).
pub open spec fn serde_escape(c: char) -> Seq<char> {
    if c == '\u{8}' {
        seq!['\\', 'b']
    } else if c == '\u{c}' {
        seq!['\\', 'f']
    } else {
        json_escape(c)
    }
}

/// The [`serde_escape`]s of `s`, in order.
pub open spec fn serde_body(s: Seq<char>) -> Seq<char>
    decreases s.len(),
{
    if s.len() == 0 {
        seq![]
    } else {
        serde_body(s.drop_last()) + serde_escape(s.last())
    }
}

/// `s` as the JSON string literal that `serde_json` writes for it.
pub open spec fn serde_str_spec(s: Seq<char>) -> Seq<char> {
    seq!['"'] + serde_body(s) + seq!['"']
}

/// Appends the JSON string literal for `s`, escaped as `serde_json` does.
pub fn push_serde_str(out: &mut Vec<char>, s: &[char])
    ensures
        final(out)@ == old(out)@ + serde_str_spec(s@),
{
    let ghost start = out@;
    out.push('"');
    let mut k: usize = 0;
    while k < s.len()
        invariant
            k <= s.len(),
            out@ == start + seq!['"'] + serde_body(s@.take(k as int)),
        decreases s.len() - k,
    {
        let c = s[k];
        let ghost before = out@;
        if c == '\u{8}' {
            out.push('\\');
            out.push('b');
        } else if c == '\u{c}' {
            out.push('\\');
            out.push('f');
        } else if c == '"' {
            out.push('\\');
            out.push('"');
        } else if c == '\\' {
            out.push('\\');
            out.push('\\');
        } else if c == '\n' {
            out.push('\\');
            out.push('n');
        } else if c == '\r' {
            out.push('\\');
            out.push('r');
        } else if c == '\t' {
            out.push('\\');
            out.push('t');
        } else if (c as u32) < 0x20 {
            out.push('\\');
            out.push('u');
            out.push('0');
            out.push('0');
            out.push(hex((c as u32) / 16));
            out.push(hex((c as u32) % 16));
        } else {
            out.push(c);
        }
        proof {
            assert(out@ =~= before + serde_escape(c));
            assert(s@.take(k + 1).drop_last() =~= s@.take(k as int));
        }
        k += 1;
    }
    out.push('"');
    proof {
        assert(s@.take(k as int) =~= s@);
        assert(out@ =~= start + serde_str_spec(s@));
    }
}

} // verus!
