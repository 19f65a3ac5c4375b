//! Character-level text handling shared by the parsers and formatters.
//!
//! Everything here works on `Seq<char>` views of strings, so the parsers'
//! contracts can speak about whole texts: trimming, case folding, line
//! splitting, searching and decimal numbers.
use vstd::prelude::*;

verus! {

/// Unicode `White_Space`, the set `char::is_whitespace` tests for.
pub open spec fn is_ws(c: char) -> bool {
    let u = c as u32;
    ||| (9 <= u && u <= 13)
    ||| u == 32
    ||| u == 0x85
    ||| u == 0xa0
    ||| u == 0x1680
    ||| (0x2000 <= u && u <= 0x200a)
    ||| u == 0x2028
    ||| u == 0x2029
    ||| u == 0x202f
    ||| u == 0x205f
    ||| u == 0x3000
}

/// `s` without its leading whitespace.
pub open spec fn trim_start(s: Seq<char>) -> Seq<char>
    decreases s.len(),
{
    if s.len() > 0 && is_ws(s[0]) {
        trim_start(s.drop_first())
    } else {
        s
    }
}

/// `s` without its trailing whitespace.
pub open spec fn trim_end(s: Seq<char>) -> Seq<char>
    decreases s.len(),
{
    if s.len() > 0 && is_ws(s.last()) {
        trim_end(s.drop_last())
    } else {
        s
    }
}

/// `s` without leading or trailing whitespace.
pub open spec fn trim(s: Seq<char>) -> Seq<char> {
    trim_start(trim_end(s))
}

/// A decimal digit.
pub open spec fn is_digit(c: char) -> bool {
    '0' <= c && c <= '9'
}

/// The value of an ASCII decimal digit.
pub open spec fn digit_val(c: char) -> nat {
    ((c as u32) - ('0' as u32)) as nat
}

/// Every character of `s` is a decimal digit.
pub open spec fn all_digits(s: Seq<char>) -> bool {
    forall|i: int| 0 <= i < s.len() ==> is_digit(#[trigger] s[i])
}

/// The number that a run of decimal digits spells (most significant first).
pub open spec fn digits_val(s: Seq<char>) -> nat
    decreases s.len(),
{
    if s.len() == 0 {
        0
    } else {
        digits_val(s.drop_last()) * 10 + digit_val(s.last())
    }
}

/// ASCII lower-casing of one character.
pub open spec fn lower(c: char) -> char {
    if 'A' <= c && c <= 'Z' {
        ((c as u32) + 32) as char
    } else {
        c
    }
}

/// ASCII lower-casing of a text.
pub open spec fn lower_seq(s: Seq<char>) -> Seq<char> {
    Seq::new(s.len(), |i: int| lower(s[i]))
}

/// Index of the first `c` in `s`, if any.
pub open spec fn find_char(s: Seq<char>, c: char) -> Option<nat>
    decreases s.len(),
{
    if s.len() == 0 {
        None
    } else if s[0] == c {
        Some(0)
    } else {
        match find_char(s.drop_first(), c) {
            Some(i) => Some(i + 1),
            None => None,
        }
    }
}

/// `s` holds no `c`.
pub open spec fn lacks(s: Seq<char>, c: char) -> bool {
    forall|i: int| 0 <= i < s.len() ==> #[trigger] s[i] != c
}

/// Lower-case `s` and `t` agree, comparing ASCII letters case-insensitively.
pub open spec fn eq_ignore_case(s: Seq<char>, t: Seq<char>) -> bool {
    lower_seq(s) == lower_seq(t)
}

pub proof fn lemma_find_char(s: Seq<char>, c: char)
    ensures
        match find_char(s, c) {
            Some(i) => i < s.len() && s[i as int] == c && lacks(s.take(i as int), c),
            None => lacks(s, c),
        },
    decreases s.len(),
{
    if s.len() > 0 && s[0] != c {
        lemma_find_char(s.drop_first(), c);
        match find_char(s.drop_first(), c) {
            Some(i) => {
                assert forall|k: int| 0 <= k < i + 1 implies #[trigger] s.take((i + 1) as int)[k] != c by {
                    if k > 0 {
                        assert(s.take((i + 1) as int)[k] == s.drop_first().take(i as int)[k - 1]);
                    }
                }
            },
            None => {
                assert forall|k: int| 0 <= k < s.len() implies #[trigger] s[k] != c by {
                    if k > 0 {
                        assert(s[k] == s.drop_first()[k - 1]);
                    }
                }
            },
        }
    }
}

pub proof fn lemma_find_char_unique(s: Seq<char>, c: char, i: nat)
    requires
        i < s.len(),
        s[i as int] == c,
        lacks(s.take(i as int), c),
    ensures
        find_char(s, c) == Some(i),
    decreases s.len(),
{
    if i > 0 {
        assert(s[0] == s.take(i as int)[0]);
        assert forall|k: int| 0 <= k < i - 1 implies #[trigger] s.drop_first().take(i - 1)[k] != c by {
            assert(s.drop_first().take(i - 1)[k] == s.take(i as int)[k + 1]);
        }
        lemma_find_char_unique(s.drop_first(), c, (i - 1) as nat);
    }
}

/// The characters of `s`.
pub fn chars_of(s: &str) -> (v: Vec<char>)
    ensures
        v@ == s@,
{
    let mut v: Vec<char> = Vec::new();
    for c in it: s.chars()
        invariant
            it.seq() == s@,
            v@ == it.seq().take(it.index() as int),
    {
        proof {
            assert(it.seq().take(it.index() as int + 1) =~= v@.push(c));
        }
        v.push(c);
    }
    proof {
        assert(v@ =~= s@);
    }
    v
}

/// A `String` holding exactly the characters `v`.
///
/// Trusted: collects the characters with `Iterator::collect`, which std
/// documents as concatenating them in order.
#[verifier::external_body]
pub(crate) fn string_of(v: &[char]) -> (s: String)
    ensures
        s@ == v@,
{
    v.iter().collect()
}

/// `char::is_whitespace`.
pub fn is_whitespace(c: char) -> (b: bool)
    ensures
        b == is_ws(c),
{
    let u = c as u32;
    (9 <= u && u <= 13) || u == 32 || u == 0x85 || u == 0xa0 || u == 0x1680 || (0x2000 <= u
        && u <= 0x200a) || u == 0x2028 || u == 0x2029 || u == 0x202f || u == 0x205f || u
        == 0x3000
}

/// Every character of `v` is an ASCII decimal digit.
pub fn all_ascii_digits(v: &Vec<char>) -> (b: bool)
    ensures
        b == all_digits(v@),
{
    let mut i: usize = 0;
    while i < v.len()
        invariant
            i <= v.len(),
            forall|j: int| 0 <= j < i ==> is_digit(#[trigger] v@[j]),
        decreases v.len() - i,
    {
        if !is_ascii_digit(v[i]) {
            return false;
        }
        i += 1;
    }
    true
}

/// `c.is_ascii_digit()`.
pub fn is_ascii_digit(c: char) -> (b: bool)
    ensures
        b == is_digit(c),
{
    '0' <= c && c <= '9'
}

/// `c.to_ascii_lowercase()`.
pub fn ascii_lower(c: char) -> (r: char)
    ensures
        r == lower(c),
{
    if 'A' <= c && c <= 'Z' {
        let b = (c as u8) + 32;
        b as char
    } else {
        c
    }
}

proof fn lemma_trim_start_skip(s: Seq<char>, i: int)
    requires
        0 <= i < s.len(),
        is_ws(s[i]),
    ensures
        trim_start(s.subrange(i, s.len() as int)) == trim_start(s.subrange(i + 1, s.len() as int)),
{
    let t = s.subrange(i, s.len() as int);
    assert(t.drop_first() =~= s.subrange(i + 1, s.len() as int));
}

proof fn lemma_trim_end_skip(s: Seq<char>, j: int)
    requires
        0 < j <= s.len(),
        is_ws(s[j - 1]),
    ensures
        trim_end(s.subrange(0, j)) == trim_end(s.subrange(0, j - 1)),
{
    let t = s.subrange(0, j);
    assert(t.drop_last() =~= s.subrange(0, j - 1));
}

/// First index at or after `from` that is not whitespace (or `s.len()`).
fn skip_ws(s: &Vec<char>, from: usize) -> (i: usize)
    requires
        from <= s.len(),
    ensures
        from <= i <= s.len(),
        trim_start(s@.subrange(from as int, s.len() as int)) == s@.subrange(i as int, s.len() as int),
        i < s.len() ==> !is_ws(s@[i as int]),
        forall|k: int| from <= k < i ==> is_ws(#[trigger] s@[k]),
{
    let mut i = from;
    while i < s.len() && is_whitespace(s[i])
        invariant
            from <= i <= s.len(),
            trim_start(s@.subrange(from as int, s.len() as int)) == trim_start(
                s@.subrange(i as int, s.len() as int),
            ),
            forall|k: int| from <= k < i ==> is_ws(#[trigger] s@[k]),
        decreases s.len() - i,
    {
        proof {
            lemma_trim_start_skip(s@, i as int);
        }
        i += 1;
    }
    proof {
        let t = s@.subrange(i as int, s.len() as int);
        if i < s.len() {
            assert(t[0] == s@[i as int]);
        }
    }
    i
}

/// End of `s[..to]` once its trailing whitespace is dropped.
fn skip_ws_back(s: &Vec<char>, to: usize) -> (j: usize)
    requires
        to <= s.len(),
    ensures
        j <= to,
        trim_end(s@.subrange(0, to as int)) == s@.subrange(0, j as int),
        j > 0 ==> !is_ws(s@[j - 1]),
        forall|k: int| j <= k < to ==> is_ws(#[trigger] s@[k]),
{
    let mut j = to;
    while j > 0 && is_whitespace(s[j - 1])
        invariant
            j <= to <= s.len(),
            trim_end(s@.subrange(0, to as int)) == trim_end(s@.subrange(0, j as int)),
            forall|k: int| j <= k < to ==> is_ws(#[trigger] s@[k]),
        decreases j,
    {
        proof {
            lemma_trim_end_skip(s@, j as int);
        }
        j -= 1;
    }
    proof {
        let t = s@.subrange(0, j as int);
        if j > 0 {
            assert(t.last() == s@[j - 1]);
        }
    }
    j
}

pub proof fn lemma_trim_end_subrange(s: Seq<char>, j: int)
    requires
        0 <= j <= s.len(),
        forall|k: int| j <= k < s.len() ==> is_ws(#[trigger] s[k]),
        j > 0 ==> !is_ws(s[j - 1]),
    ensures
        trim_end(s) == s.subrange(0, j),
    decreases s.len() - j,
{
    if j < s.len() {
        assert(s.drop_last() =~= s.subrange(0, s.len() - 1));
        lemma_trim_end_subrange(s.drop_last(), j);
        assert(s.drop_last().subrange(0, j) =~= s.subrange(0, j));
    } else {
        assert(s.subrange(0, j) =~= s);
    }
}

pub proof fn lemma_trim_start_subrange(s: Seq<char>, i: int)
    requires
        0 <= i <= s.len(),
        forall|k: int| 0 <= k < i ==> is_ws(#[trigger] s[k]),
        i < s.len() ==> !is_ws(s[i]),
    ensures
        trim_start(s) == s.subrange(i, s.len() as int),
    decreases i,
{
    if i > 0 {
        assert forall|k: int| 0 <= k < i - 1 implies is_ws(#[trigger] s.drop_first()[k]) by {
            assert(s.drop_first()[k] == s[k + 1]);
        }
        if i < s.len() {
            assert(s.drop_first()[i - 1] == s[i]);
        }
        lemma_trim_start_subrange(s.drop_first(), i - 1);
        assert(s.drop_first().subrange(i - 1, s.len() - 1) =~= s.subrange(i, s.len() as int));
    } else {
        assert(s.subrange(0, s.len() as int) =~= s);
    }
}

/// `trim_start(x)` is a suffix of `x` that does not start with whitespace.
proof fn lemma_trim_start_shape(x: Seq<char>)
    ensures
        trim_start(x).len() <= x.len(),
        trim_start(x) == x.subrange(x.len() - trim_start(x).len(), x.len() as int),
        trim_start(x).len() > 0 ==> !is_ws(trim_start(x)[0]),
    decreases x.len(),
{
    if x.len() > 0 && is_ws(x[0]) {
        lemma_trim_start_shape(x.drop_first());
        let t = trim_start(x.drop_first());
        assert(x.drop_first().subrange(x.len() - 1 - t.len(), x.len() - 1) =~= x.subrange(
            x.len() - t.len(),
            x.len() as int,
        ));
    } else {
        assert(x.subrange(0, x.len() as int) =~= x);
    }
}

/// `trim_end(x)` does not end with whitespace.
proof fn lemma_trim_end_shape(x: Seq<char>)
    ensures
        trim_end(x).len() > 0 ==> !is_ws(trim_end(x).last()),
    decreases x.len(),
{
    if x.len() > 0 && is_ws(x.last()) {
        lemma_trim_end_shape(x.drop_last());
    }
}

/// Trimming twice is trimming once.
pub proof fn lemma_trim_idempotent(s: Seq<char>)
    ensures
        trim(trim(s)) == trim(s),
{
    let e = trim_end(s);
    let t = trim_start(e);
    lemma_trim_end_shape(s);
    lemma_trim_start_shape(e);
    if t.len() > 0 {
        assert(t.last() == e.last());
    }
    lemma_trim_end_subrange(t, t.len() as int);
    assert(t.subrange(0, t.len() as int) =~= t);
    lemma_trim_start_subrange(t, 0);
    assert(t.subrange(0, t.len() as int) =~= t);
}

/// Bounds `(i, j)` with `s[i..j]` the trimmed text.
pub fn trim_bounds(s: &Vec<char>) -> (r: (usize, usize))
    ensures
        r.0 <= r.1 <= s.len(),
        s@.subrange(r.0 as int, r.1 as int) == trim(s@),
{
    let j = skip_ws_back(s, s.len());
    proof {
        assert(s@.subrange(0, s.len() as int) =~= s@);
    }
    let i = if j == 0 {
        0
    } else {
        let mut i: usize = 0;
        while i < j && is_whitespace(s[i])
            invariant
                i <= j,
                j <= s.len(),
                j > 0 ==> !is_ws(s@[j - 1]),
                forall|k: int| 0 <= k < i ==> is_ws(#[trigger] s@[k]),
            decreases j - i,
        {
            i += 1;
        }
        i
    };
    proof {
        let t = s@.subrange(0, j as int);
        assert forall|k: int| 0 <= k < i implies is_ws(#[trigger] t[k]) by {
            assert(t[k] == s@[k]);
        }
        if i < t.len() {
            assert(t[i as int] == s@[i as int]);
        }
        lemma_trim_start_subrange(t, i as int);
        assert(t.subrange(i as int, j as int) =~= s@.subrange(i as int, j as int));
    }
    (i, j)
}

/// A copy of `s[from..to]`.
pub fn slice_of(s: &Vec<char>, from: usize, to: usize) -> (r: Vec<char>)
    requires
        from <= to <= s.len(),
    ensures
        r@ == s@.subrange(from as int, to as int),
{
    let mut r: Vec<char> = Vec::new();
    let mut k = from;
    while k < to
        invariant
            from <= k <= to <= s.len(),
            r@ == s@.subrange(from as int, k as int),
        decreases to - k,
    {
        r.push(s[k]);
        proof {
            assert(r@ =~= s@.subrange(from as int, k + 1));
        }
        k += 1;
    }
    r
}

/// `s` trimmed of whitespace at both ends.
pub fn trim_vec(s: &Vec<char>) -> (r: Vec<char>)
    ensures
        r@ == trim(s@),
{
    let (i, j) = trim_bounds(s);
    slice_of(s, i, j)
}

/// `s` without leading whitespace.
pub fn trim_start_vec(s: &Vec<char>) -> (r: Vec<char>)
    ensures
        r@ == trim_start(s@),
{
    let i = skip_ws(s, 0);
    proof {
        assert(s@.subrange(0, s.len() as int) =~= s@);
    }
    slice_of(s, i, s.len())
}

/// `s` without trailing whitespace.
pub fn trim_end_vec(s: &Vec<char>) -> (r: Vec<char>)
    ensures
        r@ == trim_end(s@),
{
    let j = skip_ws_back(s, s.len());
    proof {
        assert(s@.subrange(0, s.len() as int) =~= s@);
    }
    slice_of(s, 0, j)
}

/// `s.trim()` as an owned string.
pub fn trim_str(s: &str) -> (r: String)
    ensures
        r@ == trim(s@),
{
    let v = chars_of(s);
    let t = trim_vec(&v);
    string_of(t.as_slice())
}

/// The whole of `s` is whitespace (or it is empty).
pub fn is_blank(s: &Vec<char>) -> (b: bool)
    ensures
        b == (trim(s@).len() == 0),
{
    let (i, j) = trim_bounds(s);
    i == j
}

/// ASCII lower-cased copy of `s`.
pub fn lower_vec(s: &Vec<char>) -> (r: Vec<char>)
    ensures
        r@ == lower_seq(s@),
{
    let mut r: Vec<char> = Vec::new();
    let mut k: usize = 0;
    while k < s.len()
        invariant
            k <= s.len(),
            r@ == lower_seq(s@.take(k as int)),
        decreases s.len() - k,
    {
        let c = ascii_lower(s[k]);
        r.push(c);
        k += 1;
        proof {
            assert(r@ =~= lower_seq(s@.take(k as int)));
        }
    }
    proof {
        assert(s@.take(s.len() as int) =~= s@);
    }
    r
}

/// Index of the first `c` in `s`.
pub fn find(s: &Vec<char>, c: char) -> (r: Option<usize>)
    ensures
        match find_char(s@, c) {
            Some(i) => r == Some(i as usize) && i < s.len(),
            None => r is None,
        },
{
    let mut k: usize = 0;
    while k < s.len()
        invariant
            k <= s.len(),
            lacks(s@.take(k as int), c),
        decreases s.len() - k,
    {
        if s[k] == c {
            proof {
                lemma_find_char_unique(s@, c, k as nat);
            }
            return Some(k);
        }
        proof {
            assert forall|i: int| 0 <= i < k + 1 implies #[trigger] s@.take(k + 1)[i] != c by {
                if i < k {
                    assert(s@.take(k + 1)[i] == s@.take(k as int)[i]);
                }
            }
        }
        k += 1;
    }
    proof {
        assert(s@.take(k as int) =~= s@);
        lemma_find_char(s@, c);
        if find_char(s@, c) is Some {
            let i = find_char(s@, c)->0;
            assert(s@[i as int] == c);
        }
    }
    None
}

/// `s` and `t` are equal up to ASCII case.
pub fn eq_ignore_ascii_case(s: &Vec<char>, t: &[char]) -> (b: bool)
    ensures
        b == eq_ignore_case(s@, t@),
{
    if s.len() != t.len() {
        proof {
            assert(lower_seq(s@).len() != lower_seq(t@).len());
        }
        return false;
    }
    let mut k: usize = 0;
    while k < s.len()
        invariant
            k <= s.len() == t.len(),
            forall|i: int| 0 <= i < k ==> lower(#[trigger] s@[i]) == lower(t@[i]),
        decreases s.len() - k,
    {
        if ascii_lower(s[k]) != ascii_lower(t[k]) {
            proof {
                assert(lower_seq(s@)[k as int] != lower_seq(t@)[k as int]);
            }
            return false;
        }
        k += 1;
    }
    proof {
        assert(lower_seq(s@) =~= lower_seq(t@));
    }
    true
}

/// Equality of two character sequences.
pub fn chars_eq(s: &[char], t: &[char]) -> (b: bool)
    ensures
        b == (s@ == t@),
{
    if s.len() != t.len() {
        return false;
    }
    let mut k: usize = 0;
    while k < s.len()
        invariant
            k <= s.len() == t.len(),
            forall|i: int| 0 <= i < k ==> #[trigger] s@[i] == t@[i],
        decreases s.len() - k,
    {
        if s[k] != t[k] {
            return false;
        }
        k += 1;
    }
    proof {
        assert(s@ =~= t@);
    }
    true
}

/// `a` sorts before `b`, comparing from position `i` on, character by
/// character (by code point), a proper prefix first.
pub open spec fn lex_lt_from(a: Seq<char>, b: Seq<char>, i: int) -> bool
    decreases a.len() - i,
{
    if i < 0 || i >= a.len() {
        i >= 0 && i < b.len()
    } else if i >= b.len() {
        false
    } else if a[i] != b[i] {
        (a[i] as u32) < (b[i] as u32)
    } else {
        lex_lt_from(a, b, i + 1)
    }
}

/// `a` sorts before `b`, as `<` orders strings.
pub open spec fn lex_lt(a: Seq<char>, b: Seq<char>) -> bool {
    lex_lt_from(a, b, 0)
}

/// `a < b` in string order.
pub fn chars_lt(a: &[char], b: &[char]) -> (r: bool)
    ensures
        r == lex_lt(a@, b@),
{
    let mut i: usize = 0;
    while i < a.len() && i < b.len() && a[i] == b[i]
        invariant
            i <= a.len(),
            i <= b.len(),
            lex_lt(a@, b@) == lex_lt_from(a@, b@, i as int),
        decreases a.len() - i,
    {
        i += 1;
    }
    if i == a.len() {
        i < b.len()
    } else if i == b.len() {
        false
    } else {
        (a[i] as u32) < (b[i] as u32)
    }
}

/// `a < b` in string order.
pub fn str_lt(a: &str, b: &str) -> (r: bool)
    ensures
        r == lex_lt(a@, b@),
{
    let x = chars_of(a);
    let y = chars_of(b);
    chars_lt(x.as_slice(), y.as_slice())
}

// --- Decimal numbers ---------------------------------------------------------

/// The character for a digit `d < 10`.
pub open spec fn digit_char(d: nat) -> char {
    (('0' as u32) + d) as char
}

/// Decimal digits of `n`, most significant first, no leading zeros.
pub open spec fn dec(n: nat) -> Seq<char>
    decreases n,
{
    if n < 10 {
        seq![digit_char(n)]
    } else {
        dec(n / 10).push(digit_char(n % 10))
    }
}

/// Decimal text of a signed integer: a `-` sign for negatives, then the digits.
pub open spec fn dec_int(n: int) -> Seq<char> {
    if n < 0 {
        seq!['-'] + dec((-n) as nat)
    } else {
        dec(n as nat)
    }
}

/// `n` in decimal, left-padded with zeros to at least `w` characters.
pub open spec fn dec_pad(n: nat, w: nat) -> Seq<char> {
    let d = dec(n);
    if d.len() < w {
        Seq::new((w - d.len()) as nat, |i: int| '0') + d
    } else {
        d
    }
}

/// The digits after an optional leading `+`.
pub open spec fn unsigned_body(s: Seq<char>) -> Seq<char> {
    if s.len() > 0 && s[0] == '+' {
        s.drop_first()
    } else {
        s
    }
}

/// What `u32::from_str` gives for `s`: an optional `+`, then at least one
/// decimal digit, of a value that fits.
pub open spec fn parse_u32_spec(s: Seq<char>) -> Option<u32> {
    let b = unsigned_body(s);
    if b.len() > 0 && all_digits(b) && digits_val(b) <= u32::MAX {
        Some(digits_val(b) as u32)
    } else {
        None
    }
}

/// The sign-stripped body of a signed integer literal.
pub open spec fn signed_body(s: Seq<char>) -> Seq<char> {
    if s.len() > 0 && (s[0] == '+' || s[0] == '-') {
        s.drop_first()
    } else {
        s
    }
}

/// The literal starts with `-`.
pub open spec fn is_negative_lit(s: Seq<char>) -> bool {
    s.len() > 0 && s[0] == '-'
}

/// The value a signed literal spells, ignoring range.
pub open spec fn signed_val(s: Seq<char>) -> int {
    if is_negative_lit(s) {
        -(digits_val(signed_body(s)) as int)
    } else {
        digits_val(signed_body(s)) as int
    }
}

/// What `i64::from_str` gives for `s`: an optional sign, then at least one
/// decimal digit, of a value in range.
pub open spec fn parse_i64_spec(s: Seq<char>) -> Option<i64> {
    let b = signed_body(s);
    if b.len() > 0 && all_digits(b) && i64::MIN <= signed_val(s) <= i64::MAX {
        Some(signed_val(s) as i64)
    } else {
        None
    }
}

pub proof fn lemma_digits_val_take(s: Seq<char>, k: int)
    requires
        0 <= k < s.len(),
    ensures
        digits_val(s.take(k + 1)) == digits_val(s.take(k)) * 10 + digit_val(s[k]),
{
    assert(s.take(k + 1).drop_last() =~= s.take(k));
}

pub proof fn lemma_digits_val_mono(s: Seq<char>, k: int)
    requires
        0 <= k <= s.len(),
    ensures
        digits_val(s.take(k)) <= digits_val(s),
    decreases s.len() - k,
{
    if k < s.len() {
        lemma_digits_val_take(s, k);
        lemma_digits_val_mono(s, k + 1);
    } else {
        assert(s.take(k) =~= s);
    }
}

/// Value of the all-digit text `s[from..]`, or `None` once it passes `limit`.
fn digits_upto(s: &Vec<char>, from: usize, limit: u128) -> (r: Option<u128>)
    requires
        from <= s.len(),
        limit < u128::MAX / 16,
    ensures
        all_digits(s@.subrange(from as int, s.len() as int)) ==> match r {
            Some(v) => v == digits_val(s@.subrange(from as int, s.len() as int)) && v <= limit,
            None => digits_val(s@.subrange(from as int, s.len() as int)) > limit,
        },
        !all_digits(s@.subrange(from as int, s.len() as int)) ==> r is None,
{
    let ghost b = s@.subrange(from as int, s.len() as int);
    let mut acc: u128 = 0;
    let mut k = from;
    while k < s.len()
        invariant
            from <= k <= s.len(),
            b == s@.subrange(from as int, s.len() as int),
            all_digits(b.take(k - from)),
            acc == digits_val(b.take(k - from)),
            acc <= limit,
            limit < u128::MAX / 16,
        decreases s.len() - k,
    {
        let c = s[k];
        if !is_ascii_digit(c) {
            proof {
                assert(b[k - from] == c);
            }
            return None;
        }
        let d = (c as u32 - '0' as u32) as u128;
        proof {
            assert(b[k - from] == c);
            lemma_digits_val_take(b, k - from);
            assert forall|i: int| 0 <= i < k - from + 1 implies is_digit(#[trigger] b.take(k - from + 1)[i]) by {
                if i < k - from {
                    assert(b.take(k - from + 1)[i] == b.take(k - from)[i]);
                }
            }
        }
        acc = acc * 10 + d;
        k += 1;
        if acc > limit {
            proof {
                lemma_digits_val_mono(b, k - from);
            }
            return None;
        }
    }
    proof {
        assert(b.take(k - from) =~= b);
    }
    Some(acc)
}


/// `u32::from_str` on the characters `s`.
pub fn parse_u32(s: &Vec<char>) -> (r: Option<u32>)
    ensures
        r == parse_u32_spec(s@),
{
    let from: usize = if s.len() > 0 && s[0] == '+' { 1 } else { 0 };
    proof {
        assert(unsigned_body(s@) =~= s@.subrange(from as int, s.len() as int));
    }
    if from == s.len() {
        return None;
    }
    match digits_upto(s, from, 0xffff_ffff) {
        Some(v) => Some(v as u32),
        None => None,
    }
}

/// `i64::from_str` on the characters `s`.
pub fn parse_i64(s: &Vec<char>) -> (r: Option<i64>)
    ensures
        r == parse_i64_spec(s@),
{
    let neg = s.len() > 0 && s[0] == '-';
    let from: usize = if s.len() > 0 && (s[0] == '+' || s[0] == '-') { 1 } else { 0 };
    proof {
        assert(signed_body(s@) =~= s@.subrange(from as int, s.len() as int));
    }
    if from == s.len() {
        return None;
    }
    let limit: u128 = if neg { 0x8000_0000_0000_0000 } else { 0x7fff_ffff_ffff_ffff };
    match digits_upto(s, from, limit) {
        Some(v) => {
            if neg {
                if v == 0x8000_0000_0000_0000 {
                    Some(i64::MIN)
                } else {
                    Some(-(v as i64))
                }
            } else {
                Some(v as i64)
            }
        },
        None => None,
    }
}

/// Appends the decimal digits of `n`.
pub fn push_dec(out: &mut Vec<char>, n: u64)
    ensures
        final(out)@ == old(out)@ + dec(n as nat),
    decreases n,
{
    if n >= 10 {
        push_dec(out, n / 10);
    }
    let d = (n % 10) as u8;
    out.push((48u8 + d) as char);
    proof {
        if n >= 10 {
            assert(dec(n as nat) == dec((n / 10) as nat).push(digit_char((n % 10) as nat)));
        }
    }
}

/// Appends the decimal text of a signed `n`.
pub fn push_dec_i64(out: &mut Vec<char>, n: i64)
    ensures
        final(out)@ == old(out)@ + dec_int(n as int),
{
    if n < 0 {
        out.push('-');
        let m: u64 = if n == i64::MIN { 0x8000_0000_0000_0000 } else { (-n) as u64 };
        push_dec(out, m);
        proof {
            assert(old(out)@.push('-') + dec(m as nat) =~= old(out)@ + (seq!['-'] + dec(m as nat)));
        }
    } else {
        push_dec(out, n as u64);
    }
}

/// The decimal text of `n` is all digits, and spells `n`.
pub proof fn lemma_dec_digits(n: nat)
    ensures
        dec(n).len() >= 1,
        all_digits(dec(n)),
        digits_val(dec(n)) == n,
    decreases n,
{
    if n >= 10 {
        lemma_dec_digits(n / 10);
        let d = dec(n);
        assert(d.drop_last() =~= dec(n / 10));
        assert(d.last() == digit_char(n % 10));
        assert(digit_val(digit_char(n % 10)) == n % 10);
        assert((n / 10) * 10 + n % 10 == n) by (nonlinear_arith);
        assert(digits_val(d) == digits_val(d.drop_last()) * 10 + digit_val(d.last()));
        assert(digits_val(d.drop_last()) == n / 10);
        assert forall|i: int| 0 <= i < d.len() implies is_digit(#[trigger] d[i]) by {
            if i < d.len() - 1 {
                assert(d[i] == dec(n / 10)[i]);
            }
        }
    } else {
        assert(digit_val(digit_char(n)) == n);
        assert(dec(n).drop_last().len() == 0);
        assert(digits_val(dec(n).drop_last()) == 0);
        assert(digits_val(dec(n)) == digits_val(dec(n).drop_last()) * 10 + digit_val(dec(n).last()));
    }
}

pub proof fn lemma_dec_len(n: nat)
    ensures
        dec(n).len() >= 1,
        n < 10 ==> dec(n).len() == 1,
        10 <= n < 100 ==> dec(n).len() == 2,
        100 <= n < 1000 ==> dec(n).len() == 3,
        1000 <= n < 10000 ==> dec(n).len() == 4,
    decreases n,
{
    if n >= 10 {
        lemma_dec_len(n / 10);
    }
}

/// Appends `n` in decimal, zero-padded to at least `w` characters.
pub fn push_dec_pad(out: &mut Vec<char>, n: u64, w: usize)
    ensures
        final(out)@ == old(out)@ + dec_pad(n as nat, w as nat),
{
    let mut digits: Vec<char> = Vec::new();
    push_dec(&mut digits, n);
    proof {
        assert(digits@ =~= dec(n as nat));
    }
    let mut k = digits.len();
    let ghost start = out@;
    while k < w
        invariant
            digits@ == dec(n as nat),
            digits.len() <= k <= w || (k == digits.len() && k >= w),
            out@ == start + Seq::new((k - digits.len()) as nat, |i: int| '0'),
        decreases w - k,
    {
        out.push('0');
        k += 1;
        proof {
            assert(out@ =~= start + Seq::new((k - digits.len()) as nat, |i: int| '0'));
        }
    }
    let ghost mid = out@;
    let mut j: usize = 0;
    while j < digits.len()
        invariant
            j <= digits.len(),
            out@ == mid + digits@.take(j as int),
        decreases digits.len() - j,
    {
        out.push(digits[j]);
        j += 1;
        proof {
            assert(out@ =~= mid + digits@.take(j as int));
        }
    }
    proof {
        assert(digits@.take(j as int) =~= digits@);
        if digits.len() >= w {
            assert(Seq::new(0nat, |i: int| '0') + dec(n as nat) =~= dec(n as nat));
        }
        assert(out@ =~= start + dec_pad(n as nat, w as nat));
    }
}

// --- Splitting ----------------------------------------------------------------

/// What `str::split(c)` yields: the pieces between occurrences of `c`.
pub open spec fn split_spec(s: Seq<char>, c: char) -> Seq<Seq<char>>
    decreases s.len(),
{
    match find_char(s, c) {
        None => seq![s],
        Some(i) => {
            proof {
                lemma_find_char(s, c);
            }
            seq![s.take(i as int)] + split_spec(s.skip(i as int + 1), c)
        },
    }
}

/// What `str::splitn(n, c)` yields for `n >= 1`: at most `n` pieces, the last
/// holding the rest of the text.
pub open spec fn splitn_spec(s: Seq<char>, n: nat, c: char) -> Seq<Seq<char>>
    decreases n,
{
    if n <= 1 {
        seq![s]
    } else {
        match find_char(s, c) {
            None => seq![s],
            Some(i) => seq![s.take(i as int)] + splitn_spec(s.skip(i as int + 1), (n - 1) as nat, c),
        }
    }
}

/// A line without the `\r` of a `\r\n` ending.
pub open spec fn strip_cr(l: Seq<char>) -> Seq<char> {
    if l.len() > 0 && l.last() == '\r' {
        l.drop_last()
    } else {
        l
    }
}

/// What `str::lines` yields: the text split at `\n` (a `\r` before it is
/// dropped too), with no empty line after a final `\n`.
pub open spec fn lines_spec(s: Seq<char>) -> Seq<Seq<char>>
    decreases s.len(),
{
    if s.len() == 0 {
        seq![]
    } else {
        match find_char(s, '\n') {
            None => seq![s],
            Some(i) => {
                proof {
                    lemma_find_char(s, '\n');
                }
                seq![strip_cr(s.take(i as int))] + lines_spec(s.skip(i as int + 1))
            },
        }
    }
}

/// Views of a vector of texts.
pub open spec fn views(v: Seq<Vec<char>>) -> Seq<Seq<char>> {
    v.map_values(|t: Vec<char>| t@)
}

/// Index of the first `c` in `s[from..]`.
pub fn find_from(s: &Vec<char>, c: char, from: usize) -> (r: Option<usize>)
    requires
        from <= s.len(),
    ensures
        r == (match find_char(s@.subrange(from as int, s.len() as int), c) {
            Some(i) => Some((from + i) as usize),
            None => None,
        }),
{
    let ghost t = s@.subrange(from as int, s.len() as int);
    let mut k = from;
    while k < s.len()
        invariant
            from <= k <= s.len(),
            t == s@.subrange(from as int, s.len() as int),
            lacks(t.take(k - from), c),
        decreases s.len() - k,
    {
        if s[k] == c {
            proof {
                assert(t[k - from] == c);
                lemma_find_char_unique(t, c, (k - from) as nat);
            }
            return Some(k);
        }
        proof {
            assert forall|i: int| 0 <= i < k - from + 1 implies #[trigger] t.take(k - from + 1)[i] != c by {
                if i < k - from {
                    assert(t.take(k - from + 1)[i] == t.take(k - from)[i]);
                } else {
                    assert(t.take(k - from + 1)[i] == s@[k as int]);
                }
            }
        }
        k += 1;
    }
    proof {
        assert(t.take(k - from) =~= t);
        lemma_find_char(t, c);
        if find_char(t, c) is Some {
            let i = find_char(t, c)->0;
            assert(t[i as int] == c);
        }
    }
    None
}

proof fn lemma_sub_parts(s: Seq<char>, start: int, j: int)
    requires
        0 <= start <= j < s.len(),
    ensures
        s.subrange(start, s.len() as int).take(j - start) == s.subrange(start, j),
        s.subrange(start, s.len() as int).skip(j - start + 1) == s.subrange(j + 1, s.len() as int),
{
    assert(s.subrange(start, s.len() as int).take(j - start) =~= s.subrange(start, j));
    assert(s.subrange(start, s.len() as int).skip(j - start + 1) =~= s.subrange(j + 1, s.len() as int));
}

/// `s.split(c)`, collected.
pub fn split_char(s: &Vec<char>, c: char) -> (r: Vec<Vec<char>>)
    ensures
        views(r@) == split_spec(s@, c),
{
    let mut out: Vec<Vec<char>> = Vec::new();
    let mut start: usize = 0;
    proof {
        assert(s@.subrange(0, s.len() as int) =~= s@);
    }
    loop
        invariant
            start <= s.len(),
            views(out@) + split_spec(s@.subrange(start as int, s.len() as int), c) == split_spec(s@, c),
        decreases s.len() - start,
    {
        let ghost sub = s@.subrange(start as int, s.len() as int);
        let ghost before = out@;
        match find_from(s, c, start) {
            None => {
                let piece = slice_of(s, start, s.len());
                out.push(piece);
                proof {
                    assert(views(out@) =~= views(before).push(piece@));
                    assert(views(before) + seq![sub] =~= views(before).push(piece@));
                }
                return out;
            },
            Some(j) => {
                proof {
                    lemma_find_char(sub, c);
                    lemma_sub_parts(s@, start as int, j as int);
                }
                let piece = slice_of(s, start, j);
                out.push(piece);
                start = j + 1;
                proof {
                    assert(views(out@) =~= views(before).push(piece@));
                    assert(views(before) + split_spec(sub, c) =~= views(out@) + split_spec(
                        s@.subrange(start as int, s.len() as int),
                        c,
                    ));
                }
            },
        }
    }
}

/// `s.splitn(n, c)`, collected (`n >= 1`).
pub fn splitn_char(s: &Vec<char>, n: usize, c: char) -> (r: Vec<Vec<char>>)
    requires
        n >= 1,
    ensures
        views(r@) == splitn_spec(s@, n as nat, c),
{
    let mut out: Vec<Vec<char>> = Vec::new();
    let mut start: usize = 0;
    let mut left: usize = n;
    proof {
        assert(s@.subrange(0, s.len() as int) =~= s@);
    }
    loop
        invariant
            start <= s.len(),
            1 <= left <= n,
            views(out@) + splitn_spec(s@.subrange(start as int, s.len() as int), left as nat, c)
                == splitn_spec(s@, n as nat, c),
        decreases left,
    {
        let ghost sub = s@.subrange(start as int, s.len() as int);
        let ghost before = out@;
        let found = if left <= 1 { None } else { find_from(s, c, start) };
        match found {
            None => {
                let piece = slice_of(s, start, s.len());
                out.push(piece);
                proof {
                    assert(views(out@) =~= views(before).push(piece@));
                    assert(views(before) + seq![sub] =~= views(before).push(piece@));
                }
                return out;
            },
            Some(j) => {
                proof {
                    lemma_find_char(sub, c);
                    lemma_sub_parts(s@, start as int, j as int);
                }
                let piece = slice_of(s, start, j);
                out.push(piece);
                start = j + 1;
                left = left - 1;
                proof {
                    assert(views(out@) =~= views(before).push(piece@));
                    assert(views(before) + splitn_spec(sub, (left + 1) as nat, c) =~= views(out@)
                        + splitn_spec(s@.subrange(start as int, s.len() as int), left as nat, c));
                }
            },
        }
    }
}

/// `s.lines()`, collected.
pub fn split_lines(s: &Vec<char>) -> (r: Vec<Vec<char>>)
    ensures
        views(r@) == lines_spec(s@),
{
    let mut out: Vec<Vec<char>> = Vec::new();
    let mut start: usize = 0;
    proof {
        assert(s@.subrange(0, s.len() as int) =~= s@);
    }
    while start < s.len()
        invariant
            start <= s.len(),
            views(out@) + lines_spec(s@.subrange(start as int, s.len() as int)) == lines_spec(s@),
        decreases s.len() - start,
    {
        let ghost sub = s@.subrange(start as int, s.len() as int);
        let ghost before = out@;
        match find_from(s, '\n', start) {
            None => {
                let piece = slice_of(s, start, s.len());
                out.push(piece);
                proof {
                    assert(views(out@) =~= views(before).push(piece@));
                    assert(views(before) + seq![sub] =~= views(before).push(piece@));
                }
                return out;
            },
            Some(j) => {
                proof {
                    lemma_find_char(sub, '\n');
                    lemma_sub_parts(s@, start as int, j as int);
                }
                let end = if j > start && s[j - 1] == '\r' { j - 1 } else { j };
                let piece = slice_of(s, start, end);
                proof {
                    let l = s@.subrange(start as int, j as int);
                    if j > start && s@[j - 1] == '\r' {
                        assert(l.last() == s@[j - 1]);
                        assert(strip_cr(l) =~= piece@);
                    } else {
                        if l.len() > 0 {
                            assert(l.last() == s@[j - 1]);
                        }
                        assert(strip_cr(l) =~= piece@);
                    }
                }
                out.push(piece);
                start = j + 1;
                proof {
                    assert(views(out@) =~= views(before).push(piece@));
                    assert(views(before) + lines_spec(sub) =~= views(out@) + lines_spec(
                        s@.subrange(start as int, s.len() as int),
                    ));
                }
            },
        }
    }
    proof {
        assert(lines_spec(s@.subrange(start as int, s.len() as int)) =~= Seq::<Seq<char>>::empty());
        assert(views(out@) + Seq::<Seq<char>>::empty() =~= views(out@));
    }
    out
}

/// Appends the characters of `s`.
pub fn push_str(out: &mut Vec<char>, s: &str)
    ensures
        final(out)@ == old(out)@ + s@,
{
    let v = chars_of(s);
    push_chars(out, &v);
}

/// Appends the characters `v`.
pub fn push_chars(out: &mut Vec<char>, v: &[char])
    ensures
        final(out)@ == old(out)@ + v@,
{
    let ghost start = out@;
    let mut k: usize = 0;
    while k < v.len()
        invariant
            k <= v.len(),
            out@ == start + v@.take(k as int),
        decreases v.len() - k,
    {
        out.push(v[k]);
        k += 1;
        proof {
            assert(out@ =~= start + v@.take(k as int));
        }
    }
    proof {
        assert(v@.take(k as int) =~= v@);
    }
}

/// No line of a text is longer than the text.
pub proof fn lemma_lines_len(s: Seq<char>)
    ensures
        forall|k: int| 0 <= k < lines_spec(s).len() ==> #[trigger] lines_spec(s)[k].len() <= s.len(),
    decreases s.len(),
{
    if s.len() > 0 {
        lemma_find_char(s, '\n');
        match find_char(s, '\n') {
            None => {},
            Some(i) => {
                let rest = s.skip(i as int + 1);
                lemma_lines_len(rest);
                let all = lines_spec(s);
                assert forall|k: int| 0 <= k < all.len() implies #[trigger] all[k].len() <= s.len() by {
                    if k > 0 {
                        assert(all[k] == lines_spec(rest)[k - 1]);
                    }
                }
            },
        }
    }
}

} // verus!
