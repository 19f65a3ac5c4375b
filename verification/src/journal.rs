//! The records of the revert log, and what undoing one does.
//!
//! Each logged mutation stores a kind, a one-line summary and a JSON payload
//! holding the before-state (see the builders below). Undoing reads the
//! payload back with `serde_json` and turns it into a list of
//! [`RevertStep`]s ([`revert_plan`]); a payload of an unknown kind or one
//! that does not have the kind's shape gives no step at all.
use vstd::prelude::*;
use crate::domain::{opt_view, status_text, TaskStatus};
use crate::format::{serde_body, serde_escape, serde_str_spec, push_serde_str};
use crate::text::{
    chars_of, dec, dec_int, find, find_char, is_digit, lacks, lemma_dec_digits, lemma_find_char, parse_i64,
    parse_i64_spec, push_dec, push_dec_i64, push_str, signed_body, string_of,
};

verus! {

// --- Reading a payload ------------------------------------------------------------

/// The string `serde_json` finds at JSON pointer `ptr` in `text` (`None`
/// when the text is not JSON, nothing is there, or it is not a string).
pub uninterp spec fn json_string_at(text: Seq<char>, ptr: Seq<char>) -> Option<Seq<char>>;

/// The number at `ptr`, in `serde_json`'s own decimal rendering.
pub uninterp spec fn json_number_at(text: Seq<char>, ptr: Seq<char>) -> Option<Seq<char>>;

/// The boolean at `ptr`.
pub uninterp spec fn json_bool_at(text: Seq<char>, ptr: Seq<char>) -> Option<bool>;

/// Nothing, or `null`, at `ptr` (what an optional field reads as absent).
pub uninterp spec fn json_void_at(text: Seq<char>, ptr: Seq<char>) -> bool;

/// The length of the array at `ptr`.
pub uninterp spec fn json_len_at(text: Seq<char>, ptr: Seq<char>) -> Option<nat>;

/// The keys of the object at `ptr`, in the map's iteration order.
pub uninterp spec fn json_keys_at(text: Seq<char>, ptr: Seq<char>) -> Option<Seq<Seq<char>>>;

/// A key that a JSON pointer token names as it is: no `/` and no `~`.
pub open spec fn pointer_safe(k: Seq<char>) -> bool {
    forall|j: int| 0 <= j < k.len() ==> k[j] != '/' && k[j] != '~'
}

/// An object written member by member: each key as a JSON string, a colon,
/// then the member's own JSON text; members separated by commas.
pub open spec fn jobject(ms: Seq<(Seq<char>, Seq<char>)>) -> Seq<char> {
    seq!['{'] + join_commas(Seq::new(ms.len(), |i: int| serde_str_spec(ms[i].0) + seq![':'] + ms[i].1))
        + seq!['}']
}

/// A JSON text of the kinds this module writes as a member: a string or
/// `null` ([`jopt`]), an integer ([`dec_int`]), a flat map ([`jmap`]), an
/// array of strings ([`jstrings`]), or an array of flat objects
/// ([`jobjects`]).
pub open spec fn simple_json(t: Seq<char>) -> bool {
    ||| exists|v: Option<Seq<char>>| t == #[trigger] jopt(v)
    ||| exists|x: int| i64::MIN <= x <= i64::MAX && t == #[trigger] dec_int(x)
    ||| exists|pairs: Seq<(Seq<char>, Option<Seq<char>>)>| t == #[trigger] jmap(pairs)
    ||| exists|ids: Seq<Seq<char>>| t == #[trigger] jstrings(ids)
    ||| exists|objs: Seq<Seq<(Seq<char>, Seq<char>)>>| t == #[trigger] jobjects(objs) && objects_ok(objs)
}

/// `true` or `false`.
pub open spec fn jbool(b: bool) -> Seq<char> {
    if b {
        "true"@
    } else {
        "false"@
    }
}

/// A JSON scalar of the kinds this module writes: a string or `null`, an
/// integer, or a boolean.
pub open spec fn scalar_json(t: Seq<char>) -> bool {
    ||| exists|v: Option<Seq<char>>| t == #[trigger] jopt(v)
    ||| exists|x: int| i64::MIN <= x <= i64::MAX && t == #[trigger] dec_int(x)
    ||| exists|b: bool| t == #[trigger] jbool(b)
}

/// Object members with pointer-safe keys that occur once, and scalar
/// values.
pub open spec fn flat_ok(ms: Seq<(Seq<char>, Seq<char>)>) -> bool {
    &&& forall|i: int| 0 <= i < ms.len() ==> pointer_safe(#[trigger] ms[i].0) && scalar_json(ms[i].1)
    &&& forall|i: int, j: int| 0 <= i < j < ms.len() ==> ms[i].0 != ms[j].0
}

/// Every object of an array is flat.
pub open spec fn objects_ok(objs: Seq<Seq<(Seq<char>, Seq<char>)>>) -> bool {
    forall|k: int| 0 <= k < objs.len() ==> flat_ok(#[trigger] objs[k])
}

/// A JSON array of objects, each written as [`jobject`] writes it.
pub open spec fn jobjects(objs: Seq<Seq<(Seq<char>, Seq<char>)>>) -> Seq<char> {
    jarray(Seq::new(objs.len(), |k: int| jobject(objs[k])))
}

/// A JSON array of strings.
pub open spec fn jstrings(ids: Seq<Seq<char>>) -> Seq<char> {
    jarray(Seq::new(ids.len(), |i: int| serde_str_spec(ids[i])))
}

/// Object members with pointer-safe keys that occur once, and values of
/// the kinds of [`simple_json`].
pub open spec fn members_ok(ms: Seq<(Seq<char>, Seq<char>)>) -> bool {
    &&& forall|i: int| 0 <= i < ms.len() ==> pointer_safe(#[trigger] ms[i].0) && simple_json(ms[i].1)
    &&& forall|i: int, j: int| 0 <= i < j < ms.len() ==> ms[i].0 != ms[j].0
}

/// The keys of a flat map occur once.
pub open spec fn distinct_keys(pairs: Seq<(Seq<char>, Option<Seq<char>>)>) -> bool {
    forall|i: int, j: int| 0 <= i < j < pairs.len() ==> pairs[i].0 != pairs[j].0
}

/// `ks` lists the keys of `pairs`, each once (in some order).
pub open spec fn same_keys(ks: Seq<Seq<char>>, pairs: Seq<(Seq<char>, Option<Seq<char>>)>) -> bool {
    &&& ks.len() == pairs.len()
    &&& forall|a: int| 0 <= a < ks.len() ==> exists|b: int| 0 <= b < pairs.len() && #[trigger] ks[a] == pairs[b].0
    &&& forall|b: int| 0 <= b < pairs.len() ==> exists|a: int| 0 <= a < ks.len() && ks[a] == (#[trigger] pairs[b]).0
}

/// The string at a JSON pointer.
///
/// Trusted: parses `text` with `serde_json::from_str` into a
/// `serde_json::Value`, looks `ptr` up with `Value::pointer` and hands back
/// the text of a `Value::String`; the result is named by [`json_string_at`].
/// The other clauses say that an object written as [`jobject`] writes it
/// reads back: `serde_json` decodes the escapes that `serde_str_spec` writes
/// (quote, backslash, `\b`, `\f`, `\n`, `\r`, `\t`, `\u00XX`) in keys and values, builds
/// a `Value::Object` of the members (their keys occurring once), and
/// `Value::pointer` finds `/key` for a key without `/` or `~`, and
/// `/key/inner` inside a member that is a flat map, where `inner` is escaped
/// as RFC 6901 says (`~0`, `~1`) and unescaped by `Value::pointer`, and
/// `/key/<k>` for element `k` of a member that is an array (the index in
/// decimal without leading zeros, as `Value::pointer` parses it), and
/// `/key/<k>/name` for member `name` of object `k` of such an array. A
/// string reads as `Some`, a `null` as `None`.
#[verifier::external_body]
fn string_at(text: &str, ptr: &str) -> (r: Option<String>)
    ensures
        opt_view(r) == json_string_at(text@, ptr@),
        forall|ms: Seq<(Seq<char>, Seq<char>)>, i: int, v: Option<Seq<char>>|
            #![trigger jobject(ms), ms[i], jopt(v)]
            text@ == jobject(ms) && members_ok(ms) && 0 <= i < ms.len() && ms[i].1 == jopt(v) && ptr@
                == top_ptr(ms[i].0) ==> opt_view(r) == v,
        forall|ms: Seq<(Seq<char>, Seq<char>)>, i: int, pairs: Seq<(Seq<char>, Option<Seq<char>>)>, j: int|
            #![trigger jobject(ms), ms[i], jmap(pairs), pairs[j]]
            text@ == jobject(ms) && members_ok(ms) && 0 <= i < ms.len() && ms[i].1 == jmap(pairs)
                && distinct_keys(pairs) && 0 <= j < pairs.len() && ptr@ == member_ptr(ms[i].0, pairs[j].0)
                ==> opt_view(r) == pairs[j].1,
        forall|ms: Seq<(Seq<char>, Seq<char>)>, i: int, ids: Seq<Seq<char>>, k: int|
            #![trigger jobject(ms), ms[i], jstrings(ids), ids[k]]
            text@ == jobject(ms) && members_ok(ms) && 0 <= i < ms.len() && ms[i].1 == jstrings(ids) && 0 <= k
                < ids.len() && ptr@ == elem_ptr(ms[i].0, k as nat) ==> opt_view(r) == Some(ids[k]),
        forall|
            ms: Seq<(Seq<char>, Seq<char>)>,
            i: int,
            objs: Seq<Seq<(Seq<char>, Seq<char>)>>,
            k: int,
            j: int,
            v: Option<Seq<char>>,
        |
            #![trigger jobject(ms), ms[i], jobjects(objs), objs[k][j], jopt(v)]
            text@ == jobject(ms) && members_ok(ms) && 0 <= i < ms.len() && ms[i].1 == jobjects(objs) && objects_ok(
                objs,
            ) && 0 <= k < objs.len() && 0 <= j < objs[k].len() && objs[k][j].1 == jopt(v) && ptr@ == field_ptr(
                ms[i].0,
                k as nat,
                objs[k][j].0,
            ) ==> opt_view(r) == v,
{
    match serde_json::from_str::<serde_json::Value>(text) {
        Ok(v) => match v.pointer(ptr) {
            Some(serde_json::Value::String(s)) => Some(s.clone()),
            _ => None,
        },
        Err(_) => None,
    }
}

/// The number at a JSON pointer, as text.
///
/// Trusted: as [`string_at`], for a `Value::Number`, rendered with its
/// `Display` (`to_string`); named by [`json_number_at`]. The other clauses:
/// an integer member of an object written as [`jobject`] writes it, or of
/// an object of an array member ([`jobjects`]), parses as an integer
/// `Number`, whose `Display` writes the same decimal digits back.
#[verifier::external_body]
fn number_at(text: &str, ptr: &str) -> (r: Option<String>)
    ensures
        opt_view(r) == json_number_at(text@, ptr@),
        forall|ms: Seq<(Seq<char>, Seq<char>)>, i: int, x: int|
            #![trigger jobject(ms), ms[i], dec_int(x)]
            text@ == jobject(ms) && members_ok(ms) && 0 <= i < ms.len() && i64::MIN <= x <= i64::MAX
                && ms[i].1 == dec_int(x) && ptr@ == top_ptr(ms[i].0) ==> opt_view(r) == Some(dec_int(x)),
        forall|ms: Seq<(Seq<char>, Seq<char>)>, i: int, objs: Seq<Seq<(Seq<char>, Seq<char>)>>, k: int, j: int, x: int|
            #![trigger jobject(ms), ms[i], jobjects(objs), objs[k][j], dec_int(x)]
            text@ == jobject(ms) && members_ok(ms) && 0 <= i < ms.len() && ms[i].1 == jobjects(objs) && objects_ok(
                objs,
            ) && 0 <= k < objs.len() && 0 <= j < objs[k].len() && i64::MIN <= x <= i64::MAX && objs[k][j].1
                == dec_int(x) && ptr@ == field_ptr(ms[i].0, k as nat, objs[k][j].0) ==> opt_view(r) == Some(dec_int(x)),
{
    match serde_json::from_str::<serde_json::Value>(text) {
        Ok(v) => match v.pointer(ptr) {
            Some(serde_json::Value::Number(n)) => Some(n.to_string()),
            _ => None,
        },
        Err(_) => None,
    }
}

/// The boolean at a JSON pointer.
///
/// Trusted: as [`string_at`], for a `Value::Bool`; named by
/// [`json_bool_at`]. The second clause: a `true` or `false` member of an
/// object of an array member ([`jobjects`]) reads back.
#[verifier::external_body]
fn bool_at(text: &str, ptr: &str) -> (r: Option<bool>)
    ensures
        r == json_bool_at(text@, ptr@),
        forall|ms: Seq<(Seq<char>, Seq<char>)>, i: int, objs: Seq<Seq<(Seq<char>, Seq<char>)>>, k: int, j: int, b: bool|
            #![trigger jobject(ms), ms[i], jobjects(objs), objs[k][j], jbool(b)]
            text@ == jobject(ms) && members_ok(ms) && 0 <= i < ms.len() && ms[i].1 == jobjects(objs) && objects_ok(
                objs,
            ) && 0 <= k < objs.len() && 0 <= j < objs[k].len() && objs[k][j].1 == jbool(b) && ptr@ == field_ptr(
                ms[i].0,
                k as nat,
                objs[k][j].0,
            ) ==> r == Some(b),
{
    match serde_json::from_str::<serde_json::Value>(text) {
        Ok(v) => match v.pointer(ptr) {
            Some(serde_json::Value::Bool(b)) => Some(*b),
            _ => None,
        },
        Err(_) => None,
    }
}

/// Whether a JSON pointer finds nothing or `null`.
///
/// Trusted: as [`string_at`]; true when `Value::pointer` gives `None` or a
/// `Value::Null`. Named by [`json_void_at`]. The other clauses: in an
/// object written as [`jobject`] writes it, as for [`string_at`], a `null`
/// member reads as void and a string or integer member does not.
#[verifier::external_body]
fn void_at(text: &str, ptr: &str) -> (r: bool)
    ensures
        r == json_void_at(text@, ptr@),
        forall|ms: Seq<(Seq<char>, Seq<char>)>, i: int, v: Option<Seq<char>>|
            #![trigger jobject(ms), ms[i], jopt(v)]
            text@ == jobject(ms) && members_ok(ms) && 0 <= i < ms.len() && ms[i].1 == jopt(v) && ptr@
                == top_ptr(ms[i].0) ==> r == (v is None),
        forall|ms: Seq<(Seq<char>, Seq<char>)>, i: int, pairs: Seq<(Seq<char>, Option<Seq<char>>)>, j: int|
            #![trigger jobject(ms), ms[i], jmap(pairs), pairs[j]]
            text@ == jobject(ms) && members_ok(ms) && 0 <= i < ms.len() && ms[i].1 == jmap(pairs)
                && distinct_keys(pairs) && 0 <= j < pairs.len() && ptr@ == member_ptr(ms[i].0, pairs[j].0)
                ==> r == (pairs[j].1 is None),
        forall|
            ms: Seq<(Seq<char>, Seq<char>)>,
            i: int,
            objs: Seq<Seq<(Seq<char>, Seq<char>)>>,
            k: int,
            j: int,
            v: Option<Seq<char>>,
        |
            #![trigger jobject(ms), ms[i], jobjects(objs), objs[k][j], jopt(v)]
            text@ == jobject(ms) && members_ok(ms) && 0 <= i < ms.len() && ms[i].1 == jobjects(objs) && objects_ok(
                objs,
            ) && 0 <= k < objs.len() && 0 <= j < objs[k].len() && objs[k][j].1 == jopt(v) && ptr@ == field_ptr(
                ms[i].0,
                k as nat,
                objs[k][j].0,
            ) ==> r == (v is None),
        forall|ms: Seq<(Seq<char>, Seq<char>)>, i: int, objs: Seq<Seq<(Seq<char>, Seq<char>)>>, k: int, j: int, x: int|
            #![trigger jobject(ms), ms[i], jobjects(objs), objs[k][j], dec_int(x)]
            text@ == jobject(ms) && members_ok(ms) && 0 <= i < ms.len() && ms[i].1 == jobjects(objs) && objects_ok(
                objs,
            ) && 0 <= k < objs.len() && 0 <= j < objs[k].len() && i64::MIN <= x <= i64::MAX && objs[k][j].1
                == dec_int(x) && ptr@ == field_ptr(ms[i].0, k as nat, objs[k][j].0) ==> !r,
{
    match serde_json::from_str::<serde_json::Value>(text) {
        Ok(v) => match v.pointer(ptr) {
            None => true,
            Some(serde_json::Value::Null) => true,
            _ => false,
        },
        Err(_) => false,
    }
}

/// The length of the array at a JSON pointer.
///
/// Trusted: as [`string_at`], for a `Value::Array`, its `len`; named by
/// [`json_len_at`]. The other clauses: an array member of an object
/// written as [`jobject`] writes it ([`jstrings`], [`jobjects`]) has as
/// many elements as were written.
#[verifier::external_body]
fn len_at(text: &str, ptr: &str) -> (r: Option<usize>)
    ensures
        match r {
            Some(n) => json_len_at(text@, ptr@) == Some(n as nat),
            None => json_len_at(text@, ptr@) is None,
        },
        forall|ms: Seq<(Seq<char>, Seq<char>)>, i: int, ids: Seq<Seq<char>>|
            #![trigger jobject(ms), ms[i], jstrings(ids)]
            text@ == jobject(ms) && members_ok(ms) && 0 <= i < ms.len() && ms[i].1 == jstrings(ids) && ptr@
                == top_ptr(ms[i].0) ==> r is Some && r->0 == ids.len(),
        forall|ms: Seq<(Seq<char>, Seq<char>)>, i: int, objs: Seq<Seq<(Seq<char>, Seq<char>)>>|
            #![trigger jobject(ms), ms[i], jobjects(objs)]
            text@ == jobject(ms) && members_ok(ms) && 0 <= i < ms.len() && ms[i].1 == jobjects(objs) && objects_ok(
                objs,
            ) && ptr@ == top_ptr(ms[i].0) ==> r is Some && r->0 == objs.len(),
{
    match serde_json::from_str::<serde_json::Value>(text) {
        Ok(v) => match v.pointer(ptr) {
            Some(serde_json::Value::Array(a)) => Some(a.len()),
            _ => None,
        },
        Err(_) => None,
    }
}

/// The keys of the object at a JSON pointer.
///
/// Trusted: as [`string_at`], for a `Value::Object`, its keys in the map's
/// own order (`Map::keys`); named by [`json_keys_at`]. The second clause: a
/// member of an object written as [`jobject`] writes it that is a flat map
/// with keys occurring once has exactly those keys, each once (in the
/// map's own order, which this does not state).
#[verifier::external_body]
fn keys_at(text: &str, ptr: &str) -> (r: Option<Vec<String>>)
    ensures
        match r {
            Some(ks) => json_keys_at(text@, ptr@) == Some(ks@.map_values(|k: String| k@)),
            None => json_keys_at(text@, ptr@) is None,
        },
        forall|ms: Seq<(Seq<char>, Seq<char>)>, i: int, pairs: Seq<(Seq<char>, Option<Seq<char>>)>|
            #![trigger jobject(ms), ms[i], jmap(pairs)]
            text@ == jobject(ms) && members_ok(ms) && 0 <= i < ms.len() && ms[i].1 == jmap(pairs)
                && distinct_keys(pairs) && ptr@ == top_ptr(ms[i].0) ==> r is Some && same_keys(
                r->0@.map_values(|k: String| k@),
                pairs,
            ),
{
    match serde_json::from_str::<serde_json::Value>(text) {
        Ok(v) => match v.pointer(ptr) {
            Some(serde_json::Value::Object(m)) => Some(m.keys().cloned().collect()),
            _ => None,
        },
        Err(_) => None,
    }
}

// --- JSON pointers ---------------------------------------------------------------

/// A key escaped for a JSON pointer: `~` as `~0`, `/` as `~1`.
pub open spec fn ptr_escape(k: Seq<char>) -> Seq<char>
    decreases k.len(),
{
    if k.len() == 0 {
        seq![]
    } else {
        let c = k.last();
        ptr_escape(k.drop_last()) + (if c == '~' {
            seq!['~', '0']
        } else if c == '/' {
            seq!['~', '1']
        } else {
            seq![c]
        })
    }
}

/// The pointer to member `key` of the top-level member `outer`.
pub open spec fn member_ptr(outer: Seq<char>, key: Seq<char>) -> Seq<char> {
    seq!['/'] + outer + seq!['/'] + ptr_escape(key)
}

/// The pointer to element `i` of the top-level array `outer`.
pub open spec fn elem_ptr(outer: Seq<char>, i: nat) -> Seq<char> {
    seq!['/'] + outer + seq!['/'] + dec(i)
}

/// The pointer to field `name` of element `i` of the top-level array
/// `outer`.
pub open spec fn field_ptr(outer: Seq<char>, i: nat, name: Seq<char>) -> Seq<char> {
    elem_ptr(outer, i) + seq!['/'] + name
}

/// The pointer to the top-level member `name`.
pub open spec fn top_ptr(name: Seq<char>) -> Seq<char> {
    seq!['/'] + name
}

fn push_ptr_escape(out: &mut Vec<char>, k: &Vec<char>)
    ensures
        final(out)@ == old(out)@ + ptr_escape(k@),
{
    let ghost start = out@;
    let mut i: usize = 0;
    while i < k.len()
        invariant
            i <= k.len(),
            out@ == start + ptr_escape(k@.take(i as int)),
        decreases k.len() - i,
    {
        let c = k[i];
        if c == '~' {
            out.push('~');
            out.push('0');
        } else if c == '/' {
            out.push('~');
            out.push('1');
        } else {
            out.push(c);
        }
        proof {
            assert(k@.take(i + 1).drop_last() =~= k@.take(i as int));
            assert(out@ =~= start + ptr_escape(k@.take(i + 1)));
        }
        i += 1;
    }
    proof {
        assert(k@.take(i as int) =~= k@);
    }
}

fn make_member_ptr(outer: &str, key: &str) -> (r: String)
    ensures
        r@ == member_ptr(outer@, key@),
{
    let mut out: Vec<char> = Vec::new();
    out.push('/');
    push_str(&mut out, outer);
    out.push('/');
    let kv = chars_of(key);
    push_ptr_escape(&mut out, &kv);
    proof {
        assert(out@ =~= member_ptr(outer@, key@));
    }
    string_of(out.as_slice())
}

fn make_elem_ptr(outer: &str, i: usize) -> (r: String)
    ensures
        r@ == elem_ptr(outer@, i as nat),
{
    let mut out: Vec<char> = Vec::new();
    out.push('/');
    push_str(&mut out, outer);
    out.push('/');
    push_dec(&mut out, i as u64);
    proof {
        assert(out@ =~= elem_ptr(outer@, i as nat));
    }
    string_of(out.as_slice())
}

fn make_field_ptr(outer: &str, i: usize, name: &str) -> (r: String)
    ensures
        r@ == field_ptr(outer@, i as nat, name@),
{
    let mut out: Vec<char> = Vec::new();
    out.push('/');
    push_str(&mut out, outer);
    out.push('/');
    push_dec(&mut out, i as u64);
    out.push('/');
    push_str(&mut out, name);
    proof {
        assert(out@ =~= field_ptr(outer@, i as nat, name@));
    }
    string_of(out.as_slice())
}

fn make_top_ptr(name: &str) -> (r: String)
    ensures
        r@ == top_ptr(name@),
{
    let mut out: Vec<char> = Vec::new();
    out.push('/');
    push_str(&mut out, name);
    proof {
        assert(out@ =~= top_ptr(name@));
    }
    string_of(out.as_slice())
}

// --- Fields -------------------------------------------------------------------------

/// An optional string field: `Some(None)` when absent or `null`,
/// `Some(Some(s))` for a string, `None` for anything else.
pub open spec fn opt_str_field(p: Seq<char>, ptr: Seq<char>) -> Option<Option<Seq<char>>> {
    if json_void_at(p, ptr) {
        Some(None)
    } else {
        match json_string_at(p, ptr) {
            Some(s) => Some(Some(s)),
            None => None,
        }
    }
}

/// A number with no fractional part: plain digits, or digits followed by a
/// point and only zeros (how a whole floating-point value renders).
pub open spec fn whole_number(t: Seq<char>) -> Option<i64> {
    match find_char(t, '.') {
        None => parse_i64_spec(t),
        Some(i) => if i + 1 < t.len() && (forall|j: int| i < j < t.len() ==> #[trigger] t[j] == '0') {
            parse_i64_spec(t.take(i as int))
        } else {
            None
        },
    }
}

/// A whole-number field.
pub open spec fn whole_field(p: Seq<char>, ptr: Seq<char>) -> Option<i64> {
    match json_number_at(p, ptr) {
        Some(t) => whole_number(t),
        None => None,
    }
}

/// An optional integer field: `Some(None)` when absent or `null`.
pub open spec fn opt_int_field(p: Seq<char>, ptr: Seq<char>) -> Option<Option<i64>> {
    if json_void_at(p, ptr) {
        Some(None)
    } else {
        match json_number_at(p, ptr) {
            Some(t) => match parse_i64_spec(t) {
                Some(x) => Some(Some(x)),
                None => None,
            },
            None => None,
        }
    }
}

fn opt_string_at(p: &str, ptr: &str) -> (r: Option<Option<String>>)
    ensures
        match r {
            Some(o) => opt_str_field(p@, ptr@) == Some(opt_view(o)),
            None => opt_str_field(p@, ptr@) is None,
        },
        opt_reads(p@, ptr@),
{
    if void_at(p, ptr) {
        return Some(None);
    }
    match string_at(p, ptr) {
        Some(s) => Some(Some(s)),
        None => None,
    }
}

fn whole_number_of(t: &str) -> (r: Option<i64>)
    ensures
        r == whole_number(t@),
{
    let v = chars_of(t);
    match find(&v, '.') {
        None => parse_i64(&v),
        Some(i) => {
            if i + 1 >= v.len() {
                return None;
            }
            let mut j = i + 1;
            while j < v.len()
                invariant
                    i < j <= v.len(),
                    v@ == t@,
                    find_char(t@, '.') == Some(i as nat),
                    forall|m: int| i < m < j ==> #[trigger] v@[m] == '0',
                decreases v.len() - j,
            {
                if v[j] != '0' {
                    proof {
                        assert(t@[j as int] != '0');
                    }
                    return None;
                }
                j += 1;
            }
            let mut head: Vec<char> = Vec::new();
            let mut k: usize = 0;
            while k < i
                invariant
                    k <= i < v.len(),
                    head@ == v@.take(k as int),
                decreases i - k,
            {
                head.push(v[k]);
                k += 1;
                proof {
                    assert(head@ =~= v@.take(k as int));
                }
            }
            parse_i64(&head)
        },
    }
}

fn whole_at(p: &str, ptr: &str) -> (r: Option<i64>)
    ensures
        r == whole_field(p@, ptr@),
        whole_reads(p@, ptr@),
{
    let r = match number_at(p, ptr) {
        Some(t) => whole_number_of(t.as_str()),
        None => None,
    };
    proof {
        assert forall|ms: Seq<(Seq<char>, Seq<char>)>, i: int, x: int|
            #![trigger jobject(ms), ms[i], dec_int(x)]
            p@ == jobject(ms) && members_ok(ms) && 0 <= i < ms.len() && i64::MIN <= x <= i64::MAX && ms[i].1
                == dec_int(x) && ptr@ == top_ptr(ms[i].0) implies whole_field(p@, ptr@) == Some(x as i64) by {
            lemma_whole_dec_int(x);
        }
        assert forall|ms: Seq<(Seq<char>, Seq<char>)>, i: int, objs: Seq<Seq<(Seq<char>, Seq<char>)>>, k: int, j: int, x: int|
            #![trigger jobject(ms), ms[i], jobjects(objs), objs[k][j], dec_int(x)]
            p@ == jobject(ms) && members_ok(ms) && 0 <= i < ms.len() && ms[i].1 == jobjects(objs) && objects_ok(objs)
                && 0 <= k < objs.len() && 0 <= j < objs[k].len() && i64::MIN <= x <= i64::MAX && objs[k][j].1
                == dec_int(x) && ptr@ == field_ptr(ms[i].0, k as nat, objs[k][j].0) implies whole_field(p@, ptr@)
                == Some(x as i64) by {
            lemma_whole_dec_int(x);
        }
    }
    r
}

/// An integer's decimal text reads back as that integer.
proof fn lemma_whole_dec_int(x: int)
    requires
        i64::MIN <= x <= i64::MAX,
    ensures
        whole_number(dec_int(x)) == Some(x as i64),
        parse_i64_spec(dec_int(x)) == Some(x as i64),
{
    let t = dec_int(x);
    let n: nat = if x < 0 { (-x) as nat } else { x as nat };
    lemma_dec_digits(n);
    assert(signed_body(t) =~= dec(n));
    assert(lacks(t, '.')) by {
        assert forall|j: int| 0 <= j < t.len() implies #[trigger] t[j] != '.' by {
            if x < 0 {
                if j > 0 {
                    assert(t[j] == dec(n)[j - 1]);
                    assert(is_digit(dec(n)[j - 1]));
                }
            } else {
                assert(is_digit(dec(n)[j]));
            }
        }
    }
    lemma_find_char(t, '.');
}

fn opt_int_at(p: &str, ptr: &str) -> (r: Option<Option<i64>>)
    ensures
        r == opt_int_field(p@, ptr@),
        opt_int_reads(p@, ptr@),
{
    let void = void_at(p, ptr);
    let num = number_at(p, ptr);
    let r = if void {
        Some(None)
    } else {
        match num {
            Some(t) => {
                let v = chars_of(t.as_str());
                match parse_i64(&v) {
                    Some(x) => Some(Some(x)),
                    None => None,
                }
            },
            None => None,
        }
    };
    proof {
        assert forall|ms: Seq<(Seq<char>, Seq<char>)>, i: int, objs: Seq<Seq<(Seq<char>, Seq<char>)>>, k: int, j: int, x: int|
            #![trigger jobject(ms), ms[i], jobjects(objs), objs[k][j], dec_int(x)]
            p@ == jobject(ms) && members_ok(ms) && 0 <= i < ms.len() && ms[i].1 == jobjects(objs) && objects_ok(objs)
                && 0 <= k < objs.len() && 0 <= j < objs[k].len() && i64::MIN <= x <= i64::MAX && objs[k][j].1
                == dec_int(x) && ptr@ == field_ptr(ms[i].0, k as nat, objs[k][j].0) implies opt_int_field(p@, ptr@)
                == Some(Some(x as i64)) by {
            lemma_whole_dec_int(x);
        }
    }
    r
}

// --- Snapshots and steps ---------------------------------------------------------------

/// A task row exactly as stored, for a delete's subtree snapshot.
#[derive(Debug, Clone, PartialEq)]
pub struct TaskSnapshot {
    pub id: String,
    pub parent_task_id: Option<String>,
    pub project_id: Option<String>,
    pub title: String,
    pub notes: String,
    pub deadline: Option<String>,
    pub track: bool,
    pub status: String,
    pub sort_order: i64,
    pub created_at: String,
    pub initial_time_seconds: Option<i64>,
    pub completed_at: Option<String>,
}

/// A [`TaskSnapshot`] as mathematical text.
pub struct TaskSnap {
    pub id: Seq<char>,
    pub parent_task_id: Option<Seq<char>>,
    pub project_id: Option<Seq<char>>,
    pub title: Seq<char>,
    pub notes: Seq<char>,
    pub deadline: Option<Seq<char>>,
    pub track: bool,
    pub status: Seq<char>,
    pub sort_order: i64,
    pub created_at: Seq<char>,
    pub initial_time_seconds: Option<i64>,
    pub completed_at: Option<Seq<char>>,
}

impl View for TaskSnapshot {
    type V = TaskSnap;

    open spec fn view(&self) -> TaskSnap {
        TaskSnap {
            id: self.id@,
            parent_task_id: opt_view(self.parent_task_id),
            project_id: opt_view(self.project_id),
            title: self.title@,
            notes: self.notes@,
            deadline: opt_view(self.deadline),
            track: self.track,
            status: self.status@,
            sort_order: self.sort_order,
            created_at: self.created_at@,
            initial_time_seconds: self.initial_time_seconds,
            completed_at: opt_view(self.completed_at),
        }
    }
}

/// A time-entry row exactly as stored, for a delete's snapshot.
#[derive(Debug, Clone, PartialEq)]
pub struct EntrySnapshot {
    pub id: String,
    pub task_id: String,
    pub start_ts: String,
    pub end_ts: Option<String>,
    pub source: String,
    pub note: String,
    pub created_at: String,
}

/// An [`EntrySnapshot`] as mathematical text.
pub struct EntrySnap {
    pub id: Seq<char>,
    pub task_id: Seq<char>,
    pub start_ts: Seq<char>,
    pub end_ts: Option<Seq<char>>,
    pub source: Seq<char>,
    pub note: Seq<char>,
    pub created_at: Seq<char>,
}

impl View for EntrySnapshot {
    type V = EntrySnap;

    open spec fn view(&self) -> EntrySnap {
        EntrySnap {
            id: self.id@,
            task_id: self.task_id@,
            start_ts: self.start_ts@,
            end_ts: opt_view(self.end_ts),
            source: self.source@,
            note: self.note@,
            created_at: self.created_at@,
        }
    }
}

/// One change that undoing an action makes.
#[derive(Debug, Clone, PartialEq)]
pub enum RevertStep {
    /// Delete a task (its subtree and time entries cascade).
    DeleteTask(String),
    /// Give a task back its title.
    Rename { id: String, title: String },
    /// Give a task back its notes.
    SetNotes { id: String, notes: String },
    /// Give a task back its deadline (`None` clears it).
    SetDeadline { id: String, deadline: Option<String> },
    /// Give a task back its status.
    SetStatus { id: String, status: TaskStatus },
    /// Give one task back its project (`None` for unfiled).
    SetProject { id: String, project: Option<String> },
    /// Put a task back under its old parent (at the root when that parent
    /// is gone) at its old position.
    Reparent { id: String, parent: Option<String>, sort_order: i64 },
    /// Re-insert a deleted task; a parent or project that is gone by now is
    /// left out.
    RestoreTask(TaskSnapshot),
    /// Re-insert a deleted time entry.
    RestoreEntry(EntrySnapshot),
    /// Delete a project (its tasks become unfiled).
    DeleteProject(String),
}

/// A [`RevertStep`] as mathematical text.
pub enum StepView {
    DeleteTask(Seq<char>),
    Rename { id: Seq<char>, title: Seq<char> },
    SetNotes { id: Seq<char>, notes: Seq<char> },
    SetDeadline { id: Seq<char>, deadline: Option<Seq<char>> },
    SetStatus { id: Seq<char>, status: TaskStatus },
    SetProject { id: Seq<char>, project: Option<Seq<char>> },
    Reparent { id: Seq<char>, parent: Option<Seq<char>>, sort_order: i64 },
    RestoreTask(TaskSnap),
    RestoreEntry(EntrySnap),
    DeleteProject(Seq<char>),
}

impl View for RevertStep {
    type V = StepView;

    open spec fn view(&self) -> StepView {
        match self {
            RevertStep::DeleteTask(id) => StepView::DeleteTask(id@),
            RevertStep::Rename { id, title } => StepView::Rename { id: id@, title: title@ },
            RevertStep::SetNotes { id, notes } => StepView::SetNotes { id: id@, notes: notes@ },
            RevertStep::SetDeadline { id, deadline } => StepView::SetDeadline { id: id@, deadline: opt_view(*deadline) },
            RevertStep::SetStatus { id, status } => StepView::SetStatus { id: id@, status: *status },
            RevertStep::SetProject { id, project } => StepView::SetProject { id: id@, project: opt_view(*project) },
            RevertStep::Reparent { id, parent, sort_order } => StepView::Reparent {
                id: id@,
                parent: opt_view(*parent),
                sort_order: *sort_order,
            },
            RevertStep::RestoreTask(t) => StepView::RestoreTask(t@),
            RevertStep::RestoreEntry(e) => StepView::RestoreEntry(e@),
            RevertStep::DeleteProject(id) => StepView::DeleteProject(id@),
        }
    }
}

/// The views of a list of steps.
pub open spec fn step_views(v: Seq<RevertStep>) -> Seq<StepView> {
    v.map_values(|s: RevertStep| s@)
}

// --- Decoding snapshots --------------------------------------------------------------

/// Element `i` of the payload's `tasks` array, when every field has its type.
pub open spec fn task_snap_at(p: Seq<char>, i: nat) -> Option<TaskSnap> {
    let f = |name: Seq<char>| field_ptr("tasks"@, i, name);
    let id = json_string_at(p, f("id"@));
    let parent = opt_str_field(p, f("parent_task_id"@));
    let project = opt_str_field(p, f("project_id"@));
    let title = json_string_at(p, f("title"@));
    let notes = json_string_at(p, f("notes"@));
    let deadline = opt_str_field(p, f("deadline"@));
    let track = json_bool_at(p, f("tracked"@));
    let status = json_string_at(p, f("status"@));
    let sort_order = whole_field(p, f("sort_order"@));
    let created_at = json_string_at(p, f("created_at"@));
    let secs = opt_int_field(p, f("initial_time_seconds"@));
    let completed_at = opt_str_field(p, f("completed_at"@));
    if id is Some && parent is Some && project is Some && title is Some && notes is Some
        && deadline is Some && track is Some && status is Some && sort_order is Some
        && created_at is Some && secs is Some && completed_at is Some {
        Some(
            TaskSnap {
                id: id->0,
                parent_task_id: parent->0,
                project_id: project->0,
                title: title->0,
                notes: notes->0,
                deadline: deadline->0,
                track: track->0,
                status: status->0,
                sort_order: sort_order->0,
                created_at: created_at->0,
                initial_time_seconds: secs->0,
                completed_at: completed_at->0,
            },
        )
    } else {
        None
    }
}

/// Element `i` of the payload's `entries` array, when every field has its
/// type.
pub open spec fn entry_snap_at(p: Seq<char>, i: nat) -> Option<EntrySnap> {
    let f = |name: Seq<char>| field_ptr("entries"@, i, name);
    let id = json_string_at(p, f("id"@));
    let task_id = json_string_at(p, f("task_id"@));
    let start_ts = json_string_at(p, f("start_ts"@));
    let end_ts = opt_str_field(p, f("end_ts"@));
    let source = json_string_at(p, f("source"@));
    let note = json_string_at(p, f("note"@));
    let created_at = json_string_at(p, f("created_at"@));
    if id is Some && task_id is Some && start_ts is Some && end_ts is Some && source is Some
        && note is Some && created_at is Some {
        Some(
            EntrySnap {
                id: id->0,
                task_id: task_id->0,
                start_ts: start_ts->0,
                end_ts: end_ts->0,
                source: source->0,
                note: note->0,
                created_at: created_at->0,
            },
        )
    } else {
        None
    }
}

#[verifier::spinoff_prover]
fn task_snapshot_at(p: &str, i: usize) -> (r: Option<TaskSnapshot>)
    ensures
        match r {
            Some(t) => task_snap_at(p@, i as nat) == Some(t@),
            None => task_snap_at(p@, i as nat) is None,
        },
        forall|ts: Seq<TaskSnap>, es: Seq<EntrySnap>|
            p@ == #[trigger] delete_payload(ts, es) && i < ts.len() ==> task_snap_at(p@, i as nat) == Some(ts[i as int]),
{
    let id = string_at(p, make_field_ptr("tasks", i, "id").as_str());
    proof {
        assert(elem_str_reads(p@, field_ptr("tasks"@, i as nat, "id"@)));
    }
    let parent = opt_string_at(p, make_field_ptr("tasks", i, "parent_task_id").as_str());
    let project = opt_string_at(p, make_field_ptr("tasks", i, "project_id").as_str());
    let title = string_at(p, make_field_ptr("tasks", i, "title").as_str());
    proof {
        assert(elem_str_reads(p@, field_ptr("tasks"@, i as nat, "title"@)));
    }
    let notes = string_at(p, make_field_ptr("tasks", i, "notes").as_str());
    proof {
        assert(elem_str_reads(p@, field_ptr("tasks"@, i as nat, "notes"@)));
    }
    let deadline = opt_string_at(p, make_field_ptr("tasks", i, "deadline").as_str());
    let track = bool_at(p, make_field_ptr("tasks", i, "tracked").as_str());
    proof {
        assert(elem_bool_reads(p@, field_ptr("tasks"@, i as nat, "tracked"@)));
    }
    let status = string_at(p, make_field_ptr("tasks", i, "status").as_str());
    proof {
        assert(elem_str_reads(p@, field_ptr("tasks"@, i as nat, "status"@)));
    }
    let sort_order = whole_at(p, make_field_ptr("tasks", i, "sort_order").as_str());
    let created_at = string_at(p, make_field_ptr("tasks", i, "created_at").as_str());
    proof {
        assert(elem_str_reads(p@, field_ptr("tasks"@, i as nat, "created_at"@)));
    }
    let secs = opt_int_at(p, make_field_ptr("tasks", i, "initial_time_seconds").as_str());
    let completed_at = opt_string_at(p, make_field_ptr("tasks", i, "completed_at").as_str());
    let r = match (id, parent, project, title, notes, deadline, track, status, sort_order, created_at, secs, completed_at) {
        (
            Some(id),
            Some(parent_task_id),
            Some(project_id),
            Some(title),
            Some(notes),
            Some(deadline),
            Some(track),
            Some(status),
            Some(sort_order),
            Some(created_at),
            Some(initial_time_seconds),
            Some(completed_at),
        ) => Some(
            TaskSnapshot {
                id,
                parent_task_id,
                project_id,
                title,
                notes,
                deadline,
                track,
                status,
                sort_order,
                created_at,
                initial_time_seconds,
                completed_at,
            },
        ),
        _ => None,
    };
    proof {
        assert forall|ts: Seq<TaskSnap>, es: Seq<EntrySnap>|
            p@ == #[trigger] delete_payload(ts, es) && i < ts.len() implies task_snap_at(p@, i as nat) == Some(
            ts[i as int],
        ) by {
            lemma_task_reads(p@, i as nat, ts, es);
        }
    }
    r
}

#[verifier::spinoff_prover]
fn entry_snapshot_at(p: &str, i: usize) -> (r: Option<EntrySnapshot>)
    ensures
        match r {
            Some(e) => entry_snap_at(p@, i as nat) == Some(e@),
            None => entry_snap_at(p@, i as nat) is None,
        },
        forall|ts: Seq<TaskSnap>, es: Seq<EntrySnap>|
            p@ == #[trigger] delete_payload(ts, es) && i < es.len() ==> entry_snap_at(p@, i as nat) == Some(es[i as int]),
{
    let id = string_at(p, make_field_ptr("entries", i, "id").as_str());
    proof {
        assert(elem_str_reads(p@, field_ptr("entries"@, i as nat, "id"@)));
    }
    let task_id = string_at(p, make_field_ptr("entries", i, "task_id").as_str());
    proof {
        assert(elem_str_reads(p@, field_ptr("entries"@, i as nat, "task_id"@)));
    }
    let start_ts = string_at(p, make_field_ptr("entries", i, "start_ts").as_str());
    proof {
        assert(elem_str_reads(p@, field_ptr("entries"@, i as nat, "start_ts"@)));
    }
    let end_ts = opt_string_at(p, make_field_ptr("entries", i, "end_ts").as_str());
    let source = string_at(p, make_field_ptr("entries", i, "source").as_str());
    proof {
        assert(elem_str_reads(p@, field_ptr("entries"@, i as nat, "source"@)));
    }
    let note = string_at(p, make_field_ptr("entries", i, "note").as_str());
    proof {
        assert(elem_str_reads(p@, field_ptr("entries"@, i as nat, "note"@)));
    }
    let created_at = string_at(p, make_field_ptr("entries", i, "created_at").as_str());
    proof {
        assert(elem_str_reads(p@, field_ptr("entries"@, i as nat, "created_at"@)));
    }
    let r = match (id, task_id, start_ts, end_ts, source, note, created_at) {
        (Some(id), Some(task_id), Some(start_ts), Some(end_ts), Some(source), Some(note), Some(created_at)) => Some(
            EntrySnapshot { id, task_id, start_ts, end_ts, source, note, created_at },
        ),
        _ => None,
    };
    proof {
        assert forall|ts: Seq<TaskSnap>, es: Seq<EntrySnap>|
            p@ == #[trigger] delete_payload(ts, es) && i < es.len() implies entry_snap_at(p@, i as nat) == Some(
            es[i as int],
        ) by {
            lemma_entry_reads(p@, i as nat, ts, es);
        }
    }
    r
}

// --- The plan ---------------------------------------------------------------------------

/// The per-task project steps of the map under top-level member `outer`:
/// `None` when there is no such object or a value is neither a string nor
/// `null`.
pub open spec fn project_steps(p: Seq<char>, outer: Seq<char>) -> Option<Seq<StepView>> {
    match json_keys_at(p, top_ptr(outer)) {
        None => None,
        Some(ks) => if forall|i: int|
            0 <= i < ks.len() ==> (#[trigger] opt_str_field(p, member_ptr(outer, ks[i]))) is Some {
            Some(
                Seq::new(
                    ks.len(),
                    |i: int| StepView::SetProject { id: ks[i], project: opt_str_field(p, member_ptr(outer, ks[i]))->0 },
                ),
            )
        } else {
            None
        },
    }
}

/// Every element of the `tasks` array decodes.
pub open spec fn tasks_ok(p: Seq<char>, n: nat) -> bool {
    forall|i: nat| i < n ==> (#[trigger] task_snap_at(p, i)) is Some
}

/// Every element of the `entries` array decodes.
pub open spec fn entries_ok(p: Seq<char>, m: nat) -> bool {
    forall|i: nat| i < m ==> (#[trigger] entry_snap_at(p, i)) is Some
}

/// Every element of the `task_ids` array is a string.
pub open spec fn ids_ok(p: Seq<char>, n: nat) -> bool {
    forall|i: nat| i < n ==> (#[trigger] json_string_at(p, elem_ptr("task_ids"@, i))) is Some
}

/// The status a stored status text stands for (unknown texts read as to do).
pub open spec fn status_from(t: Seq<char>) -> TaskStatus {
    if t == status_text(TaskStatus::Done) {
        TaskStatus::Done
    } else {
        TaskStatus::Todo
    }
}

/// What undoing an action of `kind` with payload `p` does, step by step:
/// - `create_task`: delete the task.
/// - `rename_task`, `set_notes`, `set_status`: put the old value back.
/// - `set_deadline`: put the old deadline back, or clear it when there was
///   none.
/// - `set_project`: give each task of the captured map its old project.
/// - `reparent`: put the task back under its old parent at its old
///   position, then restore the subtree's projects.
/// - `delete_task`: re-insert the snapshot's tasks (parents first), then
///   its time entries.
/// - `import_project`: delete the imported tasks, then the project.
/// A payload without the kind's shape, or an unknown kind, gives no step.
pub open spec fn plan_spec(kind: Seq<char>, p: Seq<char>) -> Seq<StepView> {
    let id = json_string_at(p, top_ptr("id"@));
    if kind == "create_task"@ {
        match id {
            Some(id) => seq![StepView::DeleteTask(id)],
            None => seq![],
        }
    } else if kind == "rename_task"@ {
        match (id, json_string_at(p, top_ptr("old_title"@))) {
            (Some(id), Some(t)) => seq![StepView::Rename { id, title: t }],
            _ => seq![],
        }
    } else if kind == "set_notes"@ {
        match (id, json_string_at(p, top_ptr("old_notes"@))) {
            (Some(id), Some(t)) => seq![StepView::SetNotes { id, notes: t }],
            _ => seq![],
        }
    } else if kind == "set_deadline"@ {
        match id {
            Some(id) => seq![StepView::SetDeadline { id, deadline: json_string_at(p, top_ptr("old_deadline"@)) }],
            None => seq![],
        }
    } else if kind == "set_status"@ {
        match (id, json_string_at(p, top_ptr("old_status"@))) {
            (Some(id), Some(t)) => seq![StepView::SetStatus { id, status: status_from(t) }],
            _ => seq![],
        }
    } else if kind == "set_project"@ {
        match project_steps(p, "old_project_ids"@) {
            Some(steps) => steps,
            None => seq![],
        }
    } else if kind == "reparent"@ {
        match (
            id,
            opt_str_field(p, top_ptr("old_parent_id"@)),
            whole_field(p, top_ptr("old_sort_order"@)),
            project_steps(p, "old_project_ids"@),
        ) {
            (Some(id), Some(parent), Some(sort_order), Some(steps)) => seq![
                StepView::Reparent { id, parent, sort_order },
            ] + steps,
            _ => seq![],
        }
    } else if kind == "delete_task"@ {
        match (json_len_at(p, top_ptr("tasks"@)), json_len_at(p, top_ptr("entries"@))) {
            (Some(n), Some(m)) => if tasks_ok(p, n) && entries_ok(p, m) {
                Seq::new(n, |i: int| StepView::RestoreTask(task_snap_at(p, i as nat)->0)) + Seq::new(
                    m,
                    |i: int| StepView::RestoreEntry(entry_snap_at(p, i as nat)->0),
                )
            } else {
                seq![]
            },
            _ => seq![],
        }
    } else if kind == "import_project"@ {
        match (json_string_at(p, top_ptr("project_id"@)), json_len_at(p, top_ptr("task_ids"@))) {
            (Some(pid), Some(n)) => if ids_ok(p, n) {
                Seq::new(n, |i: int| StepView::DeleteTask(json_string_at(p, elem_ptr("task_ids"@, i as nat))->0))
                    + seq![StepView::DeleteProject(pid)]
            } else {
                seq![]
            },
            _ => seq![],
        }
    } else {
        seq![]
    }
}

#[verifier::spinoff_prover]
fn project_steps_of(p: &str, outer: &str) -> (r: Option<Vec<RevertStep>>)
    ensures
        match r {
            Some(v) => project_steps(p@, outer@) == Some(step_views(v@)),
            None => project_steps(p@, outer@) is None,
        },
        projects_read(p@, outer@),
{
    let keys = match keys_at(p, make_top_ptr(outer).as_str()) {
        Some(ks) => ks,
        None => {
            proof {
                lemma_no_keys(p@, outer@);
            }
            return None;
        },
    };
    let ghost ks = keys@.map_values(|k: String| k@);
    proof {
        assert(keys_read(p@, outer@, ks));
    }
    let mut out: Vec<RevertStep> = Vec::new();
    let mut i: usize = 0;
    while i < keys.len()
        invariant
            i <= keys.len(),
            ks == keys@.map_values(|k: String| k@),
            json_keys_at(p@, top_ptr(outer@)) == Some(ks),
            keys_read(p@, outer@, ks),
            out.len() == i,
            forall|j: int| 0 <= j < i ==> (#[trigger] opt_str_field(p@, member_ptr(outer@, ks[j]))) is Some,
            forall|j: int| 0 <= j < i ==> #[trigger] nested_opt_reads(p@, member_ptr(outer@, ks[j])),
            forall|j: int|
                0 <= j < i ==> (#[trigger] out@[j])@ == (StepView::SetProject {
                    id: ks[j],
                    project: opt_str_field(p@, member_ptr(outer@, ks[j]))->0,
                }),
        decreases keys.len() - i,
    {
        let ptr = make_member_ptr(outer, keys[i].as_str());
        match opt_string_at(p, ptr.as_str()) {
            Some(project) => {
                out.push(RevertStep::SetProject { id: keys[i].clone(), project });
            },
            None => {
                proof {
                    lemma_key_unread(p@, outer@, ks, i as int);
                }
                return None;
            },
        }
        i += 1;
    }
    proof {
        assert(step_views(out@) =~= Seq::new(
            ks.len(),
            |j: int| StepView::SetProject { id: ks[j], project: opt_str_field(p@, member_ptr(outer@, ks[j]))->0 },
        ));
        lemma_keys_all_read(p@, outer@, ks);
    }
    Some(out)
}

/// What [`keys_at`] promises of the map that member `outer` holds, stated
/// of its keys `ks`.
pub open spec fn keys_read(p: Seq<char>, outer: Seq<char>, ks: Seq<Seq<char>>) -> bool {
    forall|ms: Seq<(Seq<char>, Seq<char>)>, m: int, pairs: Seq<(Seq<char>, Option<Seq<char>>)>|
        #![trigger jobject(ms), ms[m], jmap(pairs)]
        p == jobject(ms) && members_ok(ms) && 0 <= m < ms.len() && ms[m].0 == outer && ms[m].1 == jmap(pairs)
            && distinct_keys(pairs) ==> same_keys(ks, pairs)
}

/// With no keys read, no record of the expected shape was there.
proof fn lemma_no_keys(p: Seq<char>, outer: Seq<char>)
    requires
        json_keys_at(p, top_ptr(outer)) is None,
        forall|ms: Seq<(Seq<char>, Seq<char>)>, i: int, pairs: Seq<(Seq<char>, Option<Seq<char>>)>|
            #![trigger jobject(ms), ms[i], jmap(pairs)]
            p == jobject(ms) && members_ok(ms) && 0 <= i < ms.len() && ms[i].1 == jmap(pairs) && distinct_keys(pairs)
                && top_ptr(outer) == top_ptr(ms[i].0) ==> json_keys_at(p, top_ptr(outer)) is Some,
    ensures
        projects_read(p, outer),
{
}

/// A key whose project did not read back means no record of the expected
/// shape was there.
proof fn lemma_key_unread(p: Seq<char>, outer: Seq<char>, ks: Seq<Seq<char>>, i: int)
    requires
        0 <= i < ks.len(),
        keys_read(p, outer, ks),
        nested_opt_reads(p, member_ptr(outer, ks[i])),
        opt_str_field(p, member_ptr(outer, ks[i])) is None,
    ensures
        projects_read(p, outer),
{
    assert forall|ms: Seq<(Seq<char>, Seq<char>)>, m: int, pairs: Seq<(Seq<char>, Option<Seq<char>>)>|
        #![trigger jobject(ms), ms[m], jmap(pairs)]
        p == jobject(ms) && members_ok(ms) && 0 <= m < ms.len() && ms[m].0 == outer && ms[m].1 == jmap(pairs)
            && distinct_keys(pairs) implies false by {
        assert(same_keys(ks, pairs));
        let b = choose|b: int| 0 <= b < pairs.len() && #[trigger] ks[i] == pairs[b].0;
        assert(opt_str_field(p, member_ptr(ms[m].0, pairs[b].0)) == Some(pairs[b].1));
    }
}

/// Every key's project read back: the steps put every captured project
/// back.
#[verifier::spinoff_prover]
proof fn lemma_keys_all_read(p: Seq<char>, outer: Seq<char>, ks: Seq<Seq<char>>)
    requires
        json_keys_at(p, top_ptr(outer)) == Some(ks),
        keys_read(p, outer, ks),
        forall|j: int| 0 <= j < ks.len() ==> (#[trigger] opt_str_field(p, member_ptr(outer, ks[j]))) is Some,
        forall|j: int| 0 <= j < ks.len() ==> #[trigger] nested_opt_reads(p, member_ptr(outer, ks[j])),
    ensures
        projects_read(p, outer),
{
    let steps = Seq::new(
        ks.len(),
        |j: int| StepView::SetProject { id: ks[j], project: opt_str_field(p, member_ptr(outer, ks[j]))->0 },
    );
    assert(project_steps(p, outer) == Some(steps));
    assert forall|ms: Seq<(Seq<char>, Seq<char>)>, m: int, pairs: Seq<(Seq<char>, Option<Seq<char>>)>|
        #![trigger jobject(ms), ms[m], jmap(pairs)]
        p == jobject(ms) && members_ok(ms) && 0 <= m < ms.len() && ms[m].0 == outer && ms[m].1 == jmap(pairs)
            && distinct_keys(pairs) implies restores_projects(steps, pairs) by {
        assert(same_keys(ks, pairs));
        assert forall|a: int| 0 <= a < steps.len() implies exists|b: int|
            0 <= b < pairs.len() && #[trigger] steps[a] == (StepView::SetProject { id: pairs[b].0, project: pairs[b].1 }) by {
            let b = choose|b: int| 0 <= b < pairs.len() && #[trigger] ks[a] == pairs[b].0;
            assert(nested_opt_reads(p, member_ptr(outer, ks[a])));
            assert(opt_str_field(p, member_ptr(ms[m].0, pairs[b].0)) == Some(pairs[b].1));
            assert(steps[a] == (StepView::SetProject { id: pairs[b].0, project: pairs[b].1 }));
        }
        assert forall|b: int| 0 <= b < pairs.len() implies exists|a: int|
            0 <= a < steps.len() && steps[a] == (StepView::SetProject { id: (#[trigger] pairs[b]).0, project: pairs[b].1 }) by {
            let a = choose|a: int| 0 <= a < ks.len() && ks[a] == (#[trigger] pairs[b]).0;
            assert(nested_opt_reads(p, member_ptr(outer, ks[a])));
            assert(opt_str_field(p, member_ptr(ms[m].0, pairs[b].0)) == Some(pairs[b].1));
            assert(steps[a] == (StepView::SetProject { id: pairs[b].0, project: pairs[b].1 }));
        }
    }
}

/// [`plan_spec`]: the steps that undo an action of `kind` logged with
/// `payload`.
///
/// What the record builders write reads back: undoing a logged creation
/// deletes the created task; undoing a rename, a notes edit, a deadline
/// change or a status change puts back the value that the record kept;
/// undoing a move to another project gives every captured task its old
/// project back, once each; undoing a re-parenting puts the task back under
/// its old parent at its old position, then does the same; undoing a
/// deletion restores every snapshotted task (in the snapshot's order, root
/// first), then every snapshotted time entry; undoing an import deletes
/// every imported task, then the project.
pub fn revert_plan(kind: &str, payload: &str) -> (r: Vec<RevertStep>)
    ensures
        step_views(r@) == plan_spec(kind@, payload@),
        forall|id: Seq<char>|
            kind@ == "create_task"@ && payload@ == #[trigger] create_payload(id) ==> step_views(r@) == seq![
                StepView::DeleteTask(id),
            ],
        forall|id: Seq<char>, t: Seq<char>|
            kind@ == "rename_task"@ && payload@ == #[trigger] rename_payload(id, t) ==> step_views(r@) == seq![
                StepView::Rename { id, title: t },
            ],
        forall|id: Seq<char>, t: Seq<char>|
            kind@ == "set_notes"@ && payload@ == #[trigger] notes_payload(id, t) ==> step_views(r@) == seq![
                StepView::SetNotes { id, notes: t },
            ],
        forall|id: Seq<char>, d: Option<Seq<char>>|
            kind@ == "set_deadline"@ && payload@ == #[trigger] deadline_payload(id, d) ==> step_views(r@)
                == seq![StepView::SetDeadline { id, deadline: d }],
        forall|id: Seq<char>, st: TaskStatus|
            kind@ == "set_status"@ && payload@ == #[trigger] status_payload(id, st) ==> step_views(r@)
                == seq![StepView::SetStatus { id, status: st }],
        forall|id: Seq<char>, pairs: Seq<(Seq<char>, Option<Seq<char>>)>|
            kind@ == "set_project"@ && payload@ == #[trigger] project_payload(id, pairs) && distinct_keys(pairs)
                ==> restores_projects(step_views(r@), pairs),
        forall|id: Seq<char>, parent: Option<Seq<char>>, sort_order: i64, pairs: Seq<(Seq<char>, Option<Seq<char>>)>|
            kind@ == "reparent"@ && payload@ == #[trigger] reparent_payload(id, parent, sort_order, pairs)
                && distinct_keys(pairs) ==> step_views(r@).len() > 0 && step_views(r@)[0] == (StepView::Reparent {
                id,
                parent,
                sort_order,
            }) && restores_projects(step_views(r@).skip(1), pairs),
        forall|ts: Seq<TaskSnap>, es: Seq<EntrySnap>|
            kind@ == "delete_task"@ && payload@ == #[trigger] delete_payload(ts, es) ==> step_views(r@) == Seq::new(
                ts.len(),
                |k: int| StepView::RestoreTask(ts[k]),
            ) + Seq::new(es.len(), |k: int| StepView::RestoreEntry(es[k])),
        forall|pid: Seq<char>, ids: Seq<Seq<char>>|
            kind@ == "import_project"@ && payload@ == #[trigger] import_payload(pid, ids) ==> step_views(r@)
                == Seq::new(ids.len(), |k: int| StepView::DeleteTask(ids[k])) + seq![StepView::DeleteProject(pid)],
{
    let p = payload;
    let id = string_at(p, make_top_ptr("id").as_str());
    proof {
        assert(str_reads(p@, top_ptr("id"@)));
    }
    let mut out: Vec<RevertStep> = Vec::new();
    if crate::db::same_text(kind, "create_task") {
        if let Some(id) = id {
            out.push(RevertStep::DeleteTask(id));
        }
    } else if crate::db::same_text(kind, "rename_task") {
        let old = string_at(p, make_top_ptr("old_title").as_str());
        proof {
            assert(str_reads(p@, top_ptr("old_title"@)));
        }
        if let (Some(id), Some(title)) = (id, old) {
            out.push(RevertStep::Rename { id, title });
        }
    } else if crate::db::same_text(kind, "set_notes") {
        let old = string_at(p, make_top_ptr("old_notes").as_str());
        proof {
            assert(str_reads(p@, top_ptr("old_notes"@)));
        }
        if let (Some(id), Some(notes)) = (id, old) {
            out.push(RevertStep::SetNotes { id, notes });
        }
    } else if crate::db::same_text(kind, "set_deadline") {
        let old = string_at(p, make_top_ptr("old_deadline").as_str());
        proof {
            assert(str_reads(p@, top_ptr("old_deadline"@)));
        }
        if let Some(id) = id {
            out.push(RevertStep::SetDeadline { id, deadline: old });
        }
    } else if crate::db::same_text(kind, "set_status") {
        let old = string_at(p, make_top_ptr("old_status").as_str());
        proof {
            assert(str_reads(p@, top_ptr("old_status"@)));
        }
        if let (Some(id), Some(old)) = (id, old) {
            out.push(RevertStep::SetStatus { id, status: TaskStatus::from_db(old.as_str()) });
        }
    } else if crate::db::same_text(kind, "set_project") {
        if let Some(steps) = project_steps_of(p, "old_project_ids") {
            out = steps;
        }
    } else if crate::db::same_text(kind, "reparent") {
        let parent = opt_string_at(p, make_top_ptr("old_parent_id").as_str());
        let sort = whole_at(p, make_top_ptr("old_sort_order").as_str());
        let steps = project_steps_of(p, "old_project_ids");
        if let (Some(id), Some(parent), Some(sort_order), Some(steps)) = (id, parent, sort, steps) {
            out.push(RevertStep::Reparent { id, parent, sort_order });
            let mut steps = steps;
            let ghost head = out@;
            out.append(&mut steps);
            proof {
                assert(step_views(out@) =~= step_views(head) + step_views(out@.skip(1)));
            }
        }
    } else if crate::db::same_text(kind, "delete_task") {
        out = delete_steps(p);
    } else if crate::db::same_text(kind, "import_project") {
        out = import_steps(p);
    }
    proof {
        assert(step_views(out@) =~= plan_spec(kind@, payload@));
        lemma_kinds_differ();
        lemma_plan_reads(kind@, payload@);
    }
    out
}

#[verifier::spinoff_prover]
fn delete_steps(p: &str) -> (r: Vec<RevertStep>)
    ensures
        step_views(r@) == (match (json_len_at(p@, top_ptr("tasks"@)), json_len_at(p@, top_ptr("entries"@))) {
            (Some(n), Some(m)) => if tasks_ok(p@, n) && entries_ok(p@, m) {
                Seq::new(n, |i: int| StepView::RestoreTask(task_snap_at(p@, i as nat)->0)) + Seq::new(
                    m,
                    |i: int| StepView::RestoreEntry(entry_snap_at(p@, i as nat)->0),
                )
            } else {
                seq![]
            },
            _ => seq![],
        }),
        forall|ts: Seq<TaskSnap>, es: Seq<EntrySnap>|
            p@ == #[trigger] delete_payload(ts, es) ==> step_views(r@) == Seq::new(
                ts.len(),
                |k: int| StepView::RestoreTask(ts[k]),
            ) + Seq::new(es.len(), |k: int| StepView::RestoreEntry(es[k])),
{
    let n_read = len_at(p, make_top_ptr("tasks").as_str());
    let m_read = len_at(p, make_top_ptr("entries").as_str());
    proof {
        assert(len_reads(p@, top_ptr("tasks"@)));
        assert(len_reads(p@, top_ptr("entries"@)));
        lemma_delete_lens(p@);
    }
    let (n, m) = match (n_read, m_read) {
        (Some(n), Some(m)) => (n, m),
        _ => return Vec::new(),
    };
    let mut out: Vec<RevertStep> = Vec::new();
    let mut i: usize = 0;
    while i < n
        invariant
            i <= n,
            out.len() == i,
            json_len_at(p@, top_ptr("tasks"@)) == Some(n as nat),
            json_len_at(p@, top_ptr("entries"@)) == Some(m as nat),
            deletes_read(p@),
            forall|j: nat| j < i ==> (#[trigger] task_snap_at(p@, j)) is Some,
            forall|j: int| 0 <= j < i ==> (#[trigger] out@[j])@ == StepView::RestoreTask(task_snap_at(p@, j as nat)->0),
            tasks_read_upto(p@, i as nat),
        decreases n - i,
    {
        match task_snapshot_at(p, i) {
            Some(t) => out.push(RevertStep::RestoreTask(t)),
            None => {
                proof {
                    assert(!tasks_ok(p@, n as nat));
                    lemma_unread_task(p@, i as nat);
                }
                return Vec::new();
            },
        }
        proof {
            lemma_tasks_read_step(p@, i as nat);
        }
        i += 1;
    }
    let mut k: usize = 0;
    while k < m
        invariant
            k <= m,
            out.len() == n + k,
            json_len_at(p@, top_ptr("tasks"@)) == Some(n as nat),
            json_len_at(p@, top_ptr("entries"@)) == Some(m as nat),
            deletes_read(p@),
            tasks_ok(p@, n as nat),
            forall|j: nat| j < k ==> (#[trigger] entry_snap_at(p@, j)) is Some,
            forall|j: int| 0 <= j < n ==> (#[trigger] out@[j])@ == StepView::RestoreTask(task_snap_at(p@, j as nat)->0),
            forall|j: int| n <= j < n + k ==> (#[trigger] out@[j])@ == StepView::RestoreEntry(entry_snap_at(p@, (j - n) as nat)->0),
            tasks_read_upto(p@, n as nat),
            entries_read_upto(p@, k as nat),
        decreases m - k,
    {
        match entry_snapshot_at(p, k) {
            Some(e) => out.push(RevertStep::RestoreEntry(e)),
            None => {
                proof {
                    assert(!entries_ok(p@, m as nat));
                    lemma_unread_entry(p@, k as nat);
                }
                return Vec::new();
            },
        }
        proof {
            lemma_entries_read_step(p@, k as nat);
        }
        k += 1;
    }
    proof {
        assert(tasks_ok(p@, n as nat));
        assert(entries_ok(p@, m as nat));
        assert(step_views(out@) =~= Seq::new(n as nat, |i: int| StepView::RestoreTask(task_snap_at(p@, i as nat)->0)) + Seq::new(
            m as nat,
            |i: int| StepView::RestoreEntry(entry_snap_at(p@, i as nat)->0),
        ));
        lemma_delete_plan(p@, n as nat, m as nat, step_views(out@));
    }
    out
}

fn import_steps(p: &str) -> (r: Vec<RevertStep>)
    ensures
        step_views(r@) == (match (json_string_at(p@, top_ptr("project_id"@)), json_len_at(p@, top_ptr("task_ids"@))) {
            (Some(pid), Some(n)) => if ids_ok(p@, n) {
                Seq::new(n, |i: int| StepView::DeleteTask(json_string_at(p@, elem_ptr("task_ids"@, i as nat))->0))
                    + seq![StepView::DeleteProject(pid)]
            } else {
                seq![]
            },
            _ => seq![],
        }),
        forall|pid: Seq<char>, ids: Seq<Seq<char>>|
            p@ == #[trigger] import_payload(pid, ids) ==> step_views(r@) == Seq::new(
                ids.len(),
                |k: int| StepView::DeleteTask(ids[k]),
            ) + seq![StepView::DeleteProject(pid)],
{
    let pid = match string_at(p, make_top_ptr("project_id").as_str()) {
        Some(x) => x,
        None => {
            proof {
                assert forall|pid: Seq<char>, ids: Seq<Seq<char>>| p@ == #[trigger] import_payload(pid, ids) implies false by {
                    let ms = lemma_import_members(pid, ids);
                    assert(ms[0].1 == jopt(Some(pid)));
                }
            }
            return Vec::new();
        },
    };
    let n = match len_at(p, make_top_ptr("task_ids").as_str()) {
        Some(n) => n,
        None => {
            proof {
                assert forall|pid: Seq<char>, ids: Seq<Seq<char>>| p@ == #[trigger] import_payload(pid, ids) implies false by {
                    let ms = lemma_import_members(pid, ids);
                    assert(ms[1].1 == jstrings(ids));
                }
            }
            return Vec::new();
        },
    };
    proof {
        assert forall|pid2: Seq<char>, ids: Seq<Seq<char>>| p@ == #[trigger] import_payload(pid2, ids) implies pid2
            == pid@ && ids.len() == n by {
            let ms = lemma_import_members(pid2, ids);
            assert(ms[0].1 == jopt(Some(pid2)));
            assert(ms[1].1 == jstrings(ids));
        }
    }
    let mut out: Vec<RevertStep> = Vec::new();
    let mut i: usize = 0;
    while i < n
        invariant
            i <= n,
            out.len() == i,
            json_string_at(p@, top_ptr("project_id"@)) == Some(pid@),
            json_len_at(p@, top_ptr("task_ids"@)) == Some(n as nat),
            forall|pid2: Seq<char>, ids: Seq<Seq<char>>|
                p@ == #[trigger] import_payload(pid2, ids) ==> pid2 == pid@ && ids.len() == n && forall|j: int|
                    0 <= j < i ==> (#[trigger] out@[j])@ == StepView::DeleteTask(ids[j]),
            forall|j: nat| j < i ==> (#[trigger] json_string_at(p@, elem_ptr("task_ids"@, j))) is Some,
            forall|j: int|
                0 <= j < i ==> (#[trigger] out@[j])@ == StepView::DeleteTask(
                    json_string_at(p@, elem_ptr("task_ids"@, j as nat))->0,
                ),
        decreases n - i,
    {
        let ptr = make_elem_ptr("task_ids", i);
        let got = string_at(p, ptr.as_str());
        proof {
            assert forall|pid2: Seq<char>, ids: Seq<Seq<char>>| p@ == #[trigger] import_payload(pid2, ids) implies opt_view(
                got,
            ) == Some(ids[i as int]) by {
                let ms = lemma_import_members(pid2, ids);
                assert(ms[1].1 == jstrings(ids));
                assert(ms[1].0 == "task_ids"@);
            }
        }
        match got {
            Some(id) => out.push(RevertStep::DeleteTask(id)),
            None => {
                proof {
                    assert(!ids_ok(p@, n as nat));
                }
                return Vec::new();
            },
        }
        i += 1;
    }
    let ghost body = out@;
    out.push(RevertStep::DeleteProject(pid));
    proof {
        assert forall|pid2: Seq<char>, ids: Seq<Seq<char>>| p@ == #[trigger] import_payload(pid2, ids) implies step_views(
            out@,
        ) == Seq::new(ids.len(), |k: int| StepView::DeleteTask(ids[k])) + seq![StepView::DeleteProject(pid2)] by {
            assert(step_views(out@) =~= Seq::new(ids.len(), |k: int| StepView::DeleteTask(ids[k])) + seq![
                StepView::DeleteProject(pid2),
            ]);
        }
        assert(ids_ok(p@, n as nat));
        assert(step_views(out@) =~= Seq::new(
            n as nat,
            |i: int| StepView::DeleteTask(json_string_at(p@, elem_ptr("task_ids"@, i as nat))->0),
        ) + seq![StepView::DeleteProject(pid@)]);
    }
    out
}

// --- Writing records ---------------------------------------------------------------------

/// A row for the log: its kind, the line shown to the user, and the payload
/// that undoing it reads.
#[derive(Debug, Clone, PartialEq)]
pub struct ActionRecord {
    pub kind: String,
    pub summary: String,
    pub payload: String,
}

/// The texts of items joined by commas.
pub open spec fn join_commas(items: Seq<Seq<char>>) -> Seq<char>
    decreases items.len(),
{
    if items.len() == 0 {
        seq![]
    } else if items.len() == 1 {
        items[0]
    } else {
        join_commas(items.drop_last()) + seq![','] + items.last()
    }
}

/// A JSON array of the given element texts.
pub open spec fn jarray(items: Seq<Seq<char>>) -> Seq<char> {
    seq!['['] + join_commas(items) + seq![']']
}

/// A JSON string, or `null`.
pub open spec fn jopt(o: Option<Seq<char>>) -> Seq<char> {
    match o {
        Some(s) => serde_str_spec(s),
        None => "null"@,
    }
}

/// A JSON integer, or `null`.
pub open spec fn jopt_int(o: Option<i64>) -> Seq<char> {
    match o {
        Some(x) => dec_int(x as int),
        None => "null"@,
    }
}

/// A captured project map as `(task id, project id)` texts.
pub open spec fn pairs_view(v: Seq<(String, Option<String>)>) -> Seq<(Seq<char>, Option<Seq<char>>)> {
    v.map_values(|p: (String, Option<String>)| (p.0@, opt_view(p.1)))
}

/// A captured project map as a JSON object, in the given order.
pub open spec fn jmap(pairs: Seq<(Seq<char>, Option<Seq<char>>)>) -> Seq<char> {
    seq!['{'] + join_commas(
        Seq::new(pairs.len(), |i: int| serde_str_spec(pairs[i].0) + seq![':'] + jopt(pairs[i].1)),
    ) + seq!['}']
}

/// The first half of a task snapshot's JSON object: the identity and
/// placement fields.
pub open spec fn task_json_head(t: TaskSnap) -> Seq<char> {
    "{\"id\":"@ + serde_str_spec(t.id) + ",\"parent_task_id\":"@ + jopt(t.parent_task_id)
        + ",\"project_id\":"@ + jopt(t.project_id) + ",\"title\":"@ + serde_str_spec(t.title)
        + ",\"notes\":"@ + serde_str_spec(t.notes) + ",\"deadline\":"@ + jopt(t.deadline)
}

/// The second half of a task snapshot's JSON object.
pub open spec fn task_json_tail(t: TaskSnap) -> Seq<char> {
    ",\"tracked\":"@ + (if t.track { "true"@ } else { "false"@ }) + ",\"status\":"@
        + serde_str_spec(t.status) + ",\"sort_order\":"@ + dec_int(t.sort_order as int)
        + ",\"created_at\":"@ + serde_str_spec(t.created_at) + ",\"initial_time_seconds\":"@
        + jopt_int(t.initial_time_seconds) + ",\"completed_at\":"@ + jopt(t.completed_at) + "}"@
}

/// A task snapshot as a JSON object.
pub open spec fn task_json(t: TaskSnap) -> Seq<char> {
    task_json_head(t) + task_json_tail(t)
}

/// An entry snapshot as a JSON object.
pub open spec fn entry_json(e: EntrySnap) -> Seq<char> {
    "{\"id\":"@ + serde_str_spec(e.id) + ",\"task_id\":"@ + serde_str_spec(e.task_id)
        + ",\"start_ts\":"@ + serde_str_spec(e.start_ts) + ",\"end_ts\":"@ + jopt(e.end_ts)
        + ",\"source\":"@ + serde_str_spec(e.source) + ",\"note\":"@ + serde_str_spec(e.note)
        + ",\"created_at\":"@ + serde_str_spec(e.created_at) + "}"@
}

/// `"` + `s` + `"`.
pub open spec fn quote(s: Seq<char>) -> Seq<char> {
    seq!['"'] + s + seq!['"']
}

fn push_jstr(out: &mut Vec<char>, s: &str)
    ensures
        final(out)@ == old(out)@ + serde_str_spec(s@),
{
    let v = chars_of(s);
    push_serde_str(out, v.as_slice());
}

fn push_jopt(out: &mut Vec<char>, o: &Option<String>)
    ensures
        final(out)@ == old(out)@ + jopt(opt_view(*o)),
{
    match o {
        Some(s) => push_jstr(out, s.as_str()),
        None => push_str(out, "null"),
    }
}

fn push_jopt_int(out: &mut Vec<char>, o: Option<i64>)
    ensures
        final(out)@ == old(out)@ + jopt_int(o),
{
    match o {
        Some(x) => push_dec_i64(out, x),
        None => push_str(out, "null"),
    }
}

fn push_quoted(out: &mut Vec<char>, s: &str)
    ensures
        final(out)@ == old(out)@ + quote(s@),
{
    let ghost start = out@;
    out.push('"');
    push_str(out, s);
    out.push('"');
    proof {
        assert(out@ =~= start + quote(s@));
    }
}

proof fn lemma_join_step(items: Seq<Seq<char>>, i: int)
    requires
        0 < i < items.len(),
    ensures
        join_commas(items.take(i + 1)) == join_commas(items.take(i)) + seq![','] + items[i],
{
    assert(items.take(i + 1).drop_last() =~= items.take(i));
}

fn push_jmap(out: &mut Vec<char>, pairs: &Vec<(String, Option<String>)>)
    ensures
        final(out)@ == old(out)@ + jmap(pairs_view(pairs@)),
{
    let ghost start = out@;
    let ghost pv = pairs_view(pairs@);
    let ghost items = Seq::new(pv.len(), |i: int| serde_str_spec(pv[i].0) + seq![':'] + jopt(pv[i].1));
    out.push('{');
    let mut i: usize = 0;
    while i < pairs.len()
        invariant
            i <= pairs.len(),
            pv == pairs_view(pairs@),
            items == Seq::new(pv.len(), |i: int| serde_str_spec(pv[i].0) + seq![':'] + jopt(pv[i].1)),
            out@ == start + seq!['{'] + join_commas(items.take(i as int)),
        decreases pairs.len() - i,
    {
        let ghost before = out@;
        if i > 0 {
            out.push(',');
        }
        push_jstr(out, pairs[i].0.as_str());
        out.push(':');
        push_jopt(out, &pairs[i].1);
        proof {
            if i > 0 {
                lemma_join_step(items, i as int);
            } else {
                assert(items.take(1) =~= seq![items[0]]);
            }
            assert(out@ =~= start + seq!['{'] + join_commas(items.take(i + 1)));
        }
        i += 1;
    }
    out.push('}');
    proof {
        assert(items.take(i as int) =~= items);
        assert(out@ =~= start + jmap(pv));
    }
}

#[verifier::spinoff_prover]
fn push_task_json_head(out: &mut Vec<char>, t: &TaskSnapshot)
    ensures
        final(out)@ == old(out)@ + task_json_head(t@),
{
    let ghost start = out@;
    let ghost tv = t@;
    push_str(out, "{\"id\":");
    push_jstr(out, t.id.as_str());
    let ghost h2 = "{\"id\":"@ + serde_str_spec(tv.id);
    assert(out@ =~= start + h2);
    push_str(out, ",\"parent_task_id\":");
    push_jopt(out, &t.parent_task_id);
    let ghost h4 = h2 + ",\"parent_task_id\":"@ + jopt(tv.parent_task_id);
    assert(out@ =~= start + h4);
    push_str(out, ",\"project_id\":");
    push_jopt(out, &t.project_id);
    let ghost h6 = h4 + ",\"project_id\":"@ + jopt(tv.project_id);
    assert(out@ =~= start + h6);
    push_str(out, ",\"title\":");
    push_jstr(out, t.title.as_str());
    let ghost h8 = h6 + ",\"title\":"@ + serde_str_spec(tv.title);
    assert(out@ =~= start + h8);
    push_str(out, ",\"notes\":");
    push_jstr(out, t.notes.as_str());
    let ghost h10 = h8 + ",\"notes\":"@ + serde_str_spec(tv.notes);
    assert(out@ =~= start + h10);
    push_str(out, ",\"deadline\":");
    push_jopt(out, &t.deadline);
    let ghost h12 = h10 + ",\"deadline\":"@ + jopt(tv.deadline);
    assert(out@ =~= start + h12);
}

fn push_task_json_tail(out: &mut Vec<char>, t: &TaskSnapshot)
    ensures
        final(out)@ == old(out)@ + task_json_tail(t@),
{
    let ghost start = out@;
    push_str(out, ",\"tracked\":");
    push_str(out, if t.track { "true" } else { "false" });
    push_str(out, ",\"status\":");
    push_jstr(out, t.status.as_str());
    push_str(out, ",\"sort_order\":");
    push_dec_i64(out, t.sort_order);
    push_str(out, ",\"created_at\":");
    push_jstr(out, t.created_at.as_str());
    push_str(out, ",\"initial_time_seconds\":");
    push_jopt_int(out, t.initial_time_seconds);
    push_str(out, ",\"completed_at\":");
    push_jopt(out, &t.completed_at);
    push_str(out, "}");
    proof {
        assert(out@ =~= start + task_json_tail(t@));
    }
}

fn push_task_json(out: &mut Vec<char>, t: &TaskSnapshot)
    ensures
        final(out)@ == old(out)@ + task_json(t@),
{
    let ghost start = out@;
    push_task_json_head(out, t);
    push_task_json_tail(out, t);
    proof {
        assert(out@ =~= start + task_json(t@));
    }
}

fn push_entry_json(out: &mut Vec<char>, e: &EntrySnapshot)
    ensures
        final(out)@ == old(out)@ + entry_json(e@),
{
    let ghost start = out@;
    push_str(out, "{\"id\":");
    push_jstr(out, e.id.as_str());
    push_str(out, ",\"task_id\":");
    push_jstr(out, e.task_id.as_str());
    push_str(out, ",\"start_ts\":");
    push_jstr(out, e.start_ts.as_str());
    push_str(out, ",\"end_ts\":");
    push_jopt(out, &e.end_ts);
    push_str(out, ",\"source\":");
    push_jstr(out, e.source.as_str());
    push_str(out, ",\"note\":");
    push_jstr(out, e.note.as_str());
    push_str(out, ",\"created_at\":");
    push_jstr(out, e.created_at.as_str());
    push_str(out, "}");
    proof {
        assert(out@ =~= start + entry_json(e@));
    }
}

fn push_tasks_json(out: &mut Vec<char>, ts: &Vec<TaskSnapshot>)
    ensures
        final(out)@ == old(out)@ + jarray(Seq::new(ts.len() as nat, |i: int| task_json(ts@[i]@))),
{
    let ghost start = out@;
    let ghost items = Seq::new(ts.len() as nat, |i: int| task_json(ts@[i]@));
    out.push('[');
    let mut i: usize = 0;
    while i < ts.len()
        invariant
            i <= ts.len(),
            items == Seq::new(ts.len() as nat, |i: int| task_json(ts@[i]@)),
            out@ == start + seq!['['] + join_commas(items.take(i as int)),
        decreases ts.len() - i,
    {
        if i > 0 {
            out.push(',');
        }
        push_task_json(out, &ts[i]);
        proof {
            if i > 0 {
                lemma_join_step(items, i as int);
            } else {
                assert(items.take(1) =~= seq![items[0]]);
            }
            assert(out@ =~= start + seq!['['] + join_commas(items.take(i + 1)));
        }
        i += 1;
    }
    out.push(']');
    proof {
        assert(items.take(i as int) =~= items);
        assert(out@ =~= start + jarray(items));
    }
}

fn push_entries_json(out: &mut Vec<char>, es: &Vec<EntrySnapshot>)
    ensures
        final(out)@ == old(out)@ + jarray(Seq::new(es.len() as nat, |i: int| entry_json(es@[i]@))),
{
    let ghost start = out@;
    let ghost items = Seq::new(es.len() as nat, |i: int| entry_json(es@[i]@));
    out.push('[');
    let mut i: usize = 0;
    while i < es.len()
        invariant
            i <= es.len(),
            items == Seq::new(es.len() as nat, |i: int| entry_json(es@[i]@)),
            out@ == start + seq!['['] + join_commas(items.take(i as int)),
        decreases es.len() - i,
    {
        if i > 0 {
            out.push(',');
        }
        push_entry_json(out, &es[i]);
        proof {
            if i > 0 {
                lemma_join_step(items, i as int);
            } else {
                assert(items.take(1) =~= seq![items[0]]);
            }
            assert(out@ =~= start + seq!['['] + join_commas(items.take(i + 1)));
        }
        i += 1;
    }
    out.push(']');
    proof {
        assert(items.take(i as int) =~= items);
        assert(out@ =~= start + jarray(items));
    }
}

fn push_ids_json(out: &mut Vec<char>, ids: &Vec<String>)
    ensures
        final(out)@ == old(out)@ + jarray(Seq::new(ids.len() as nat, |i: int| serde_str_spec(ids@[i]@))),
{
    let ghost start = out@;
    let ghost items = Seq::new(ids.len() as nat, |i: int| serde_str_spec(ids@[i]@));
    out.push('[');
    let mut i: usize = 0;
    while i < ids.len()
        invariant
            i <= ids.len(),
            items == Seq::new(ids.len() as nat, |i: int| serde_str_spec(ids@[i]@)),
            out@ == start + seq!['['] + join_commas(items.take(i as int)),
        decreases ids.len() - i,
    {
        if i > 0 {
            out.push(',');
        }
        push_jstr(out, ids[i].as_str());
        proof {
            if i > 0 {
                lemma_join_step(items, i as int);
            } else {
                assert(items.take(1) =~= seq![items[0]]);
            }
            assert(out@ =~= start + seq!['['] + join_commas(items.take(i + 1)));
        }
        i += 1;
    }
    out.push(']');
    proof {
        assert(items.take(i as int) =~= items);
        assert(out@ =~= start + jarray(items));
    }
}

/// The payload of a deletion: the snapshot of the subtree's tasks (root
/// first) and of their time entries.
pub open spec fn delete_payload(tasks: Seq<TaskSnap>, entries: Seq<EntrySnap>) -> Seq<char> {
    "{\"entries\":"@ + jarray(Seq::new(entries.len(), |i: int| entry_json(entries[i]))) + ",\"tasks\":"@ + jarray(
        Seq::new(tasks.len(), |i: int| task_json(tasks[i])),
    ) + "}"@
}

/// The payload of a bulk import: the new project and every imported task.
pub open spec fn import_payload(project_id: Seq<char>, task_ids: Seq<Seq<char>>) -> Seq<char> {
    "{\"project_id\":"@ + serde_str_spec(project_id) + ",\"task_ids\":"@ + jstrings(task_ids) + "}"@
}

/// The payload of a task's creation.
pub open spec fn create_payload(id: Seq<char>) -> Seq<char> {
    "{\"id\":"@ + serde_str_spec(id) + "}"@
}

/// The payload of a rename: the task and its old title.
pub open spec fn rename_payload(id: Seq<char>, old_title: Seq<char>) -> Seq<char> {
    "{\"id\":"@ + serde_str_spec(id) + ",\"old_title\":"@ + serde_str_spec(old_title) + "}"@
}

/// The payload of a notes edit: the task and its old notes.
pub open spec fn notes_payload(id: Seq<char>, old_notes: Seq<char>) -> Seq<char> {
    "{\"id\":"@ + serde_str_spec(id) + ",\"old_notes\":"@ + serde_str_spec(old_notes) + "}"@
}

/// The payload of a deadline change: the task and its old deadline, or
/// `null`.
pub open spec fn deadline_payload(id: Seq<char>, old_deadline: Option<Seq<char>>) -> Seq<char> {
    "{\"id\":"@ + serde_str_spec(id) + ",\"old_deadline\":"@ + jopt(old_deadline) + "}"@
}

/// The payload of a status change: the task and its old status.
pub open spec fn status_payload(id: Seq<char>, old_status: TaskStatus) -> Seq<char> {
    "{\"id\":"@ + serde_str_spec(id) + ",\"old_status\":"@ + serde_str_spec(status_text(old_status)) + "}"@
}

/// The payload of a move to another project: the task and every subtree
/// task's old project.
pub open spec fn project_payload(id: Seq<char>, old_project_ids: Seq<(Seq<char>, Option<Seq<char>>)>) -> Seq<char> {
    "{\"id\":"@ + serde_str_spec(id) + ",\"old_project_ids\":"@ + jmap(old_project_ids) + "}"@
}

/// The payload of a re-parenting: the task, its old parent and position,
/// and every subtree task's old project.
pub open spec fn reparent_payload(
    id: Seq<char>,
    old_parent_id: Option<Seq<char>>,
    old_sort_order: i64,
    old_project_ids: Seq<(Seq<char>, Option<Seq<char>>)>,
) -> Seq<char> {
    "{\"id\":"@ + serde_str_spec(id) + ",\"old_parent_id\":"@ + jopt(old_parent_id) + ",\"old_sort_order\":"@
        + dec_int(old_sort_order as int) + ",\"old_project_ids\":"@ + jmap(old_project_ids) + "}"@
}

fn record(kind: &str, summary: Vec<char>, payload: Vec<char>) -> (r: ActionRecord)
    ensures
        r.kind@ == kind@,
        r.summary@ == summary@,
        r.payload@ == payload@,
{
    ActionRecord {
        kind: kind.to_owned(),
        summary: string_of(summary.as_slice()),
        payload: string_of(payload.as_slice()),
    }
}

/// The record of creating a task: `{"id":..}`, undone by deleting it.
pub fn create_record(task_id: &str, title: &str) -> (r: ActionRecord)
    ensures
        r.kind@ == "create_task"@,
        r.summary@ == "Created task "@ + quote(title@),
        r.payload@ == create_payload(task_id@),
{
    let mut summary: Vec<char> = Vec::new();
    push_str(&mut summary, "Created task ");
    push_quoted(&mut summary, title);
    let mut payload: Vec<char> = Vec::new();
    push_str(&mut payload, "{\"id\":");
    push_jstr(&mut payload, task_id);
    push_str(&mut payload, "}");
    record("create_task", summary, payload)
}

/// The record of renaming a task, keeping the old title.
pub fn rename_record(task_id: &str, old_title: &str, new_title: &str) -> (r: ActionRecord)
    ensures
        r.kind@ == "rename_task"@,
        r.summary@ == "Renamed "@ + quote(old_title@) + " to "@ + quote(new_title@),
        r.payload@ == rename_payload(task_id@, old_title@),
{
    let mut summary: Vec<char> = Vec::new();
    push_str(&mut summary, "Renamed ");
    push_quoted(&mut summary, old_title);
    push_str(&mut summary, " to ");
    push_quoted(&mut summary, new_title);
    let mut payload: Vec<char> = Vec::new();
    push_str(&mut payload, "{\"id\":");
    push_jstr(&mut payload, task_id);
    push_str(&mut payload, ",\"old_title\":");
    push_jstr(&mut payload, old_title);
    push_str(&mut payload, "}");
    record("rename_task", summary, payload)
}

/// The record of editing a task's notes, keeping the old notes.
pub fn notes_record(task_id: &str, title: &str, old_notes: &str) -> (r: ActionRecord)
    ensures
        r.kind@ == "set_notes"@,
        r.summary@ == "Edited notes on "@ + quote(title@),
        r.payload@ == notes_payload(task_id@, old_notes@),
{
    let mut summary: Vec<char> = Vec::new();
    push_str(&mut summary, "Edited notes on ");
    push_quoted(&mut summary, title);
    let mut payload: Vec<char> = Vec::new();
    push_str(&mut payload, "{\"id\":");
    push_jstr(&mut payload, task_id);
    push_str(&mut payload, ",\"old_notes\":");
    push_jstr(&mut payload, old_notes);
    push_str(&mut payload, "}");
    record("set_notes", summary, payload)
}

/// The record of setting or clearing a deadline, keeping the old one.
pub fn deadline_record(task_id: &str, title: &str, old_deadline: Option<&str>, new_deadline: Option<&str>) -> (r: ActionRecord)
    ensures
        r.kind@ == "set_deadline"@,
        r.summary@ == (match new_deadline {
            Some(d) => "Set deadline on "@ + quote(title@) + " to "@ + d@,
            None => "Cleared deadline on "@ + quote(title@),
        }),
        r.payload@ == deadline_payload(
            task_id@,
            match old_deadline {
                Some(d) => Some(d@),
                None => None,
            },
        ),
{
    let mut summary: Vec<char> = Vec::new();
    match new_deadline {
        Some(d) => {
            push_str(&mut summary, "Set deadline on ");
            push_quoted(&mut summary, title);
            push_str(&mut summary, " to ");
            push_str(&mut summary, d);
        },
        None => {
            push_str(&mut summary, "Cleared deadline on ");
            push_quoted(&mut summary, title);
        },
    }
    let mut payload: Vec<char> = Vec::new();
    push_str(&mut payload, "{\"id\":");
    push_jstr(&mut payload, task_id);
    push_str(&mut payload, ",\"old_deadline\":");
    match old_deadline {
        Some(d) => push_jstr(&mut payload, d),
        None => push_str(&mut payload, "null"),
    }
    push_str(&mut payload, "}");
    record("set_deadline", summary, payload)
}

/// The record of marking a task done or not done, keeping the old status.
pub fn status_record(task_id: &str, title: &str, old_status: TaskStatus, done: bool) -> (r: ActionRecord)
    ensures
        r.kind@ == "set_status"@,
        r.summary@ == "Marked "@ + quote(title@) + (if done { " done"@ } else { " not done"@ }),
        r.payload@ == status_payload(task_id@, old_status),
{
    let mut summary: Vec<char> = Vec::new();
    push_str(&mut summary, "Marked ");
    push_quoted(&mut summary, title);
    push_str(&mut summary, if done { " done" } else { " not done" });
    let mut payload: Vec<char> = Vec::new();
    push_str(&mut payload, "{\"id\":");
    push_jstr(&mut payload, task_id);
    push_str(&mut payload, ",\"old_status\":");
    push_jstr(&mut payload, old_status.as_str());
    push_str(&mut payload, "}");
    record("set_status", summary, payload)
}

/// The record of moving a task (and its subtree) to a project, keeping
/// every moved task's old project.
pub fn project_record(
    task_id: &str,
    title: &str,
    old_project_ids: &Vec<(String, Option<String>)>,
    new_project_name: &str,
) -> (r: ActionRecord)
    ensures
        r.kind@ == "set_project"@,
        r.summary@ == (if new_project_name@.len() == 0 {
            "Moved "@ + quote(title@) + " to Unfiled"@
        } else {
            "Moved "@ + quote(title@) + " to project "@ + quote(new_project_name@)
        }),
        r.payload@ == project_payload(task_id@, pairs_view(old_project_ids@)),
{
    let mut summary: Vec<char> = Vec::new();
    push_str(&mut summary, "Moved ");
    push_quoted(&mut summary, title);
    if new_project_name.unicode_len() == 0 {
        push_str(&mut summary, " to Unfiled");
    } else {
        push_str(&mut summary, " to project ");
        push_quoted(&mut summary, new_project_name);
    }
    let mut payload: Vec<char> = Vec::new();
    push_str(&mut payload, "{\"id\":");
    push_jstr(&mut payload, task_id);
    push_str(&mut payload, ",\"old_project_ids\":");
    push_jmap(&mut payload, old_project_ids);
    push_str(&mut payload, "}");
    record("set_project", summary, payload)
}

/// The record of re-parenting a task, keeping its old parent and position
/// and every subtree task's old project.
pub fn reparent_record(
    task_id: &str,
    title: &str,
    old_parent_id: Option<&str>,
    old_sort_order: i64,
    old_project_ids: &Vec<(String, Option<String>)>,
    new_parent_title: &str,
) -> (r: ActionRecord)
    ensures
        r.kind@ == "reparent"@,
        r.summary@ == "Moved "@ + quote(title@) + " under "@ + quote(new_parent_title@),
        r.payload@ == reparent_payload(
            task_id@,
            match old_parent_id {
                Some(d) => Some(d@),
                None => None,
            },
            old_sort_order,
            pairs_view(old_project_ids@),
        ),
{
    let mut summary: Vec<char> = Vec::new();
    push_str(&mut summary, "Moved ");
    push_quoted(&mut summary, title);
    push_str(&mut summary, " under ");
    push_quoted(&mut summary, new_parent_title);
    let mut payload: Vec<char> = Vec::new();
    push_str(&mut payload, "{\"id\":");
    push_jstr(&mut payload, task_id);
    push_str(&mut payload, ",\"old_parent_id\":");
    match old_parent_id {
        Some(d) => push_jstr(&mut payload, d),
        None => push_str(&mut payload, "null"),
    }
    push_str(&mut payload, ",\"old_sort_order\":");
    push_dec_i64(&mut payload, old_sort_order);
    push_str(&mut payload, ",\"old_project_ids\":");
    push_jmap(&mut payload, old_project_ids);
    push_str(&mut payload, "}");
    record("reparent", summary, payload)
}

/// The record of deleting a subtree: the snapshot of its tasks (root
/// first) and of their time entries. `None` for an empty snapshot.
pub fn delete_record(tasks: &Vec<TaskSnapshot>, entries: &Vec<EntrySnapshot>) -> (r: Option<ActionRecord>)
    ensures
        match r {
            None => tasks.len() == 0,
            Some(rec) => {
                &&& tasks.len() > 0
                &&& rec.kind@ == "delete_task"@
                &&& rec.summary@ == (if tasks.len() > 1 {
                    "Deleted task "@ + quote(tasks@[0].title@) + " and "@ + dec((tasks.len() - 1) as nat) + " more"@
                } else {
                    "Deleted task "@ + quote(tasks@[0].title@)
                })
                &&& rec.payload@ == delete_payload(
                    tasks@.map_values(|t: TaskSnapshot| t@),
                    entries@.map_values(|e: EntrySnapshot| e@),
                )
            },
        },
{
    if tasks.len() == 0 {
        return None;
    }
    let mut summary: Vec<char> = Vec::new();
    push_str(&mut summary, "Deleted task ");
    push_quoted(&mut summary, tasks[0].title.as_str());
    if tasks.len() > 1 {
        push_str(&mut summary, " and ");
        push_dec(&mut summary, (tasks.len() - 1) as u64);
        push_str(&mut summary, " more");
    }
    let mut payload: Vec<char> = Vec::new();
    push_str(&mut payload, "{\"entries\":");
    push_entries_json(&mut payload, entries);
    push_str(&mut payload, ",\"tasks\":");
    push_tasks_json(&mut payload, tasks);
    push_str(&mut payload, "}");
    proof {
        let ts = tasks@.map_values(|t: TaskSnapshot| t@);
        let es = entries@.map_values(|e: EntrySnapshot| e@);
        assert(Seq::new(tasks.len() as nat, |i: int| task_json(tasks@[i]@)) =~= Seq::new(
            ts.len(),
            |i: int| task_json(ts[i]),
        ));
        assert(Seq::new(entries.len() as nat, |i: int| entry_json(entries@[i]@)) =~= Seq::new(
            es.len(),
            |i: int| entry_json(es[i]),
        ));
    }
    Some(record("delete_task", summary, payload))
}

/// The record of a quick-creation import: the new project and every task
/// created, undone by deleting them all.
pub fn import_record(project_name: &str, project_id: &str, task_ids: &Vec<String>) -> (r: ActionRecord)
    ensures
        r.kind@ == "import_project"@,
        r.summary@ == "Created project "@ + quote(project_name@) + " with "@ + dec(task_ids.len() as nat)
            + " task"@ + (if task_ids.len() == 1 { ""@ } else { "s"@ }),
        r.payload@ == import_payload(project_id@, task_ids@.map_values(|t: String| t@)),
{
    let mut summary: Vec<char> = Vec::new();
    push_str(&mut summary, "Created project ");
    push_quoted(&mut summary, project_name);
    push_str(&mut summary, " with ");
    push_dec(&mut summary, task_ids.len() as u64);
    push_str(&mut summary, " task");
    push_str(&mut summary, if task_ids.len() == 1 { "" } else { "s" });
    let mut payload: Vec<char> = Vec::new();
    push_str(&mut payload, "{\"project_id\":");
    push_jstr(&mut payload, project_id);
    push_str(&mut payload, ",\"task_ids\":");
    push_ids_json(&mut payload, task_ids);
    push_str(&mut payload, "}");
    proof {
        assert(Seq::new(task_ids.len() as nat, |i: int| serde_str_spec(task_ids@[i]@)) =~= Seq::new(
            task_ids@.map_values(|t: String| t@).len(),
            |i: int| serde_str_spec(task_ids@.map_values(|t: String| t@)[i]),
        ));
    }
    record("import_project", summary, payload)
}

// --- Reading a payload back ---------------------------------------------------------

/// What [`string_at`] promises of a top-level string-or-null member of an
/// object that [`jobject`] writes, stated of the name.
pub open spec fn str_reads(p: Seq<char>, ptr: Seq<char>) -> bool {
    forall|ms: Seq<(Seq<char>, Seq<char>)>, i: int, v: Option<Seq<char>>|
        #![trigger jobject(ms), ms[i], jopt(v)]
        p == jobject(ms) && members_ok(ms) && 0 <= i < ms.len() && ms[i].1 == jopt(v) && ptr == top_ptr(ms[i].0)
            ==> json_string_at(p, ptr) == v
}

/// An optional string field reads back: a top-level member, a member of a
/// flat map that is itself a member, or a member of an object of an array
/// member.
pub open spec fn opt_reads(p: Seq<char>, ptr: Seq<char>) -> bool {
    &&& top_opt_reads(p, ptr)
    &&& nested_opt_reads(p, ptr)
    &&& elem_opt_reads(p, ptr)
}

/// An optional string field at the top reads back.
pub open spec fn top_opt_reads(p: Seq<char>, ptr: Seq<char>) -> bool {
    forall|ms: Seq<(Seq<char>, Seq<char>)>, i: int, v: Option<Seq<char>>|
        #![trigger jobject(ms), ms[i], jopt(v)]
        p == jobject(ms) && members_ok(ms) && 0 <= i < ms.len() && ms[i].1 == jopt(v) && ptr == top_ptr(ms[i].0)
            ==> opt_str_field(p, ptr) == Some(v)
}

/// An optional string field of a flat map member reads back.
pub open spec fn nested_opt_reads(p: Seq<char>, ptr: Seq<char>) -> bool {
    forall|ms: Seq<(Seq<char>, Seq<char>)>, i: int, pairs: Seq<(Seq<char>, Option<Seq<char>>)>, j: int|
        #![trigger jobject(ms), ms[i], jmap(pairs), pairs[j]]
        p == jobject(ms) && members_ok(ms) && 0 <= i < ms.len() && ms[i].1 == jmap(pairs) && distinct_keys(pairs) && 0
            <= j < pairs.len() && ptr == member_ptr(ms[i].0, pairs[j].0) ==> opt_str_field(p, ptr) == Some(pairs[j].1)
}

/// An optional string field of an object of an array member reads back.
pub open spec fn elem_opt_reads(p: Seq<char>, ptr: Seq<char>) -> bool {
    forall|
        ms: Seq<(Seq<char>, Seq<char>)>,
        i: int,
        objs: Seq<Seq<(Seq<char>, Seq<char>)>>,
        k: int,
        j: int,
        v: Option<Seq<char>>,
    |
        #![trigger jobject(ms), ms[i], jobjects(objs), objs[k][j], jopt(v)]
        p == jobject(ms) && members_ok(ms) && 0 <= i < ms.len() && ms[i].1 == jobjects(objs) && objects_ok(objs) && 0
            <= k < objs.len() && 0 <= j < objs[k].len() && objs[k][j].1 == jopt(v) && ptr == field_ptr(
            ms[i].0,
            k as nat,
            objs[k][j].0,
        ) ==> opt_str_field(p, ptr) == Some(v)
}

/// What [`string_at`] promises of a string-or-null member of an object of
/// an array member, stated of the name.
pub open spec fn elem_str_reads(p: Seq<char>, ptr: Seq<char>) -> bool {
    forall|
        ms: Seq<(Seq<char>, Seq<char>)>,
        i: int,
        objs: Seq<Seq<(Seq<char>, Seq<char>)>>,
        k: int,
        j: int,
        v: Option<Seq<char>>,
    |
        #![trigger jobject(ms), ms[i], jobjects(objs), objs[k][j], jopt(v)]
        p == jobject(ms) && members_ok(ms) && 0 <= i < ms.len() && ms[i].1 == jobjects(objs) && objects_ok(objs) && 0
            <= k < objs.len() && 0 <= j < objs[k].len() && objs[k][j].1 == jopt(v) && ptr == field_ptr(
            ms[i].0,
            k as nat,
            objs[k][j].0,
        ) ==> json_string_at(p, ptr) == v
}

/// What [`bool_at`] promises of a boolean member of an object of an array
/// member, stated of the name.
pub open spec fn elem_bool_reads(p: Seq<char>, ptr: Seq<char>) -> bool {
    forall|ms: Seq<(Seq<char>, Seq<char>)>, i: int, objs: Seq<Seq<(Seq<char>, Seq<char>)>>, k: int, j: int, b: bool|
        #![trigger jobject(ms), ms[i], jobjects(objs), objs[k][j], jbool(b)]
        p == jobject(ms) && members_ok(ms) && 0 <= i < ms.len() && ms[i].1 == jobjects(objs) && objects_ok(objs) && 0
            <= k < objs.len() && 0 <= j < objs[k].len() && objs[k][j].1 == jbool(b) && ptr == field_ptr(
            ms[i].0,
            k as nat,
            objs[k][j].0,
        ) ==> json_bool_at(p, ptr) == Some(b)
}

/// An optional integer field of an object of an array member reads back.
pub open spec fn opt_int_reads(p: Seq<char>, ptr: Seq<char>) -> bool {
    &&& forall|
        ms: Seq<(Seq<char>, Seq<char>)>,
        i: int,
        objs: Seq<Seq<(Seq<char>, Seq<char>)>>,
        k: int,
        j: int,
        v: Option<Seq<char>>,
    |
        #![trigger jobject(ms), ms[i], jobjects(objs), objs[k][j], jopt(v)]
        p == jobject(ms) && members_ok(ms) && 0 <= i < ms.len() && ms[i].1 == jobjects(objs) && objects_ok(objs) && 0
            <= k < objs.len() && 0 <= j < objs[k].len() && objs[k][j].1 == jopt(v) && v is None && ptr == field_ptr(
            ms[i].0,
            k as nat,
            objs[k][j].0,
        ) ==> opt_int_field(p, ptr) == Some(None::<i64>)
    &&& forall|ms: Seq<(Seq<char>, Seq<char>)>, i: int, objs: Seq<Seq<(Seq<char>, Seq<char>)>>, k: int, j: int, x: int|
        #![trigger jobject(ms), ms[i], jobjects(objs), objs[k][j], dec_int(x)]
        p == jobject(ms) && members_ok(ms) && 0 <= i < ms.len() && ms[i].1 == jobjects(objs) && objects_ok(objs) && 0
            <= k < objs.len() && 0 <= j < objs[k].len() && i64::MIN <= x <= i64::MAX && objs[k][j].1 == dec_int(x)
            && ptr == field_ptr(ms[i].0, k as nat, objs[k][j].0) ==> opt_int_field(p, ptr) == Some(Some(x as i64))
}

/// A whole-number field reads back from an integer member, at the top or
/// in an object of an array member.
pub open spec fn whole_reads(p: Seq<char>, ptr: Seq<char>) -> bool {
    &&& top_whole_reads(p, ptr)
    &&& elem_whole_reads(p, ptr)
}

/// A whole-number field reads back from a top-level integer member.
pub open spec fn top_whole_reads(p: Seq<char>, ptr: Seq<char>) -> bool {
    forall|ms: Seq<(Seq<char>, Seq<char>)>, i: int, x: int|
        #![trigger jobject(ms), ms[i], dec_int(x)]
        p == jobject(ms) && members_ok(ms) && 0 <= i < ms.len() && i64::MIN <= x <= i64::MAX && ms[i].1 == dec_int(x)
            && ptr == top_ptr(ms[i].0) ==> whole_field(p, ptr) == Some(x as i64)
}

/// A whole-number field reads back from an integer member of an object of
/// an array member.
pub open spec fn elem_whole_reads(p: Seq<char>, ptr: Seq<char>) -> bool {
    forall|ms: Seq<(Seq<char>, Seq<char>)>, i: int, objs: Seq<Seq<(Seq<char>, Seq<char>)>>, k: int, j: int, x: int|
        #![trigger jobject(ms), ms[i], jobjects(objs), objs[k][j], dec_int(x)]
        p == jobject(ms) && members_ok(ms) && 0 <= i < ms.len() && ms[i].1 == jobjects(objs) && objects_ok(objs) && 0
            <= k < objs.len() && 0 <= j < objs[k].len() && i64::MIN <= x <= i64::MAX && objs[k][j].1 == dec_int(x)
            && ptr == field_ptr(ms[i].0, k as nat, objs[k][j].0) ==> whole_field(p, ptr) == Some(x as i64)
}

/// `steps` put back the projects of `pairs`: one step per task, each
/// giving a task its captured project.
pub open spec fn restores_projects(steps: Seq<StepView>, pairs: Seq<(Seq<char>, Option<Seq<char>>)>) -> bool {
    &&& steps.len() == pairs.len()
    &&& forall|a: int|
        0 <= a < steps.len() ==> exists|b: int|
            0 <= b < pairs.len() && #[trigger] steps[a] == (StepView::SetProject { id: pairs[b].0, project: pairs[b].1 })
    &&& forall|b: int|
        0 <= b < pairs.len() ==> exists|a: int|
            0 <= a < steps.len() && steps[a] == (StepView::SetProject { id: (#[trigger] pairs[b]).0, project: pairs[b].1 })
}

/// The project map that member `outer` holds reads back as steps that put
/// every captured project back.
pub open spec fn projects_read(p: Seq<char>, outer: Seq<char>) -> bool {
    forall|ms: Seq<(Seq<char>, Seq<char>)>, m: int, pairs: Seq<(Seq<char>, Option<Seq<char>>)>|
        #![trigger jobject(ms), ms[m], jmap(pairs)]
        p == jobject(ms) && members_ok(ms) && 0 <= m < ms.len() && ms[m].0 == outer && ms[m].1 == jmap(pairs)
            && distinct_keys(pairs) ==> (project_steps(p, outer) matches Some(steps) && restores_projects(steps, pairs))
}

/// A character that a JSON string holds unescaped.
pub open spec fn json_plain(c: char) -> bool {
    c != '"' && c != '\\' && (c as u32) >= 0x20
}

proof fn lemma_plain_body(k: Seq<char>)
    requires
        forall|j: int| 0 <= j < k.len() ==> json_plain(k[j]),
    ensures
        serde_body(k) == k,
    decreases k.len(),
{
    if k.len() > 0 {
        lemma_plain_body(k.drop_last());
        assert(json_plain(k[k.len() - 1]));
        assert(k.drop_last() + serde_escape(k.last()) =~= k);
    }
}

/// A key of plain characters is written as itself in quotes.
proof fn lemma_plain_key(k: Seq<char>)
    requires
        forall|j: int| 0 <= j < k.len() ==> json_plain(k[j]),
    ensures
        serde_str_spec(k) == quote(k),
{
    lemma_plain_body(k);
}

proof fn lemma_jobject_one(k: Seq<char>, v: Seq<char>)
    ensures
        jobject(seq![(k, v)]) == seq!['{'] + serde_str_spec(k) + seq![':'] + v + seq!['}'],
{
    let ms = seq![(k, v)];
    let items = Seq::new(ms.len(), |i: int| serde_str_spec(ms[i].0) + seq![':'] + ms[i].1);
    assert(join_commas(items) == items[0]);
    assert(jobject(ms) =~= seq!['{'] + serde_str_spec(k) + seq![':'] + v + seq!['}']);
}

proof fn lemma_jobject_push(ms: Seq<(Seq<char>, Seq<char>)>, k: Seq<char>, v: Seq<char>)
    requires
        ms.len() > 0,
    ensures
        jobject(ms.push((k, v))) == jobject(ms).drop_last() + seq![','] + serde_str_spec(k) + seq![':'] + v
            + seq!['}'],
{
    let ms2 = ms.push((k, v));
    let it = Seq::new(ms.len(), |i: int| serde_str_spec(ms[i].0) + seq![':'] + ms[i].1);
    let it2 = Seq::new(ms2.len(), |i: int| serde_str_spec(ms2[i].0) + seq![':'] + ms2[i].1);
    assert(it2.drop_last() =~= it);
    assert(join_commas(it2) == join_commas(it) + seq![','] + it2.last());
    assert(jobject(ms).drop_last() =~= seq!['{'] + join_commas(it));
    assert(jobject(ms2) =~= jobject(ms).drop_last() + seq![','] + serde_str_spec(k) + seq![':'] + v + seq!['}']);
}

/// A literal `<lead>"key":` spells the key the way [`jobject`] writes it.
proof fn lemma_key_literal(lit: Seq<char>, lead: char, key: Seq<char>)
    requires
        forall|j: int| 0 <= j < key.len() ==> json_plain(key[j]),
        lit == seq![lead] + quote(key) + seq![':'],
    ensures
        lit == seq![lead] + serde_str_spec(key) + seq![':'],
{
    lemma_plain_key(key);
}

/// The leading `{"id":<id>` of every flat record.
proof fn lemma_id_member(id: Seq<char>)
    ensures
        jobject(seq![("id"@, jopt(Some(id)))]) == "{\"id\":"@ + serde_str_spec(id) + "}"@,
        jobject(seq![("id"@, jopt(Some(id)))]).drop_last() == "{\"id\":"@ + serde_str_spec(id),
        pointer_safe("id"@),
{
    reveal_strlit("id");
    reveal_strlit("{\"id\":");
    reveal_strlit("}");
    assert("{\"id\":"@ =~= seq!['{'] + quote("id"@) + seq![':']);
    lemma_key_literal("{\"id\":"@, '{', "id"@);
    lemma_jobject_one("id"@, jopt(Some(id)));
    assert(jobject(seq![("id"@, jopt(Some(id)))]) =~= "{\"id\":"@ + serde_str_spec(id) + "}"@);
    assert(jobject(seq![("id"@, jopt(Some(id)))]).drop_last() =~= "{\"id\":"@ + serde_str_spec(id));
}

/// `{"id":<id>` followed by one more member, written with the literal
/// `,"<key>":`.
proof fn lemma_second_member(id: Seq<char>, key: Seq<char>, lit: Seq<char>, v: Seq<char>)
    requires
        forall|j: int| 0 <= j < key.len() ==> json_plain(key[j]),
        lit == seq![','] + quote(key) + seq![':'],
    ensures
        "{\"id\":"@ + serde_str_spec(id) + lit + v + "}"@ == jobject(seq![("id"@, jopt(Some(id))), (key, v)]),
{
    reveal_strlit("}");
    lemma_id_member(id);
    lemma_key_literal(lit, ',', key);
    lemma_jobject_push(seq![("id"@, jopt(Some(id)))], key, v);
    assert(seq![("id"@, jopt(Some(id)))].push((key, v)) =~= seq![("id"@, jopt(Some(id))), (key, v)]);
    assert("{\"id\":"@ + serde_str_spec(id) + lit + v + "}"@ =~= jobject(seq![("id"@, jopt(Some(id))), (key, v)]));
}

/// The members of a record that holds the task id and one more member.
pub open spec fn id_and(id: Seq<char>, key: Seq<char>, v: Seq<char>) -> Seq<(Seq<char>, Seq<char>)> {
    seq![("id"@, jopt(Some(id))), (key, v)]
}

proof fn lemma_id_and_ok(id: Seq<char>, key: Seq<char>, v: Seq<char>)
    requires
        pointer_safe(key),
        key != "id"@,
        simple_json(v),
    ensures
        members_ok(id_and(id, key, v)),
{
    let ms = id_and(id, key, v);
    lemma_id_member(id);
    assert(simple_json(jopt(Some(id))));
    assert(ms[0].0 == "id"@ && ms[1].0 == key);
}

/// An import record is an object of two members, of the kinds that read
/// back.
proof fn lemma_import_members(pid: Seq<char>, ids: Seq<Seq<char>>) -> (ms: Seq<(Seq<char>, Seq<char>)>)
    ensures
        import_payload(pid, ids) == jobject(ms),
        members_ok(ms),
        ms == seq![("project_id"@, jopt(Some(pid))), ("task_ids"@, jstrings(ids))],
{
    reveal_strlit("project_id");
    reveal_strlit("task_ids");
    reveal_strlit("{\"project_id\":");
    reveal_strlit(",\"task_ids\":");
    reveal_strlit("}");
    lemma_plain_literal("project_id"@);
    lemma_plain_literal("task_ids"@);
    assert("{\"project_id\":"@ =~= seq!['{'] + quote("project_id"@) + seq![':']);
    assert(",\"task_ids\":"@ =~= seq![','] + quote("task_ids"@) + seq![':']);
    lemma_key_literal("{\"project_id\":"@, '{', "project_id"@);
    lemma_key_literal(",\"task_ids\":"@, ',', "task_ids"@);
    let m1 = seq![("project_id"@, jopt(Some(pid)))];
    let m2 = m1.push(("task_ids"@, jstrings(ids)));
    lemma_jobject_one("project_id"@, jopt(Some(pid)));
    lemma_jobject_push(m1, "task_ids"@, jstrings(ids));
    assert(jobject(m1).drop_last() =~= "{\"project_id\":"@ + serde_str_spec(pid));
    assert(import_payload(pid, ids) =~= jobject(m2));
    assert(simple_json(jopt(Some(pid))));
    assert(simple_json(jstrings(ids)));
    assert(m2 =~= seq![("project_id"@, jopt(Some(pid))), ("task_ids"@, jstrings(ids))]);
    assert("project_id"@[0] != "task_ids"@[0]);
    m2
}

/// The kinds of the records read back here differ from each other.
proof fn lemma_kinds_differ()
    ensures
        "rename_task"@ != "create_task"@,
        "set_notes"@ != "create_task"@,
        "set_notes"@ != "rename_task"@,
        "set_deadline"@ != "create_task"@,
        "set_deadline"@ != "rename_task"@,
        "set_deadline"@ != "set_notes"@,
        "set_status"@ != "create_task"@,
        "set_status"@ != "rename_task"@,
        "set_status"@ != "set_notes"@,
        "set_status"@ != "set_deadline"@,
        "set_project"@ != "create_task"@,
        "set_project"@ != "rename_task"@,
        "set_project"@ != "set_notes"@,
        "set_project"@ != "set_deadline"@,
        "set_project"@ != "set_status"@,
        "reparent"@ != "create_task"@,
        "reparent"@ != "rename_task"@,
        "reparent"@ != "set_notes"@,
        "reparent"@ != "set_deadline"@,
        "reparent"@ != "set_status"@,
        "reparent"@ != "set_project"@,
        "import_project"@ != "create_task"@,
        "import_project"@ != "rename_task"@,
        "import_project"@ != "set_notes"@,
        "import_project"@ != "set_deadline"@,
        "import_project"@ != "set_status"@,
        "import_project"@ != "set_project"@,
        "import_project"@ != "reparent"@,
        "import_project"@ != "delete_task"@,
        "delete_task"@ != "create_task"@,
        "delete_task"@ != "rename_task"@,
        "delete_task"@ != "set_notes"@,
        "delete_task"@ != "set_deadline"@,
        "delete_task"@ != "set_status"@,
        "delete_task"@ != "set_project"@,
        "delete_task"@ != "reparent"@,
{
    reveal_strlit("create_task");
    reveal_strlit("rename_task");
    reveal_strlit("set_notes");
    reveal_strlit("set_deadline");
    reveal_strlit("set_status");
    reveal_strlit("set_project");
    reveal_strlit("reparent");
    assert("rename_task"@[0] != "create_task"@[0]);
    assert("set_notes"@[0] != "create_task"@[0]);
    assert("set_notes"@[0] != "rename_task"@[0]);
    assert("set_deadline"@[0] != "create_task"@[0]);
    assert("set_deadline"@[0] != "rename_task"@[0]);
    assert("set_deadline"@[4] != "set_notes"@[4]);
    assert("set_status"@[0] != "create_task"@[0]);
    assert("set_status"@[0] != "rename_task"@[0]);
    assert("set_status"@[4] != "set_notes"@[4]);
    assert("set_status"@[4] != "set_deadline"@[4]);
    assert("set_project"@[0] != "create_task"@[0]);
    assert("set_project"@[0] != "rename_task"@[0]);
    assert("set_project"@[4] != "set_notes"@[4]);
    assert("set_project"@[4] != "set_deadline"@[4]);
    assert("set_project"@[4] != "set_status"@[4]);
    assert("reparent"@[0] != "create_task"@[0]);
    assert("reparent"@[2] != "rename_task"@[2]);
    assert("reparent"@[0] != "set_notes"@[0]);
    assert("reparent"@[0] != "set_deadline"@[0]);
    assert("reparent"@[0] != "set_status"@[0]);
    assert("reparent"@[0] != "set_project"@[0]);
    reveal_strlit("import_project");
    reveal_strlit("delete_task");
    assert("import_project"@[0] != "create_task"@[0]);
    assert("import_project"@[0] != "rename_task"@[0]);
    assert("import_project"@[0] != "set_notes"@[0]);
    assert("import_project"@[0] != "set_deadline"@[0]);
    assert("import_project"@[0] != "set_status"@[0]);
    assert("import_project"@[0] != "set_project"@[0]);
    assert("import_project"@[0] != "reparent"@[0]);
    assert("import_project"@[0] != "delete_task"@[0]);
    assert("delete_task"@[0] != "create_task"@[0]);
    assert("delete_task"@[0] != "rename_task"@[0]);
    assert("delete_task"@[0] != "set_notes"@[0]);
    assert("delete_task"@[0] != "set_deadline"@[0]);
    assert("delete_task"@[0] != "set_status"@[0]);
    assert("delete_task"@[0] != "set_project"@[0]);
    assert("delete_task"@[0] != "reparent"@[0]);
}

/// A record with the task id and one more string-or-null member: both read
/// back.
proof fn lemma_pair_reads(p: Seq<char>, id: Seq<char>, key: Seq<char>, lit: Seq<char>, v: Option<Seq<char>>)
    requires
        p == "{\"id\":"@ + serde_str_spec(id) + lit + jopt(v) + "}"@,
        forall|j: int| 0 <= j < key.len() ==> json_plain(key[j]),
        pointer_safe(key),
        key != "id"@,
        lit == seq![','] + quote(key) + seq![':'],
        str_reads(p, top_ptr("id"@)),
        str_reads(p, top_ptr(key)),
    ensures
        json_string_at(p, top_ptr("id"@)) == Some(id),
        json_string_at(p, top_ptr(key)) == v,
{
    lemma_second_member(id, key, lit, jopt(v));
    assert(simple_json(jopt(v)));
    lemma_id_and_ok(id, key, jopt(v));
    let ms = id_and(id, key, jopt(v));
    assert(p == jobject(ms));
    assert(ms[0].1 == jopt(Some(id)) && ms[0].0 == "id"@);
    assert(ms[1].1 == jopt(v) && ms[1].0 == key);
}

/// Each literal key below is plain and pointer-safe.
proof fn lemma_plain_literal(k: Seq<char>)
    requires
        forall|j: int| 0 <= j < k.len() ==> 'a' <= #[trigger] k[j] <= 'z' || k[j] == '_',
    ensures
        forall|j: int| 0 <= j < k.len() ==> json_plain(k[j]),
        pointer_safe(k),
{
}

/// The plan of each record read back here, given what its lookups promise.
#[verifier::spinoff_prover]
proof fn lemma_plan_reads(kind: Seq<char>, p: Seq<char>)
    requires
        str_reads(p, top_ptr("id"@)),
        kind == "rename_task"@ ==> str_reads(p, top_ptr("old_title"@)),
        kind == "set_notes"@ ==> str_reads(p, top_ptr("old_notes"@)),
        kind == "set_deadline"@ ==> str_reads(p, top_ptr("old_deadline"@)),
        kind == "set_status"@ ==> str_reads(p, top_ptr("old_status"@)),
        kind == "set_project"@ ==> projects_read(p, "old_project_ids"@),
        kind == "reparent"@ ==> opt_reads(p, top_ptr("old_parent_id"@)) && whole_reads(p, top_ptr("old_sort_order"@))
            && projects_read(p, "old_project_ids"@),
        "rename_task"@ != "create_task"@,
        "set_notes"@ != "create_task"@,
        "set_notes"@ != "rename_task"@,
        "set_deadline"@ != "create_task"@,
        "set_deadline"@ != "rename_task"@,
        "set_deadline"@ != "set_notes"@,
        "set_status"@ != "create_task"@,
        "set_status"@ != "rename_task"@,
        "set_status"@ != "set_notes"@,
        "set_status"@ != "set_deadline"@,
        "set_project"@ != "create_task"@,
        "set_project"@ != "rename_task"@,
        "set_project"@ != "set_notes"@,
        "set_project"@ != "set_deadline"@,
        "set_project"@ != "set_status"@,
        "reparent"@ != "create_task"@,
        "reparent"@ != "rename_task"@,
        "reparent"@ != "set_notes"@,
        "reparent"@ != "set_deadline"@,
        "reparent"@ != "set_status"@,
        "reparent"@ != "set_project"@,
    ensures
        forall|id: Seq<char>|
            kind == "create_task"@ && p == #[trigger] create_payload(id) ==> plan_spec(kind, p) == seq![
                StepView::DeleteTask(id),
            ],
        forall|id: Seq<char>, t: Seq<char>|
            kind == "rename_task"@ && p == #[trigger] rename_payload(id, t) ==> plan_spec(kind, p) == seq![
                StepView::Rename { id, title: t },
            ],
        forall|id: Seq<char>, t: Seq<char>|
            kind == "set_notes"@ && p == #[trigger] notes_payload(id, t) ==> plan_spec(kind, p) == seq![
                StepView::SetNotes { id, notes: t },
            ],
        forall|id: Seq<char>, d: Option<Seq<char>>|
            kind == "set_deadline"@ && p == #[trigger] deadline_payload(id, d) ==> plan_spec(kind, p) == seq![
                StepView::SetDeadline { id, deadline: d },
            ],
        forall|id: Seq<char>, st: TaskStatus|
            kind == "set_status"@ && p == #[trigger] status_payload(id, st) ==> plan_spec(kind, p) == seq![
                StepView::SetStatus { id, status: st },
            ],
        forall|id: Seq<char>, pairs: Seq<(Seq<char>, Option<Seq<char>>)>|
            kind == "set_project"@ && p == #[trigger] project_payload(id, pairs) && distinct_keys(pairs)
                ==> restores_projects(plan_spec(kind, p), pairs),
        forall|id: Seq<char>, parent: Option<Seq<char>>, sort_order: i64, pairs: Seq<(Seq<char>, Option<Seq<char>>)>|
            kind == "reparent"@ && p == #[trigger] reparent_payload(id, parent, sort_order, pairs)
                && distinct_keys(pairs) ==> plan_spec(kind, p).len() > 0 && plan_spec(kind, p)[0] == (StepView::Reparent {
                id,
                parent,
                sort_order,
            }) && restores_projects(plan_spec(kind, p).skip(1), pairs),
{
    reveal_strlit("id");
    reveal_strlit("old_title");
    reveal_strlit("old_notes");
    reveal_strlit("old_deadline");
    reveal_strlit("old_status");
    reveal_strlit("old_project_ids");
    reveal_strlit("old_parent_id");
    reveal_strlit("old_sort_order");
    lemma_plain_literal("id"@);
    lemma_plain_literal("old_title"@);
    lemma_plain_literal("old_notes"@);
    lemma_plain_literal("old_deadline"@);
    lemma_plain_literal("old_status"@);
    lemma_plain_literal("old_project_ids"@);
    lemma_plain_literal("old_parent_id"@);
    lemma_plain_literal("old_sort_order"@);
    assert forall|id: Seq<char>| kind == "create_task"@ && p == #[trigger] create_payload(id) implies plan_spec(
        kind,
        p,
    ) == seq![StepView::DeleteTask(id)] by {
        lemma_id_member(id);
        let ms = seq![("id"@, jopt(Some(id)))];
        assert(simple_json(jopt(Some(id))));
        assert(members_ok(ms));
        assert(p == jobject(ms));
        assert(ms[0].1 == jopt(Some(id)));
    }
    assert forall|id: Seq<char>, t: Seq<char>|
        kind == "rename_task"@ && p == #[trigger] rename_payload(id, t) implies plan_spec(kind, p) == seq![
            StepView::Rename { id, title: t },
        ] by {
        reveal_strlit(",\"old_title\":");
        assert(",\"old_title\":"@ =~= seq![','] + quote("old_title"@) + seq![':']);
        lemma_pair_reads(p, id, "old_title"@, ",\"old_title\":"@, Some(t));
    }
    assert forall|id: Seq<char>, t: Seq<char>|
        kind == "set_notes"@ && p == #[trigger] notes_payload(id, t) implies plan_spec(kind, p) == seq![
            StepView::SetNotes { id, notes: t },
        ] by {
        reveal_strlit(",\"old_notes\":");
        assert(",\"old_notes\":"@ =~= seq![','] + quote("old_notes"@) + seq![':']);
        lemma_pair_reads(p, id, "old_notes"@, ",\"old_notes\":"@, Some(t));
    }
    assert forall|id: Seq<char>, d: Option<Seq<char>>|
        kind == "set_deadline"@ && p == #[trigger] deadline_payload(id, d) implies plan_spec(kind, p) == seq![
            StepView::SetDeadline { id, deadline: d },
        ] by {
        reveal_strlit(",\"old_deadline\":");
        assert(",\"old_deadline\":"@ =~= seq![','] + quote("old_deadline"@) + seq![':']);
        lemma_pair_reads(p, id, "old_deadline"@, ",\"old_deadline\":"@, d);
    }
    assert forall|id: Seq<char>, st: TaskStatus|
        kind == "set_status"@ && p == #[trigger] status_payload(id, st) implies plan_spec(kind, p) == seq![
            StepView::SetStatus { id, status: st },
        ] by {
        reveal_strlit(",\"old_status\":");
        assert(",\"old_status\":"@ =~= seq![','] + quote("old_status"@) + seq![':']);
        lemma_pair_reads(p, id, "old_status"@, ",\"old_status\":"@, Some(status_text(st)));
        assert(status_text(TaskStatus::Todo)[0] != status_text(TaskStatus::Done)[0]);
    }
    assert forall|id: Seq<char>, pairs: Seq<(Seq<char>, Option<Seq<char>>)>|
        kind == "set_project"@ && p == #[trigger] project_payload(id, pairs) && distinct_keys(pairs) implies restores_projects(
        plan_spec(kind, p),
        pairs,
    ) by {
        reveal_strlit(",\"old_project_ids\":");
        assert(",\"old_project_ids\":"@ =~= seq![','] + quote("old_project_ids"@) + seq![':']);
        lemma_second_member(id, "old_project_ids"@, ",\"old_project_ids\":"@, jmap(pairs));
        assert(simple_json(jmap(pairs)));
        lemma_id_and_ok(id, "old_project_ids"@, jmap(pairs));
        let ms = id_and(id, "old_project_ids"@, jmap(pairs));
        assert(p == jobject(ms));
        assert(ms[1].0 == "old_project_ids"@ && ms[1].1 == jmap(pairs));
    }
    assert forall|id: Seq<char>, parent: Option<Seq<char>>, sort_order: i64, pairs: Seq<(Seq<char>, Option<Seq<char>>)>|
        kind == "reparent"@ && p == #[trigger] reparent_payload(id, parent, sort_order, pairs) && distinct_keys(pairs)
            implies plan_spec(kind, p).len() > 0 && plan_spec(kind, p)[0] == (StepView::Reparent {
        id,
        parent,
        sort_order,
    }) && restores_projects(plan_spec(kind, p).skip(1), pairs) by {
        let ms = lemma_reparent_members(id, parent, sort_order, pairs);
        assert(p == jobject(ms));
        assert(ms[0].0 == "id"@ && ms[0].1 == jopt(Some(id)));
        assert(ms[1].0 == "old_parent_id"@ && ms[1].1 == jopt(parent));
        assert(ms[2].0 == "old_sort_order"@ && ms[2].1 == dec_int(sort_order as int));
        assert(ms[3].0 == "old_project_ids"@ && ms[3].1 == jmap(pairs));
        let steps = project_steps(p, "old_project_ids"@)->0;
        assert(plan_spec(kind, p) == seq![StepView::Reparent { id, parent, sort_order }] + steps);
        assert(plan_spec(kind, p).skip(1) =~= steps);
    }
}

/// A re-parenting record is an object of four members, of the kinds that
/// read back.
proof fn lemma_reparent_members(
    id: Seq<char>,
    parent: Option<Seq<char>>,
    sort_order: i64,
    pairs: Seq<(Seq<char>, Option<Seq<char>>)>,
) -> (ms: Seq<(Seq<char>, Seq<char>)>)
    ensures
        reparent_payload(id, parent, sort_order, pairs) == jobject(ms),
        members_ok(ms),
        ms == seq![
            ("id"@, jopt(Some(id))),
            ("old_parent_id"@, jopt(parent)),
            ("old_sort_order"@, dec_int(sort_order as int)),
            ("old_project_ids"@, jmap(pairs)),
        ],
{
    let ms = lemma_reparent_text(id, parent, sort_order, pairs);
    lemma_reparent_ok(id, parent, sort_order, pairs);
    ms
}

#[verifier::spinoff_prover]
proof fn lemma_reparent_text(
    id: Seq<char>,
    parent: Option<Seq<char>>,
    sort_order: i64,
    pairs: Seq<(Seq<char>, Option<Seq<char>>)>,
) -> (ms: Seq<(Seq<char>, Seq<char>)>)
    ensures
        reparent_payload(id, parent, sort_order, pairs) == jobject(ms),
        ms == seq![
            ("id"@, jopt(Some(id))),
            ("old_parent_id"@, jopt(parent)),
            ("old_sort_order"@, dec_int(sort_order as int)),
            ("old_project_ids"@, jmap(pairs)),
        ],
{
    reveal_strlit("old_parent_id");
    reveal_strlit("old_sort_order");
    reveal_strlit("old_project_ids");
    reveal_strlit(",\"old_parent_id\":");
    reveal_strlit(",\"old_sort_order\":");
    reveal_strlit(",\"old_project_ids\":");
    reveal_strlit("}");
    lemma_plain_literal("old_parent_id"@);
    lemma_plain_literal("old_sort_order"@);
    lemma_plain_literal("old_project_ids"@);
    let m1 = seq![("id"@, jopt(Some(id)))];
    let m2 = m1.push(("old_parent_id"@, jopt(parent)));
    let m3 = m2.push(("old_sort_order"@, dec_int(sort_order as int)));
    let m4 = m3.push(("old_project_ids"@, jmap(pairs)));
    lemma_id_member(id);
    assert(",\"old_parent_id\":"@ =~= seq![','] + quote("old_parent_id"@) + seq![':']);
    assert(",\"old_sort_order\":"@ =~= seq![','] + quote("old_sort_order"@) + seq![':']);
    assert(",\"old_project_ids\":"@ =~= seq![','] + quote("old_project_ids"@) + seq![':']);
    lemma_key_literal(",\"old_parent_id\":"@, ',', "old_parent_id"@);
    lemma_key_literal(",\"old_sort_order\":"@, ',', "old_sort_order"@);
    lemma_key_literal(",\"old_project_ids\":"@, ',', "old_project_ids"@);
    lemma_jobject_push(m1, "old_parent_id"@, jopt(parent));
    lemma_jobject_push(m2, "old_sort_order"@, dec_int(sort_order as int));
    lemma_jobject_push(m3, "old_project_ids"@, jmap(pairs));
    assert(jobject(m2).drop_last() =~= jobject(m1).drop_last() + ",\"old_parent_id\":"@ + jopt(parent));
    assert(jobject(m3).drop_last() =~= jobject(m2).drop_last() + ",\"old_sort_order\":"@ + dec_int(
        sort_order as int,
    ));
    assert(reparent_payload(id, parent, sort_order, pairs) =~= jobject(m4));
    assert(m4 =~= seq![
        ("id"@, jopt(Some(id))),
        ("old_parent_id"@, jopt(parent)),
        ("old_sort_order"@, dec_int(sort_order as int)),
        ("old_project_ids"@, jmap(pairs)),
    ]);
    m4
}

proof fn lemma_reparent_ok(
    id: Seq<char>,
    parent: Option<Seq<char>>,
    sort_order: i64,
    pairs: Seq<(Seq<char>, Option<Seq<char>>)>,
)
    ensures
        members_ok(
            seq![
                ("id"@, jopt(Some(id))),
                ("old_parent_id"@, jopt(parent)),
                ("old_sort_order"@, dec_int(sort_order as int)),
                ("old_project_ids"@, jmap(pairs)),
            ],
        ),
{
    reveal_strlit("id");
    reveal_strlit("old_parent_id");
    reveal_strlit("old_sort_order");
    reveal_strlit("old_project_ids");
    lemma_plain_literal("id"@);
    lemma_plain_literal("old_parent_id"@);
    lemma_plain_literal("old_sort_order"@);
    lemma_plain_literal("old_project_ids"@);
    lemma_simple_jopt(Some(id));
    lemma_simple_jopt(parent);
    lemma_simple_dec(sort_order as int);
    lemma_simple_jmap(pairs);
    assert("old_parent_id"@[4] != "old_sort_order"@[4]);
    assert("old_parent_id"@[5] != "old_project_ids"@[5]);
    assert("old_sort_order"@[4] != "old_project_ids"@[4]);
}

proof fn lemma_simple_jopt(v: Option<Seq<char>>)
    ensures
        simple_json(jopt(v)),
        scalar_json(jopt(v)),
{
}

proof fn lemma_simple_dec(x: int)
    requires
        i64::MIN <= x <= i64::MAX,
    ensures
        simple_json(dec_int(x)),
        scalar_json(dec_int(x)),
{
}

proof fn lemma_simple_jmap(pairs: Seq<(Seq<char>, Option<Seq<char>>)>)
    ensures
        simple_json(jmap(pairs)),
{
}

/// One more member, written with the literal `,"<key>":`.
proof fn lemma_member_step(ms: Seq<(Seq<char>, Seq<char>)>, key: Seq<char>, lit: Seq<char>, v: Seq<char>)
    requires
        ms.len() > 0,
        forall|j: int| 0 <= j < key.len() ==> 'a' <= #[trigger] key[j] <= 'z' || key[j] == '_',
        lit == seq![','] + quote(key) + seq![':'],
    ensures
        jobject(ms.push((key, v))).drop_last() == jobject(ms).drop_last() + lit + v,
        jobject(ms.push((key, v))) == jobject(ms.push((key, v))).drop_last() + seq!['}'],
{
    lemma_plain_literal(key);
    lemma_key_literal(lit, ',', key);
    lemma_jobject_push(ms, key, v);
    assert(jobject(ms.push((key, v))).drop_last() =~= jobject(ms).drop_last() + lit + v);
    assert(jobject(ms.push((key, v))) =~= jobject(ms.push((key, v))).drop_last() + seq!['}']);
}

/// The members of a task snapshot, in the order [`task_json`] writes them.
pub open spec fn task_members(t: TaskSnap) -> Seq<(Seq<char>, Seq<char>)> {
    seq![
        ("id"@, jopt(Some(t.id))),
        ("parent_task_id"@, jopt(t.parent_task_id)),
        ("project_id"@, jopt(t.project_id)),
        ("title"@, jopt(Some(t.title))),
        ("notes"@, jopt(Some(t.notes))),
        ("deadline"@, jopt(t.deadline)),
        ("tracked"@, jbool(t.track)),
        ("status"@, jopt(Some(t.status))),
        ("sort_order"@, dec_int(t.sort_order as int)),
        ("created_at"@, jopt(Some(t.created_at))),
        ("initial_time_seconds"@, jopt_int(t.initial_time_seconds)),
        ("completed_at"@, jopt(t.completed_at)),
    ]
}

/// The members of an entry snapshot, in the order [`entry_json`] writes
/// them.
pub open spec fn entry_members(e: EntrySnap) -> Seq<(Seq<char>, Seq<char>)> {
    seq![
        ("id"@, jopt(Some(e.id))),
        ("task_id"@, jopt(Some(e.task_id))),
        ("start_ts"@, jopt(Some(e.start_ts))),
        ("end_ts"@, jopt(e.end_ts)),
        ("source"@, jopt(Some(e.source))),
        ("note"@, jopt(Some(e.note))),
        ("created_at"@, jopt(Some(e.created_at))),
    ]
}

/// The first six members of a task snapshot.
#[verifier::spinoff_prover]
proof fn lemma_task_head(t: TaskSnap) -> (m6: Seq<(Seq<char>, Seq<char>)>)
    ensures
        m6 == task_members(t).take(6),
        jobject(m6).drop_last() == task_json_head(t),
{
    reveal_strlit("parent_task_id");
    reveal_strlit("project_id");
    reveal_strlit("title");
    reveal_strlit("notes");
    reveal_strlit("deadline");
    reveal_strlit(",\"parent_task_id\":");
    reveal_strlit(",\"project_id\":");
    reveal_strlit(",\"title\":");
    reveal_strlit(",\"notes\":");
    reveal_strlit(",\"deadline\":");
    let m1 = seq![("id"@, jopt(Some(t.id)))];
    lemma_id_member(t.id);
    let m2 = m1.push(("parent_task_id"@, jopt(t.parent_task_id)));
    assert(",\"parent_task_id\":"@ =~= seq![','] + quote("parent_task_id"@) + seq![':']);
    lemma_member_step(m1, "parent_task_id"@, ",\"parent_task_id\":"@, jopt(t.parent_task_id));
    let m3 = m2.push(("project_id"@, jopt(t.project_id)));
    assert(",\"project_id\":"@ =~= seq![','] + quote("project_id"@) + seq![':']);
    lemma_member_step(m2, "project_id"@, ",\"project_id\":"@, jopt(t.project_id));
    let m4 = m3.push(("title"@, jopt(Some(t.title))));
    assert(",\"title\":"@ =~= seq![','] + quote("title"@) + seq![':']);
    lemma_member_step(m3, "title"@, ",\"title\":"@, jopt(Some(t.title)));
    let m5 = m4.push(("notes"@, jopt(Some(t.notes))));
    assert(",\"notes\":"@ =~= seq![','] + quote("notes"@) + seq![':']);
    lemma_member_step(m4, "notes"@, ",\"notes\":"@, jopt(Some(t.notes)));
    let m6 = m5.push(("deadline"@, jopt(t.deadline)));
    assert(",\"deadline\":"@ =~= seq![','] + quote("deadline"@) + seq![':']);
    lemma_member_step(m5, "deadline"@, ",\"deadline\":"@, jopt(t.deadline));
    assert(m6 =~= task_members(t).take(6));
    m6
}

/// One more member after a text split as `h + q`.
proof fn lemma_tail_step(
    ms: Seq<(Seq<char>, Seq<char>)>,
    h: Seq<char>,
    q: Seq<char>,
    key: Seq<char>,
    lit: Seq<char>,
    v: Seq<char>,
)
    requires
        ms.len() > 0,
        jobject(ms).drop_last() == h + q,
        forall|j: int| 0 <= j < key.len() ==> 'a' <= #[trigger] key[j] <= 'z' || key[j] == '_',
        lit == seq![','] + quote(key) + seq![':'],
    ensures
        jobject(ms.push((key, v))).drop_last() == h + (q + lit + v),
        jobject(ms.push((key, v))) == jobject(ms.push((key, v))).drop_last() + seq!['}'],
{
    lemma_member_step(ms, key, lit, v);
    assert(h + q + lit + v =~= h + (q + lit + v));
}

/// Members seven to nine of a task snapshot.
#[verifier::spinoff_prover]
proof fn lemma_task_middle(t: TaskSnap) -> (m9: Seq<(Seq<char>, Seq<char>)>)
    ensures
        m9 == task_members(t).take(9),
        jobject(m9).drop_last() == task_json_head(t) + (",\"tracked\":"@ + jbool(t.track) + ",\"status\":"@
            + serde_str_spec(t.status) + ",\"sort_order\":"@ + dec_int(t.sort_order as int)),
{
    reveal_strlit("tracked");
    reveal_strlit("status");
    reveal_strlit("sort_order");
    reveal_strlit(",\"tracked\":");
    reveal_strlit(",\"status\":");
    reveal_strlit(",\"sort_order\":");
    let h = task_json_head(t);
    let m6 = lemma_task_head(t);
    assert(jobject(m6).drop_last() == h + Seq::<char>::empty()) by {
        assert(h + Seq::<char>::empty() =~= h);
    }
    let m7 = m6.push(("tracked"@, jbool(t.track)));
    assert(",\"tracked\":"@ =~= seq![','] + quote("tracked"@) + seq![':']);
    lemma_tail_step(m6, h, Seq::<char>::empty(), "tracked"@, ",\"tracked\":"@, jbool(t.track));
    let q7 = Seq::<char>::empty() + ",\"tracked\":"@ + jbool(t.track);
    let m8 = m7.push(("status"@, jopt(Some(t.status))));
    assert(",\"status\":"@ =~= seq![','] + quote("status"@) + seq![':']);
    lemma_tail_step(m7, h, q7, "status"@, ",\"status\":"@, jopt(Some(t.status)));
    let q8 = q7 + ",\"status\":"@ + jopt(Some(t.status));
    let m9 = m8.push(("sort_order"@, dec_int(t.sort_order as int)));
    assert(",\"sort_order\":"@ =~= seq![','] + quote("sort_order"@) + seq![':']);
    lemma_tail_step(m8, h, q8, "sort_order"@, ",\"sort_order\":"@, dec_int(t.sort_order as int));
    let q9 = q8 + ",\"sort_order\":"@ + dec_int(t.sort_order as int);
    assert(q9 =~= ",\"tracked\":"@ + jbool(t.track) + ",\"status\":"@ + serde_str_spec(t.status) + ",\"sort_order\":"@
        + dec_int(t.sort_order as int));
    assert(m9 =~= task_members(t).take(9));
    m9
}

/// A task snapshot's text is the object of its members.
#[verifier::spinoff_prover]
proof fn lemma_task_text(t: TaskSnap)
    ensures
        task_json(t) == jobject(task_members(t)),
{
    reveal_strlit("created_at");
    reveal_strlit("initial_time_seconds");
    reveal_strlit("completed_at");
    reveal_strlit(",\"created_at\":");
    reveal_strlit(",\"initial_time_seconds\":");
    reveal_strlit(",\"completed_at\":");
    reveal_strlit("}");
    let h = task_json_head(t);
    let q9 = ",\"tracked\":"@ + jbool(t.track) + ",\"status\":"@ + serde_str_spec(t.status) + ",\"sort_order\":"@
        + dec_int(t.sort_order as int);
    let m9 = lemma_task_middle(t);
    let m10 = m9.push(("created_at"@, jopt(Some(t.created_at))));
    assert(",\"created_at\":"@ =~= seq![','] + quote("created_at"@) + seq![':']);
    lemma_tail_step(m9, h, q9, "created_at"@, ",\"created_at\":"@, jopt(Some(t.created_at)));
    let q10 = q9 + ",\"created_at\":"@ + jopt(Some(t.created_at));
    let m11 = m10.push(("initial_time_seconds"@, jopt_int(t.initial_time_seconds)));
    assert(",\"initial_time_seconds\":"@ =~= seq![','] + quote("initial_time_seconds"@) + seq![':']);
    lemma_tail_step(m10, h, q10, "initial_time_seconds"@, ",\"initial_time_seconds\":"@, jopt_int(t.initial_time_seconds));
    let q11 = q10 + ",\"initial_time_seconds\":"@ + jopt_int(t.initial_time_seconds);
    let m12 = m11.push(("completed_at"@, jopt(t.completed_at)));
    assert(",\"completed_at\":"@ =~= seq![','] + quote("completed_at"@) + seq![':']);
    lemma_tail_step(m11, h, q11, "completed_at"@, ",\"completed_at\":"@, jopt(t.completed_at));
    let q12 = q11 + ",\"completed_at\":"@ + jopt(t.completed_at);
    assert(task_json_tail(t) =~= q12 + "}"@);
    assert(m12 =~= task_members(t));
    assert(jobject(m12) =~= h + (q12 + "}"@));
}

/// The first four members of an entry snapshot.
#[verifier::spinoff_prover]
proof fn lemma_entry_head(e: EntrySnap) -> (m4: Seq<(Seq<char>, Seq<char>)>)
    ensures
        m4 == entry_members(e).take(4),
        jobject(m4).drop_last() == "{\"id\":"@ + serde_str_spec(e.id) + (",\"task_id\":"@ + serde_str_spec(e.task_id)
            + ",\"start_ts\":"@ + serde_str_spec(e.start_ts) + ",\"end_ts\":"@ + jopt(e.end_ts)),
{
    reveal_strlit("task_id");
    reveal_strlit("start_ts");
    reveal_strlit("end_ts");
    reveal_strlit(",\"task_id\":");
    reveal_strlit(",\"start_ts\":");
    reveal_strlit(",\"end_ts\":");
    let m1 = seq![("id"@, jopt(Some(e.id)))];
    lemma_id_member(e.id);
    let h = "{\"id\":"@ + serde_str_spec(e.id);
    assert(jobject(m1).drop_last() == h + Seq::<char>::empty()) by {
        assert(h + Seq::<char>::empty() =~= h);
    }
    let q1 = Seq::<char>::empty();
    let m2 = m1.push(("task_id"@, jopt(Some(e.task_id))));
    assert(",\"task_id\":"@ =~= seq![','] + quote("task_id"@) + seq![':']);
    lemma_tail_step(m1, h, q1, "task_id"@, ",\"task_id\":"@, jopt(Some(e.task_id)));
    let q2 = q1 + ",\"task_id\":"@ + jopt(Some(e.task_id));
    let m3 = m2.push(("start_ts"@, jopt(Some(e.start_ts))));
    assert(",\"start_ts\":"@ =~= seq![','] + quote("start_ts"@) + seq![':']);
    lemma_tail_step(m2, h, q2, "start_ts"@, ",\"start_ts\":"@, jopt(Some(e.start_ts)));
    let q3 = q2 + ",\"start_ts\":"@ + jopt(Some(e.start_ts));
    let m4 = m3.push(("end_ts"@, jopt(e.end_ts)));
    assert(",\"end_ts\":"@ =~= seq![','] + quote("end_ts"@) + seq![':']);
    lemma_tail_step(m3, h, q3, "end_ts"@, ",\"end_ts\":"@, jopt(e.end_ts));
    let q4 = q3 + ",\"end_ts\":"@ + jopt(e.end_ts);
    assert(q4 =~= ",\"task_id\":"@ + serde_str_spec(e.task_id) + ",\"start_ts\":"@ + serde_str_spec(e.start_ts)
        + ",\"end_ts\":"@ + jopt(e.end_ts));
    assert(m4 =~= entry_members(e).take(4));
    m4
}

/// An entry snapshot's text is the object of its members.
#[verifier::spinoff_prover]
proof fn lemma_entry_text(e: EntrySnap)
    ensures
        entry_json(e) == jobject(entry_members(e)),
{
    reveal_strlit("source");
    reveal_strlit("note");
    reveal_strlit("created_at");
    reveal_strlit(",\"source\":");
    reveal_strlit(",\"note\":");
    reveal_strlit(",\"created_at\":");
    reveal_strlit("}");
    let h = "{\"id\":"@ + serde_str_spec(e.id);
    let q4 = ",\"task_id\":"@ + serde_str_spec(e.task_id) + ",\"start_ts\":"@ + serde_str_spec(e.start_ts)
        + ",\"end_ts\":"@ + jopt(e.end_ts);
    let m4 = lemma_entry_head(e);
    let m5 = m4.push(("source"@, jopt(Some(e.source))));
    assert(",\"source\":"@ =~= seq![','] + quote("source"@) + seq![':']);
    lemma_tail_step(m4, h, q4, "source"@, ",\"source\":"@, jopt(Some(e.source)));
    let q5 = q4 + ",\"source\":"@ + jopt(Some(e.source));
    let m6 = m5.push(("note"@, jopt(Some(e.note))));
    assert(",\"note\":"@ =~= seq![','] + quote("note"@) + seq![':']);
    lemma_tail_step(m5, h, q5, "note"@, ",\"note\":"@, jopt(Some(e.note)));
    let q6 = q5 + ",\"note\":"@ + jopt(Some(e.note));
    let m7 = m6.push(("created_at"@, jopt(Some(e.created_at))));
    assert(",\"created_at\":"@ =~= seq![','] + quote("created_at"@) + seq![':']);
    lemma_tail_step(m6, h, q6, "created_at"@, ",\"created_at\":"@, jopt(Some(e.created_at)));
    let q7 = q6 + ",\"created_at\":"@ + jopt(Some(e.created_at));
    assert(m7 =~= entry_members(e));
    assert(entry_json(e) =~= h + (q7 + "}"@));
}

/// A task snapshot's members are flat: pointer-safe keys, each once, and
/// scalar values.
#[verifier::spinoff_prover]
proof fn lemma_task_ok(t: TaskSnap)
    ensures
        flat_ok(task_members(t)),
{
    let ms = task_members(t);
    reveal_strlit("id");
    reveal_strlit("parent_task_id");
    reveal_strlit("project_id");
    reveal_strlit("title");
    reveal_strlit("notes");
    reveal_strlit("deadline");
    reveal_strlit("tracked");
    reveal_strlit("status");
    reveal_strlit("sort_order");
    reveal_strlit("created_at");
    reveal_strlit("initial_time_seconds");
    reveal_strlit("completed_at");
    lemma_simple_jopt(Some(t.id));
    lemma_simple_jopt(t.parent_task_id);
    lemma_simple_jopt(t.project_id);
    lemma_simple_jopt(Some(t.title));
    lemma_simple_jopt(Some(t.notes));
    lemma_simple_jopt(t.deadline);
    assert(scalar_json(jbool(t.track)));
    lemma_simple_jopt(Some(t.status));
    lemma_simple_dec(t.sort_order as int);
    lemma_simple_jopt(Some(t.created_at));
    match t.initial_time_seconds {
        Some(x) => lemma_simple_dec(x as int),
        None => lemma_simple_jopt(None),
    }
    lemma_simple_jopt(t.completed_at);
    assert forall|i: int| 0 <= i < ms.len() implies pointer_safe(#[trigger] ms[i].0) by {
        lemma_plain_literal(ms[i].0);
    }
    assert forall|i: int, j: int| 0 <= i < j < ms.len() implies ms[i].0 != ms[j].0 by {
        assert("id"@.len() == 2 && "id"@[0] == 'i');
        assert("parent_task_id"@.len() == 14 && "parent_task_id"@[0] == 'p');
        assert("project_id"@.len() == 10 && "project_id"@[0] == 'p');
        assert("title"@.len() == 5 && "title"@[0] == 't');
        assert("notes"@.len() == 5 && "notes"@[0] == 'n');
        assert("deadline"@.len() == 8 && "deadline"@[0] == 'd');
        assert("tracked"@.len() == 7 && "tracked"@[0] == 't');
        assert("status"@.len() == 6 && "status"@[0] == 's');
        assert("sort_order"@.len() == 10 && "sort_order"@[0] == 's');
        assert("created_at"@.len() == 10 && "created_at"@[0] == 'c');
        assert("initial_time_seconds"@.len() == 20 && "initial_time_seconds"@[0] == 'i');
        assert("completed_at"@.len() == 12 && "completed_at"@[0] == 'c');
        if ms[i].0 == ms[j].0 {
            assert(ms[i].0.len() == ms[j].0.len() && ms[i].0[0] == ms[j].0[0]);
        }
    }
}

/// An entry snapshot's members are flat.
#[verifier::spinoff_prover]
proof fn lemma_entry_ok(e: EntrySnap)
    ensures
        flat_ok(entry_members(e)),
{
    let ms = entry_members(e);
    reveal_strlit("id");
    reveal_strlit("task_id");
    reveal_strlit("start_ts");
    reveal_strlit("end_ts");
    reveal_strlit("source");
    reveal_strlit("note");
    reveal_strlit("created_at");
    lemma_simple_jopt(Some(e.id));
    lemma_simple_jopt(Some(e.task_id));
    lemma_simple_jopt(Some(e.start_ts));
    lemma_simple_jopt(e.end_ts);
    lemma_simple_jopt(Some(e.source));
    lemma_simple_jopt(Some(e.note));
    lemma_simple_jopt(Some(e.created_at));
    assert forall|i: int| 0 <= i < ms.len() implies pointer_safe(#[trigger] ms[i].0) by {
        lemma_plain_literal(ms[i].0);
    }
    assert forall|i: int, j: int| 0 <= i < j < ms.len() implies ms[i].0 != ms[j].0 by {
        assert("id"@.len() == 2 && "id"@[0] == 'i');
        assert("task_id"@.len() == 7 && "task_id"@[0] == 't');
        assert("start_ts"@.len() == 8 && "start_ts"@[0] == 's');
        assert("end_ts"@.len() == 6 && "end_ts"@[0] == 'e');
        assert("source"@.len() == 6 && "source"@[0] == 's');
        assert("note"@.len() == 4 && "note"@[0] == 'n');
        assert("created_at"@.len() == 10 && "created_at"@[0] == 'c');
        if ms[i].0 == ms[j].0 {
            assert(ms[i].0.len() == ms[j].0.len() && ms[i].0[0] == ms[j].0[0]);
        }
    }
}

/// The objects of a deletion's `tasks` array.
pub open spec fn task_objects(ts: Seq<TaskSnap>) -> Seq<Seq<(Seq<char>, Seq<char>)>> {
    Seq::new(ts.len(), |i: int| task_members(ts[i]))
}

/// The objects of a deletion's `entries` array.
pub open spec fn entry_objects(es: Seq<EntrySnap>) -> Seq<Seq<(Seq<char>, Seq<char>)>> {
    Seq::new(es.len(), |i: int| entry_members(es[i]))
}

/// The arrays of a deletion record are arrays of flat objects.
proof fn lemma_delete_objects(ts: Seq<TaskSnap>, es: Seq<EntrySnap>)
    ensures
        objects_ok(task_objects(ts)),
        objects_ok(entry_objects(es)),
        jarray(Seq::new(ts.len(), |i: int| task_json(ts[i]))) == jobjects(task_objects(ts)),
        jarray(Seq::new(es.len(), |i: int| entry_json(es[i]))) == jobjects(entry_objects(es)),
{
    let to = task_objects(ts);
    let eo = entry_objects(es);
    assert forall|k: int| 0 <= k < to.len() implies flat_ok(#[trigger] to[k]) by {
        lemma_task_ok(ts[k]);
    }
    assert forall|k: int| 0 <= k < eo.len() implies flat_ok(#[trigger] eo[k]) by {
        lemma_entry_ok(es[k]);
    }
    assert(Seq::new(ts.len(), |i: int| task_json(ts[i])) =~= Seq::new(to.len(), |k: int| jobject(to[k]))) by {
        assert forall|i: int| 0 <= i < ts.len() implies #[trigger] task_json(ts[i]) == jobject(to[i]) by {
            lemma_task_text(ts[i]);
        }
    }
    assert(Seq::new(es.len(), |i: int| entry_json(es[i])) =~= Seq::new(eo.len(), |k: int| jobject(eo[k]))) by {
        assert forall|i: int| 0 <= i < es.len() implies #[trigger] entry_json(es[i]) == jobject(eo[i]) by {
            lemma_entry_text(es[i]);
        }
    }
}

proof fn lemma_simple_objects(objs: Seq<Seq<(Seq<char>, Seq<char>)>>)
    requires
        objects_ok(objs),
    ensures
        simple_json(jobjects(objs)),
{
}

/// A deletion record is an object of two array members, of the kinds that
/// read back.
#[verifier::spinoff_prover]
proof fn lemma_delete_members(ts: Seq<TaskSnap>, es: Seq<EntrySnap>) -> (ms: Seq<(Seq<char>, Seq<char>)>)
    ensures
        delete_payload(ts, es) == jobject(ms),
        members_ok(ms),
        objects_ok(task_objects(ts)),
        objects_ok(entry_objects(es)),
        ms == seq![("entries"@, jobjects(entry_objects(es))), ("tasks"@, jobjects(task_objects(ts)))],
{
    lemma_delete_objects(ts, es);
    let ms = lemma_delete_text(ts, es);
    lemma_two_arrays_ok(entry_objects(es), task_objects(ts));
    ms
}

proof fn lemma_delete_text(ts: Seq<TaskSnap>, es: Seq<EntrySnap>) -> (ms: Seq<(Seq<char>, Seq<char>)>)
    ensures
        delete_payload(ts, es) == jobject(ms),
        ms == seq![("entries"@, jobjects(entry_objects(es))), ("tasks"@, jobjects(task_objects(ts)))],
{
    lemma_delete_objects(ts, es);
    let a = jarray(Seq::new(es.len(), |i: int| entry_json(es[i])));
    let b = jarray(Seq::new(ts.len(), |i: int| task_json(ts[i])));
    assert(delete_payload(ts, es) == "{\"entries\":"@ + a + ",\"tasks\":"@ + b + "}"@);
    lemma_entries_tasks_text(jobjects(entry_objects(es)), jobjects(task_objects(ts)));
    seq![("entries"@, jobjects(entry_objects(es))), ("tasks"@, jobjects(task_objects(ts)))]
}

proof fn lemma_entries_tasks_text(a: Seq<char>, b: Seq<char>)
    ensures
        "{\"entries\":"@ + a + ",\"tasks\":"@ + b + "}"@ == jobject(seq![("entries"@, a), ("tasks"@, b)]),
{
    reveal_strlit("entries");
    reveal_strlit("tasks");
    reveal_strlit("{\"entries\":");
    reveal_strlit(",\"tasks\":");
    reveal_strlit("}");
    assert("{\"entries\":"@ =~= seq!['{'] + quote("entries"@) + seq![':']);
    assert(",\"tasks\":"@ =~= seq![','] + quote("tasks"@) + seq![':']);
    lemma_plain_literal("entries"@);
    lemma_key_literal("{\"entries\":"@, '{', "entries"@);
    let m1 = seq![("entries"@, a)];
    lemma_jobject_one("entries"@, a);
    lemma_member_step(m1, "tasks"@, ",\"tasks\":"@, b);
    let m2 = m1.push(("tasks"@, b));
    assert(jobject(m1).drop_last() =~= "{\"entries\":"@ + a);
    assert(m2 =~= seq![("entries"@, a), ("tasks"@, b)]);
    assert("{\"entries\":"@ + a + ",\"tasks\":"@ + b + "}"@ =~= jobject(m2));
}

proof fn lemma_two_arrays_ok(eo: Seq<Seq<(Seq<char>, Seq<char>)>>, to: Seq<Seq<(Seq<char>, Seq<char>)>>)
    requires
        objects_ok(eo),
        objects_ok(to),
    ensures
        members_ok(seq![("entries"@, jobjects(eo)), ("tasks"@, jobjects(to))]),
{
    reveal_strlit("entries");
    reveal_strlit("tasks");
    lemma_plain_literal("entries"@);
    lemma_plain_literal("tasks"@);
    lemma_simple_objects(eo);
    lemma_simple_objects(to);
    assert("entries"@[0] != "tasks"@[0]);
}

/// The position of a field of an object of an array member.
pub open spec fn elem_at(
    p: Seq<char>,
    ms: Seq<(Seq<char>, Seq<char>)>,
    m: int,
    objs: Seq<Seq<(Seq<char>, Seq<char>)>>,
    k: int,
    j: int,
) -> bool {
    p == jobject(ms) && members_ok(ms) && 0 <= m < ms.len() && ms[m].1 == jobjects(objs) && objects_ok(objs) && 0 <= k
        < objs.len() && 0 <= j < objs[k].len()
}

proof fn lemma_elem_str(
    p: Seq<char>,
    ms: Seq<(Seq<char>, Seq<char>)>,
    m: int,
    objs: Seq<Seq<(Seq<char>, Seq<char>)>>,
    k: int,
    j: int,
    v: Option<Seq<char>>,
)
    requires
        elem_at(p, ms, m, objs, k, j),
        objs[k][j].1 == jopt(v),
        elem_str_reads(p, field_ptr(ms[m].0, k as nat, objs[k][j].0)),
    ensures
        json_string_at(p, field_ptr(ms[m].0, k as nat, objs[k][j].0)) == v,
{
}

proof fn lemma_elem_opt(
    p: Seq<char>,
    ms: Seq<(Seq<char>, Seq<char>)>,
    m: int,
    objs: Seq<Seq<(Seq<char>, Seq<char>)>>,
    k: int,
    j: int,
    v: Option<Seq<char>>,
)
    requires
        elem_at(p, ms, m, objs, k, j),
        objs[k][j].1 == jopt(v),
        elem_opt_reads(p, field_ptr(ms[m].0, k as nat, objs[k][j].0)),
    ensures
        opt_str_field(p, field_ptr(ms[m].0, k as nat, objs[k][j].0)) == Some(v),
{
}

proof fn lemma_elem_bool(
    p: Seq<char>,
    ms: Seq<(Seq<char>, Seq<char>)>,
    m: int,
    objs: Seq<Seq<(Seq<char>, Seq<char>)>>,
    k: int,
    j: int,
    b: bool,
)
    requires
        elem_at(p, ms, m, objs, k, j),
        objs[k][j].1 == jbool(b),
        elem_bool_reads(p, field_ptr(ms[m].0, k as nat, objs[k][j].0)),
    ensures
        json_bool_at(p, field_ptr(ms[m].0, k as nat, objs[k][j].0)) == Some(b),
{
}

proof fn lemma_elem_whole(
    p: Seq<char>,
    ms: Seq<(Seq<char>, Seq<char>)>,
    m: int,
    objs: Seq<Seq<(Seq<char>, Seq<char>)>>,
    k: int,
    j: int,
    x: int,
)
    requires
        elem_at(p, ms, m, objs, k, j),
        i64::MIN <= x <= i64::MAX,
        objs[k][j].1 == dec_int(x),
        elem_whole_reads(p, field_ptr(ms[m].0, k as nat, objs[k][j].0)),
    ensures
        whole_field(p, field_ptr(ms[m].0, k as nat, objs[k][j].0)) == Some(x as i64),
{
}

proof fn lemma_elem_opt_int(
    p: Seq<char>,
    ms: Seq<(Seq<char>, Seq<char>)>,
    m: int,
    objs: Seq<Seq<(Seq<char>, Seq<char>)>>,
    k: int,
    j: int,
    o: Option<i64>,
)
    requires
        elem_at(p, ms, m, objs, k, j),
        objs[k][j].1 == jopt_int(o),
        opt_int_reads(p, field_ptr(ms[m].0, k as nat, objs[k][j].0)),
    ensures
        opt_int_field(p, field_ptr(ms[m].0, k as nat, objs[k][j].0)) == Some(o),
{
    match o {
        Some(x) => {
            assert(objs[k][j].1 == dec_int(x as int));
        },
        None => {
            assert(objs[k][j].1 == jopt(None));
        },
    }
}

/// Where the tasks of a deletion record stand: member 1, object `i` of it
/// being task `i`'s members.
#[verifier::spinoff_prover]
proof fn lemma_task_place(ts: Seq<TaskSnap>, es: Seq<EntrySnap>, i: int) -> (ms: Seq<(Seq<char>, Seq<char>)>)
    requires
        0 <= i < ts.len(),
    ensures
        delete_payload(ts, es) == jobject(ms),
        members_ok(ms),
        ms.len() == 2,
        ms[1] == ("tasks"@, jobjects(task_objects(ts))),
        objects_ok(task_objects(ts)),
        task_objects(ts).len() == ts.len(),
        task_objects(ts)[i] == task_members(ts[i]),
        task_members(ts[i]).len() == 12,
{
    let ms = lemma_delete_members(ts, es);
    assert(task_objects(ts)[i] == task_members(ts[i]));
    assert(task_members(ts[i]).len() == 12);
    assert(ms[1] == ("tasks"@, jobjects(task_objects(ts))));
    ms
}

/// Where the entries of a deletion record stand: member 0.
#[verifier::spinoff_prover]
proof fn lemma_entry_place(ts: Seq<TaskSnap>, es: Seq<EntrySnap>, i: int) -> (ms: Seq<(Seq<char>, Seq<char>)>)
    requires
        0 <= i < es.len(),
    ensures
        delete_payload(ts, es) == jobject(ms),
        members_ok(ms),
        ms.len() == 2,
        ms[0] == ("entries"@, jobjects(entry_objects(es))),
        objects_ok(entry_objects(es)),
        entry_objects(es).len() == es.len(),
        entry_objects(es)[i] == entry_members(es[i]),
        entry_members(es[i]).len() == 7,
{
    let ms = lemma_delete_members(ts, es);
    assert(entry_objects(es)[i] == entry_members(es[i]));
    assert(entry_members(es[i]).len() == 7);
    assert(ms[0] == ("entries"@, jobjects(entry_objects(es))));
    ms
}

/// Object `i` of a deletion record's `tasks` array reads back as the task
/// it was written from, given what each field's lookup promises.
#[verifier::spinoff_prover]
proof fn lemma_task_reads(p: Seq<char>, i: nat, ts: Seq<TaskSnap>, es: Seq<EntrySnap>)
    requires
        p == delete_payload(ts, es),
        i < ts.len(),
        elem_str_reads(p, field_ptr("tasks"@, i, "id"@)),
        elem_opt_reads(p, field_ptr("tasks"@, i, "parent_task_id"@)),
        elem_opt_reads(p, field_ptr("tasks"@, i, "project_id"@)),
        elem_str_reads(p, field_ptr("tasks"@, i, "title"@)),
        elem_str_reads(p, field_ptr("tasks"@, i, "notes"@)),
        elem_opt_reads(p, field_ptr("tasks"@, i, "deadline"@)),
        elem_bool_reads(p, field_ptr("tasks"@, i, "tracked"@)),
        elem_str_reads(p, field_ptr("tasks"@, i, "status"@)),
        elem_whole_reads(p, field_ptr("tasks"@, i, "sort_order"@)),
        elem_str_reads(p, field_ptr("tasks"@, i, "created_at"@)),
        opt_int_reads(p, field_ptr("tasks"@, i, "initial_time_seconds"@)),
        elem_opt_reads(p, field_ptr("tasks"@, i, "completed_at"@)),
    ensures
        task_snap_at(p, i) == Some(ts[i as int]),
{
    let ms = lemma_task_place(ts, es, i as int);
    let objs = task_objects(ts);
    let t = ts[i as int];
    reveal_strlit("id");
    reveal_strlit("parent_task_id");
    reveal_strlit("project_id");
    reveal_strlit("title");
    reveal_strlit("notes");
    reveal_strlit("deadline");
    reveal_strlit("tracked");
    reveal_strlit("status");
    reveal_strlit("sort_order");
    reveal_strlit("created_at");
    reveal_strlit("initial_time_seconds");
    reveal_strlit("completed_at");
    reveal_strlit("tasks");
    assert(objs[i as int][0].0 == "id"@);
    lemma_elem_str(p, ms, 1, objs, i as int, 0, Some(t.id));
    assert(objs[i as int][1].0 == "parent_task_id"@);
    lemma_elem_opt(p, ms, 1, objs, i as int, 1, t.parent_task_id);
    assert(objs[i as int][2].0 == "project_id"@);
    lemma_elem_opt(p, ms, 1, objs, i as int, 2, t.project_id);
    assert(objs[i as int][3].0 == "title"@);
    lemma_elem_str(p, ms, 1, objs, i as int, 3, Some(t.title));
    assert(objs[i as int][4].0 == "notes"@);
    lemma_elem_str(p, ms, 1, objs, i as int, 4, Some(t.notes));
    assert(objs[i as int][5].0 == "deadline"@);
    lemma_elem_opt(p, ms, 1, objs, i as int, 5, t.deadline);
    assert(objs[i as int][6].0 == "tracked"@);
    lemma_elem_bool(p, ms, 1, objs, i as int, 6, t.track);
    assert(objs[i as int][7].0 == "status"@);
    lemma_elem_str(p, ms, 1, objs, i as int, 7, Some(t.status));
    assert(objs[i as int][8].0 == "sort_order"@);
    lemma_elem_whole(p, ms, 1, objs, i as int, 8, t.sort_order as int);
    assert(objs[i as int][9].0 == "created_at"@);
    lemma_elem_str(p, ms, 1, objs, i as int, 9, Some(t.created_at));
    assert(objs[i as int][10].0 == "initial_time_seconds"@);
    lemma_elem_opt_int(p, ms, 1, objs, i as int, 10, t.initial_time_seconds);
    assert(objs[i as int][11].0 == "completed_at"@);
    lemma_elem_opt(p, ms, 1, objs, i as int, 11, t.completed_at);
}

/// Object `i` of a deletion record's `entries` array reads back as the
/// entry it was written from, given what each field's lookup promises.
#[verifier::spinoff_prover]
proof fn lemma_entry_reads(p: Seq<char>, i: nat, ts: Seq<TaskSnap>, es: Seq<EntrySnap>)
    requires
        p == delete_payload(ts, es),
        i < es.len(),
        elem_str_reads(p, field_ptr("entries"@, i, "id"@)),
        elem_str_reads(p, field_ptr("entries"@, i, "task_id"@)),
        elem_str_reads(p, field_ptr("entries"@, i, "start_ts"@)),
        elem_opt_reads(p, field_ptr("entries"@, i, "end_ts"@)),
        elem_str_reads(p, field_ptr("entries"@, i, "source"@)),
        elem_str_reads(p, field_ptr("entries"@, i, "note"@)),
        elem_str_reads(p, field_ptr("entries"@, i, "created_at"@)),
    ensures
        entry_snap_at(p, i) == Some(es[i as int]),
{
    let ms = lemma_entry_place(ts, es, i as int);
    let objs = entry_objects(es);
    let e = es[i as int];
    reveal_strlit("id");
    reveal_strlit("task_id");
    reveal_strlit("start_ts");
    reveal_strlit("end_ts");
    reveal_strlit("source");
    reveal_strlit("note");
    reveal_strlit("created_at");
    reveal_strlit("entries");
    assert(objs[i as int][0].0 == "id"@);
    lemma_elem_str(p, ms, 0, objs, i as int, 0, Some(e.id));
    assert(objs[i as int][1].0 == "task_id"@);
    lemma_elem_str(p, ms, 0, objs, i as int, 1, Some(e.task_id));
    assert(objs[i as int][2].0 == "start_ts"@);
    lemma_elem_str(p, ms, 0, objs, i as int, 2, Some(e.start_ts));
    assert(objs[i as int][3].0 == "end_ts"@);
    lemma_elem_opt(p, ms, 0, objs, i as int, 3, e.end_ts);
    assert(objs[i as int][4].0 == "source"@);
    lemma_elem_str(p, ms, 0, objs, i as int, 4, Some(e.source));
    assert(objs[i as int][5].0 == "note"@);
    lemma_elem_str(p, ms, 0, objs, i as int, 5, Some(e.note));
    assert(objs[i as int][6].0 == "created_at"@);
    lemma_elem_str(p, ms, 0, objs, i as int, 6, Some(e.created_at));
}

/// What [`len_at`] promises of an array-of-objects member, stated of the
/// name.
pub open spec fn len_reads(p: Seq<char>, ptr: Seq<char>) -> bool {
    forall|ms: Seq<(Seq<char>, Seq<char>)>, i: int, objs: Seq<Seq<(Seq<char>, Seq<char>)>>|
        #![trigger jobject(ms), ms[i], jobjects(objs)]
        p == jobject(ms) && members_ok(ms) && 0 <= i < ms.len() && ms[i].1 == jobjects(objs) && objects_ok(objs)
            && ptr == top_ptr(ms[i].0) ==> json_len_at(p, ptr) == Some(objs.len())
}

/// A deletion record's arrays have as many elements as were written.
pub open spec fn deletes_read(p: Seq<char>) -> bool {
    forall|ts: Seq<TaskSnap>, es: Seq<EntrySnap>|
        p == #[trigger] delete_payload(ts, es) ==> json_len_at(p, top_ptr("tasks"@)) == Some(ts.len())
            && json_len_at(p, top_ptr("entries"@)) == Some(es.len())
}

/// The first `upto` tasks of a deletion record read back.
pub open spec fn tasks_read_upto(p: Seq<char>, upto: nat) -> bool {
    forall|ts: Seq<TaskSnap>, es: Seq<EntrySnap>, j: int|
        p == #[trigger] delete_payload(ts, es) && 0 <= j < upto && j < ts.len() ==> task_snap_at(p, j as nat) == Some(
            #[trigger] ts[j],
        )
}

/// The first `upto` entries of a deletion record read back.
pub open spec fn entries_read_upto(p: Seq<char>, upto: nat) -> bool {
    forall|ts: Seq<TaskSnap>, es: Seq<EntrySnap>, j: int|
        p == #[trigger] delete_payload(ts, es) && 0 <= j < upto && j < es.len() ==> entry_snap_at(p, j as nat) == Some(
            #[trigger] es[j],
        )
}

proof fn lemma_delete_lens(p: Seq<char>)
    requires
        len_reads(p, top_ptr("tasks"@)),
        len_reads(p, top_ptr("entries"@)),
    ensures
        deletes_read(p),
{
    assert forall|ts: Seq<TaskSnap>, es: Seq<EntrySnap>| p == #[trigger] delete_payload(ts, es) implies json_len_at(
        p,
        top_ptr("tasks"@),
    ) == Some(ts.len()) && json_len_at(p, top_ptr("entries"@)) == Some(es.len()) by {
        let ms = lemma_delete_members(ts, es);
        assert(ms[1].0 == "tasks"@ && ms[1].1 == jobjects(task_objects(ts)));
        assert(ms[0].0 == "entries"@ && ms[0].1 == jobjects(entry_objects(es)));
    }
}

proof fn lemma_tasks_read_step(p: Seq<char>, i: nat)
    requires
        tasks_read_upto(p, i),
        forall|ts: Seq<TaskSnap>, es: Seq<EntrySnap>|
            p == #[trigger] delete_payload(ts, es) && i < ts.len() ==> task_snap_at(p, i) == Some(ts[i as int]),
    ensures
        tasks_read_upto(p, i + 1),
{
}

proof fn lemma_entries_read_step(p: Seq<char>, i: nat)
    requires
        entries_read_upto(p, i),
        forall|ts: Seq<TaskSnap>, es: Seq<EntrySnap>|
            p == #[trigger] delete_payload(ts, es) && i < es.len() ==> entry_snap_at(p, i) == Some(es[i as int]),
    ensures
        entries_read_upto(p, i + 1),
{
}

proof fn lemma_unread_task(p: Seq<char>, i: nat)
    requires
        task_snap_at(p, i) is None,
        json_len_at(p, top_ptr("tasks"@)) is Some,
        i < json_len_at(p, top_ptr("tasks"@))->0,
        deletes_read(p),
        forall|ts: Seq<TaskSnap>, es: Seq<EntrySnap>|
            p == #[trigger] delete_payload(ts, es) && i < ts.len() ==> task_snap_at(p, i) == Some(ts[i as int]),
    ensures
        forall|ts: Seq<TaskSnap>, es: Seq<EntrySnap>| p != #[trigger] delete_payload(ts, es),
{
}

proof fn lemma_unread_entry(p: Seq<char>, i: nat)
    requires
        entry_snap_at(p, i) is None,
        json_len_at(p, top_ptr("entries"@)) is Some,
        i < json_len_at(p, top_ptr("entries"@))->0,
        deletes_read(p),
        forall|ts: Seq<TaskSnap>, es: Seq<EntrySnap>|
            p == #[trigger] delete_payload(ts, es) && i < es.len() ==> entry_snap_at(p, i) == Some(es[i as int]),
    ensures
        forall|ts: Seq<TaskSnap>, es: Seq<EntrySnap>| p != #[trigger] delete_payload(ts, es),
{
}

/// With every task and entry read back, the plan restores them all.
proof fn lemma_delete_plan(p: Seq<char>, n: nat, m: nat, steps: Seq<StepView>)
    requires
        json_len_at(p, top_ptr("tasks"@)) == Some(n),
        json_len_at(p, top_ptr("entries"@)) == Some(m),
        deletes_read(p),
        tasks_read_upto(p, n),
        entries_read_upto(p, m),
        steps == Seq::new(n, |i: int| StepView::RestoreTask(task_snap_at(p, i as nat)->0)) + Seq::new(
            m,
            |i: int| StepView::RestoreEntry(entry_snap_at(p, i as nat)->0),
        ),
    ensures
        forall|ts: Seq<TaskSnap>, es: Seq<EntrySnap>|
            p == #[trigger] delete_payload(ts, es) ==> steps == Seq::new(
                ts.len(),
                |k: int| StepView::RestoreTask(ts[k]),
            ) + Seq::new(es.len(), |k: int| StepView::RestoreEntry(es[k])),
{
    assert forall|ts: Seq<TaskSnap>, es: Seq<EntrySnap>| p == #[trigger] delete_payload(ts, es) implies steps
        == Seq::new(ts.len(), |k: int| StepView::RestoreTask(ts[k])) + Seq::new(
        es.len(),
        |k: int| StepView::RestoreEntry(es[k]),
    ) by {
        assert(n == ts.len() && m == es.len());
        assert forall|j: int| 0 <= j < n implies task_snap_at(p, j as nat) == Some(#[trigger] ts[j]) by {}
        assert forall|j: int| 0 <= j < m implies entry_snap_at(p, j as nat) == Some(#[trigger] es[j]) by {}
        assert(steps =~= Seq::new(ts.len(), |k: int| StepView::RestoreTask(ts[k])) + Seq::new(
            es.len(),
            |k: int| StepView::RestoreEntry(es[k]),
        ));
    }
}

// --- Reading a record back ----------------------------------------------------------

/// The task an action's payload is about, by the payload's own shape: the
/// first snapshot task of a delete, the `id` member otherwise.
pub open spec fn task_id_spec(kind: Seq<char>, p: Seq<char>) -> Option<Seq<char>> {
    if kind == "delete_task"@ {
        json_string_at(p, field_ptr("tasks"@, 0, "id"@))
    } else {
        json_string_at(p, top_ptr("id"@))
    }
}

/// [`task_id_spec`].
pub fn task_id_of(kind: &str, payload: &str) -> (r: Option<String>)
    ensures
        opt_view(r) == task_id_spec(kind@, payload@),
{
    if crate::db::same_text(kind, "delete_task") {
        string_at(payload, make_field_ptr("tasks", 0, "id").as_str())
    } else {
        string_at(payload, make_top_ptr("id").as_str())
    }
}

/// The project a deleted subtree's root was in when it was deleted, as its
/// snapshot recorded it.
pub fn snapshot_project_of(payload: &str) -> (r: Option<String>)
    ensures
        opt_view(r) == json_string_at(payload@, field_ptr("tasks"@, 0, "project_id"@)),
{
    string_at(payload, make_field_ptr("tasks", 0, "project_id").as_str())
}

// --- Parents in a quick-creation import -------------------------------------------------

/// The tasks still open for children after the first `k` of a list with the
/// given depths, outermost first: each task closes every open task at its
/// own depth or deeper, then opens itself.
pub open spec fn open_chain(depths: Seq<usize>, k: nat) -> Seq<nat>
    decreases k,
{
    if k == 0 || k > depths.len() {
        seq![]
    } else {
        let s = open_chain(depths, (k - 1) as nat);
        let d = depths[k - 1] as int;
        (if d < s.len() {
            s.take(d)
        } else {
            s
        }).push((k - 1) as nat)
    }
}

/// The parent of task `k`: the open task one level up, if there is one.
pub open spec fn parent_slot(depths: Seq<usize>, k: nat) -> Option<nat> {
    let d = depths[k as int] as int;
    let s = open_chain(depths, k);
    if d == 0 || d - 1 >= s.len() {
        None
    } else {
        Some(s[d - 1])
    }
}

/// [`parent_slot`] for every task, in order.
pub fn parent_slots(depths: &Vec<usize>) -> (r: Vec<Option<usize>>)
    ensures
        r.len() == depths.len(),
        forall|k: int|
            0 <= k < depths.len() ==> match #[trigger] r@[k] {
                Some(j) => parent_slot(depths@, k as nat) == Some(j as nat) && j < k,
                None => parent_slot(depths@, k as nat) is None,
            },
{
    let mut stack: Vec<usize> = Vec::new();
    let mut out: Vec<Option<usize>> = Vec::new();
    let mut k: usize = 0;
    while k < depths.len()
        invariant
            k <= depths.len(),
            out.len() == k,
            stack@.map_values(|x: usize| x as nat) == open_chain(depths@, k as nat),
            forall|i: int| 0 <= i < stack.len() ==> #[trigger] stack@[i] < k,
            forall|m: int|
                0 <= m < k ==> match #[trigger] out@[m] {
                    Some(j) => parent_slot(depths@, m as nat) == Some(j as nat) && j < m,
                    None => parent_slot(depths@, m as nat) is None,
                },
        decreases depths.len() - k,
    {
        let d = depths[k];
        let ghost s = open_chain(depths@, k as nat);
        let slot = if d == 0 || d - 1 >= stack.len() {
            None
        } else {
            Some(stack[d - 1])
        };
        proof {
            assert(stack@.map_values(|x: usize| x as nat).len() == stack.len());
            if d > 0 && d - 1 < stack.len() {
                assert(stack@.map_values(|x: usize| x as nat)[d - 1] == stack@[d - 1] as nat);
            }
        }
        out.push(slot);
        let ghost before = stack@;
        stack.truncate(d);
        stack.push(k);
        proof {
            assert forall|i: int| 0 <= i < stack.len() implies #[trigger] stack@[i] < k + 1 by {
                if i < stack.len() - 1 {
                    assert(stack@[i] == before[i]);
                }
            }
            assert(open_chain(depths@, (k + 1) as nat) == (if (d as int) < s.len() {
                s.take(d as int)
            } else {
                s
            }).push(k as nat));
            assert(stack@.map_values(|x: usize| x as nat) =~= open_chain(depths@, (k + 1) as nat));
        }
        k += 1;
    }
    out
}

/// Depths as a well-formed outline: the first at 0, each at most one deeper
/// than the one before.
pub open spec fn well_nested(depths: Seq<usize>) -> bool {
    &&& (depths.len() > 0 ==> depths[0] == 0)
    &&& forall|i: int| 0 < i < depths.len() ==> #[trigger] depths[i] <= depths[i - 1] + 1
}

/// After the first `k >= 1` tasks of a well-nested outline, the open chain
/// holds one task per level down to the `k-1`th task's depth; the task
/// open at level `i` is at depth `i`, and every later task is deeper.
proof fn lemma_open_chain(depths: Seq<usize>, k: nat)
    requires
        well_nested(depths),
        1 <= k <= depths.len(),
    ensures
        open_chain(depths, k).len() == depths[k - 1] + 1,
        forall|i: int|
            0 <= i < open_chain(depths, k).len() ==> {
                &&& #[trigger] open_chain(depths, k)[i] < k
                &&& depths[open_chain(depths, k)[i] as int] == i
                &&& forall|m: int| open_chain(depths, k)[i] < m < k ==> depths[m] > i
            },
    decreases k,
{
    if k == 1 {
        assert(open_chain(depths, 0) =~= seq![]);
    } else {
        lemma_open_chain(depths, (k - 1) as nat);
        let s = open_chain(depths, (k - 1) as nat);
        let d = depths[k - 1] as int;
        assert(d <= depths[k - 2] + 1);
        let t = if d < s.len() {
            s.take(d)
        } else {
            s
        };
        assert(t.len() == d);
        assert forall|i: int| 0 <= i < t.len() implies t[i] == s[i] by {}
        let s2 = open_chain(depths, k);
        assert(s2 == t.push((k - 1) as nat));
        assert forall|i: int| 0 <= i < s2.len() implies {
            &&& #[trigger] s2[i] < k
            &&& depths[s2[i] as int] == i
            &&& forall|m: int| s2[i] < m < k ==> depths[m] > i
        } by {
            if i < d {
                assert(s2[i] == s[i]);
                assert forall|m: int| s2[i] < m < k implies depths[m] > i by {
                    if m < k - 1 {
                    } else {
                        assert(m == k - 1);
                    }
                }
            } else {
                assert(s2[i] == k - 1);
            }
        }
    }
}

/// In a well-nested outline, a task's parent is the latest task before it
/// one level up, and every task in between sits deeper than that parent: an
/// import attaches each task under the task its indentation names.
pub proof fn lemma_parent_is_latest_one_level_up(depths: Seq<usize>, k: nat)
    requires
        well_nested(depths),
        k < depths.len(),
        depths[k as int] > 0,
    ensures
        parent_slot(depths, k) matches Some(j) && j < k && depths[j as int] + 1 == depths[k as int]
            && forall|m: int| j < m < k ==> depths[m] >= depths[k as int],
{
    assert(k > 0);
    lemma_open_chain(depths, k);
    let s = open_chain(depths, k);
    let d = depths[k as int] as int;
    assert(d <= depths[k - 1] + 1);
    assert(d - 1 < s.len());
    let j = s[d - 1];
    assert(j < k);
    assert(depths[j as int] == d - 1);
    assert forall|m: int| j < m < k implies depths[m] >= depths[k as int] by {
        assert(depths[m] > d - 1);
    }
}

} // verus!
