//! The configuration file: a small JSON document with a `pets` array, one
//! object per pet. Reading is a forgiving scanner that picks out the fields
//! it knows; writing produces the layout that the scanner reads back.
use vstd::prelude::*;

use crate::text::{string_of, to_chars, trim, trim_range};

verus! {

// ---------------------------------------------------------------------------
// The text model: every scanning step maps the rest of the text to the rest
// after the step.
// ---------------------------------------------------------------------------

/// The whitespace that the scanner skips between tokens.
pub open spec fn is_ws(c: char) -> bool {
    c == ' ' || c == '\n' || c == '\t' || c == '\r'
}

/// The characters that end an unquoted value.
pub open spec fn is_delim(c: char) -> bool {
    c == ',' || c == '}' || c == ']'
}

/// `t` without its leading scanner whitespace.
pub open spec fn skip_ws_s(t: Seq<char>) -> Seq<char>
    decreases t.len(),
{
    if t.len() > 0 && is_ws(t[0]) {
        skip_ws_s(t.drop_first())
    } else {
        t
    }
}

/// The number of leading characters of `t` before the first delimiter.
pub open spec fn delim_len(t: Seq<char>) -> nat
    decreases t.len(),
{
    if t.len() == 0 || is_delim(t[0]) {
        0
    } else {
        1 + delim_len(t.drop_first())
    }
}

/// The number of leading characters of `t` before the first `"`.
pub open spec fn quote_len(t: Seq<char>) -> nat
    decreases t.len(),
{
    if t.len() == 0 || t[0] == '"' {
        0
    } else {
        1 + quote_len(t.drop_first())
    }
}

/// `t` without its first character, if it has one.
pub open spec fn skip1(t: Seq<char>) -> Seq<char> {
    if t.len() > 0 {
        t.drop_first()
    } else {
        t
    }
}

/// A value read at the start of `t`, and the rest after it: a quoted string
/// runs to the next `"`, anything else to the next delimiter.
pub open spec fn read_value_s(t: Seq<char>) -> (Seq<char>, Seq<char>) {
    let u = skip_ws_s(t);
    if u.len() > 0 && u[0] == '"' {
        let v = u.drop_first();
        let q = quote_len(v) as int;
        (v.take(q), skip1(v.skip(q)))
    } else {
        let d = delim_len(u) as int;
        (u.take(d), u.skip(d))
    }
}

/// The rest of `t`, the text after an opening `"`, after the string it
/// starts: past the closing `"`, where a backslash escapes the character
/// after it; a string that is not closed runs to the end.
pub open spec fn string_rest(t: Seq<char>) -> Seq<char>
    decreases t.len(),
{
    if t.len() == 0 {
        t
    } else if t[0] == '"' {
        t.drop_first()
    } else if t[0] == '\\' && t.len() >= 2 {
        string_rest(t.drop_first().drop_first())
    } else {
        string_rest(t.drop_first())
    }
}

pub proof fn lemma_string_rest_len(t: Seq<char>)
    ensures
        string_rest(t).len() <= t.len(),
    decreases t.len(),
{
    if t.len() > 0 && t[0] != '"' {
        if t[0] == '\\' && t.len() >= 2 {
            lemma_string_rest_len(t.drop_first().drop_first());
        } else {
            lemma_string_rest_len(t.drop_first());
        }
    }
}

/// The rest of `t` after skipping a value nested `depth` deep: up to the
/// bracket that closes the enclosing level, or past the next comma at the
/// outer level; strings are passed over whole.
pub open spec fn scan_value(t: Seq<char>, depth: nat) -> Seq<char>
    decreases t.len(),
{
    if t.len() == 0 {
        t
    } else {
        let c = t[0];
        if c == '"' {
            proof {
                lemma_string_rest_len(t.drop_first());
            }
            scan_value(string_rest(t.drop_first()), depth)
        } else if c == '[' || c == '{' {
            scan_value(t.drop_first(), depth + 1)
        } else if c == ']' || c == '}' {
            if depth == 0 {
                t
            } else {
                scan_value(t.drop_first(), (depth - 1) as nat)
            }
        } else if c == ',' && depth == 0 {
            t.drop_first()
        } else {
            scan_value(t.drop_first(), depth)
        }
    }
}

/// The rest of `t` after skipping one value of a key that is not read.
pub open spec fn skip_value_s(t: Seq<char>) -> Seq<char> {
    scan_value(skip_ws_s(t), 0)
}

/// What the scanner keeps of one pet: the numeric fields as their trimmed
/// text, the facing as written, the flags as booleans.
pub ghost struct PetView {
    pub rx: Seq<char>,
    pub ry: Seq<char>,
    pub facing: Seq<char>,
    pub scale: Seq<char>,
    pub on_top: bool,
    pub no_move: bool,
}

/// The pet that a config file starts from and an object starts from: no
/// position, facing left, scale 0.72, on top, allowed to move.
pub open spec fn default_pet() -> PetView {
    PetView {
        rx: "null"@,
        ry: "null"@,
        facing: "left"@,
        scale: "0.72"@,
        on_top: true,
        no_move: false,
    }
}

/// `e` with the field named `key` set from the raw value `val`; unknown keys
/// change nothing.
pub open spec fn apply_field(e: PetView, key: Seq<char>, val: Seq<char>) -> PetView {
    if key == "facing"@ {
        PetView { facing: val, ..e }
    } else if key == "scale"@ {
        PetView { scale: trim(val), ..e }
    } else if key == "on_top"@ {
        PetView { on_top: trim(val) == "true"@, ..e }
    } else if key == "no_move"@ {
        PetView { no_move: trim(val) == "true"@, ..e }
    } else if key == "rx"@ {
        PetView { rx: trim(val), ..e }
    } else if key == "ry"@ {
        PetView { ry: trim(val), ..e }
    } else {
        e
    }
}

/// The text after a key's closing quote, past whitespace and one `:`.
pub open spec fn after_colon(t: Seq<char>) -> Seq<char> {
    let a = skip_ws_s(t);
    if a.len() > 0 && a[0] == ':' {
        a.drop_first()
    } else {
        a
    }
}

/// The fields of a pet object after its `{`, read into `e`, and the rest
/// after the closing `}`.
pub open spec fn obj_fields(t: Seq<char>, e: PetView) -> (PetView, Seq<char>)
    decreases t.len(),
{
    let u = skip_ws_s(t);
    if u.len() == 0 {
        (e, u)
    } else if u[0] == '}' {
        (e, u.drop_first())
    } else if u[0] != '"' {
        proof {
            lemma_skip_ws_suffix(t);
        }
        obj_fields(u.drop_first(), e)
    } else {
        let v = u.drop_first();
        let q = quote_len(v) as int;
        let key = v.take(q);
        let b = after_colon(skip1(v.skip(q)));
        let (val, r) = read_value_s(skip_ws_s(b));
        proof {
            lemma_skip_ws_suffix(t);
            lemma_quote_len_bound(v);
            lemma_after_colon_len(skip1(v.skip(q)));
            lemma_skip_ws_suffix(b);
            lemma_read_value_len(skip_ws_s(b));
        }
        obj_fields(r, apply_field(e, key, val))
    }
}

/// A pet object at the start of `t` (which starts with `{`), and the rest.
pub open spec fn pet_object_s(t: Seq<char>) -> (PetView, Seq<char>) {
    obj_fields(t.drop_first(), default_pet())
}

/// The items of a pets array after its `[`, appended to `acc`, and the rest
/// after the closing `]`; anything that is not an object is passed over.
pub open spec fn array_items(t: Seq<char>, acc: Seq<PetView>) -> (Seq<PetView>, Seq<char>)
    decreases t.len(),
{
    let u = skip_ws_s(t);
    if u.len() == 0 {
        (acc, u)
    } else if u[0] == ']' {
        (acc, u.drop_first())
    } else if u[0] == '{' {
        let (p, r) = pet_object_s(u);
        proof {
            lemma_skip_ws_suffix(t);
            lemma_obj_fields_len(u.drop_first(), default_pet());
        }
        array_items(r, acc.push(p))
    } else {
        proof {
            lemma_skip_ws_suffix(t);
        }
        array_items(u.drop_first(), acc)
    }
}

/// The pets of an array at the start of `t`, and the rest; where `t` holds
/// no `[` after whitespace, no pets and the text from that point.
pub open spec fn pets_array_s(t: Seq<char>) -> (Seq<PetView>, Seq<char>) {
    let u = skip_ws_s(t);
    if u.len() == 0 || u[0] != '[' {
        (Seq::empty(), u)
    } else {
        array_items(u.drop_first(), Seq::empty())
    }
}

/// The pets after scanning the rest `t` of a config file from `pets`: each
/// `pets` key whose array holds at least one object replaces them.
pub open spec fn config_scan(t: Seq<char>, pets: Seq<PetView>) -> Seq<PetView>
    decreases t.len(),
{
    let u = skip_ws_s(t);
    if u.len() == 0 {
        pets
    } else if u[0] == '"' {
        let v = u.drop_first();
        let q = quote_len(v) as int;
        let key = v.take(q);
        let b = after_colon(skip1(v.skip(q)));
        proof {
            lemma_skip_ws_suffix(t);
            lemma_quote_len_bound(v);
            lemma_after_colon_len(skip1(v.skip(q)));
        }
        if key == "pets"@ {
            let (arr, r) = pets_array_s(b);
            proof {
                lemma_pets_array_len(b);
            }
            config_scan(r, if arr.len() > 0 { arr } else { pets })
        } else {
            proof {
                lemma_skip_value_len(b);
            }
            config_scan(skip_value_s(b), pets)
        }
    } else {
        proof {
            lemma_skip_ws_suffix(t);
        }
        config_scan(u.drop_first(), pets)
    }
}

// ---------------------------------------------------------------------------
// Lengths: every step leaves a suffix of what it was given.
// ---------------------------------------------------------------------------

pub proof fn lemma_skip_ws_suffix(t: Seq<char>)
    ensures
        skip_ws_s(t).len() <= t.len(),
        skip_ws_s(t) == t.skip(t.len() - skip_ws_s(t).len()),
        skip_ws_s(t).len() > 0 ==> !is_ws(skip_ws_s(t)[0]),
    decreases t.len(),
{
    if t.len() > 0 && is_ws(t[0]) {
        lemma_skip_ws_suffix(t.drop_first());
        assert(t.drop_first().skip(t.drop_first().len() - skip_ws_s(t).len()) =~= t.skip(
            t.len() - skip_ws_s(t).len(),
        ));
    } else {
        assert(t.skip(0) =~= t);
    }
}

pub proof fn lemma_quote_len_bound(t: Seq<char>)
    ensures
        quote_len(t) <= t.len(),
        forall|i: int| 0 <= i < quote_len(t) ==> t[i] != '"',
        quote_len(t) < t.len() ==> t[quote_len(t) as int] == '"',
    decreases t.len(),
{
    if t.len() > 0 && t[0] != '"' {
        lemma_quote_len_bound(t.drop_first());
        assert forall|i: int| 0 <= i < quote_len(t) implies t[i] != '"' by {
            if i > 0 {
                assert(t[i] == t.drop_first()[i - 1]);
            }
        }
    }
}

pub proof fn lemma_delim_len_bound(t: Seq<char>)
    ensures
        delim_len(t) <= t.len(),
        forall|i: int| 0 <= i < delim_len(t) ==> !is_delim(t[i]),
        delim_len(t) < t.len() ==> is_delim(t[delim_len(t) as int]),
    decreases t.len(),
{
    if t.len() > 0 && !is_delim(t[0]) {
        lemma_delim_len_bound(t.drop_first());
        assert forall|i: int| 0 <= i < delim_len(t) implies !is_delim(t[i]) by {
            if i > 0 {
                assert(t[i] == t.drop_first()[i - 1]);
            }
        }
    }
}

pub proof fn lemma_after_colon_len(t: Seq<char>)
    ensures
        after_colon(t).len() <= t.len(),
{
    lemma_skip_ws_suffix(t);
}

pub proof fn lemma_read_value_len(t: Seq<char>)
    ensures
        read_value_s(t).1.len() <= t.len(),
{
    lemma_skip_ws_suffix(t);
    let u = skip_ws_s(t);
    if u.len() > 0 && u[0] == '"' {
        lemma_quote_len_bound(u.drop_first());
    } else {
        lemma_delim_len_bound(u);
    }
}

pub proof fn lemma_scan_value_len(t: Seq<char>, depth: nat)
    ensures
        scan_value(t, depth).len() <= t.len(),
    decreases t.len(),
{
    if t.len() > 0 {
        let c = t[0];
        if c == '"' {
            lemma_string_rest_len(t.drop_first());
            lemma_scan_value_len(string_rest(t.drop_first()), depth);
        } else if c == '[' || c == '{' {
            lemma_scan_value_len(t.drop_first(), depth + 1);
        } else if c == ']' || c == '}' {
            if depth != 0 {
                lemma_scan_value_len(t.drop_first(), (depth - 1) as nat);
            }
        } else if !(c == ',' && depth == 0) {
            lemma_scan_value_len(t.drop_first(), depth);
        }
    }
}

pub proof fn lemma_skip_value_len(t: Seq<char>)
    ensures
        skip_value_s(t).len() <= t.len(),
{
    lemma_skip_ws_suffix(t);
    lemma_scan_value_len(skip_ws_s(t), 0);
}

pub proof fn lemma_obj_fields_len(t: Seq<char>, e: PetView)
    ensures
        obj_fields(t, e).1.len() <= t.len(),
    decreases t.len(),
{
    lemma_skip_ws_suffix(t);
    let u = skip_ws_s(t);
    if u.len() > 0 && u[0] != '}' {
        if u[0] != '"' {
            lemma_obj_fields_len(u.drop_first(), e);
        } else {
            let v = u.drop_first();
            let q = quote_len(v) as int;
            let key = v.take(q);
            let b = after_colon(skip1(v.skip(q)));
            lemma_quote_len_bound(v);
            lemma_after_colon_len(skip1(v.skip(q)));
            lemma_skip_ws_suffix(b);
            lemma_read_value_len(skip_ws_s(b));
            let (val, r) = read_value_s(skip_ws_s(b));
            lemma_obj_fields_len(r, apply_field(e, key, val));
        }
    }
}

pub proof fn lemma_array_items_len(t: Seq<char>, acc: Seq<PetView>)
    ensures
        array_items(t, acc).1.len() <= t.len(),
    decreases t.len(),
{
    lemma_skip_ws_suffix(t);
    let u = skip_ws_s(t);
    if u.len() > 0 && u[0] != ']' {
        if u[0] == '{' {
            lemma_obj_fields_len(u.drop_first(), default_pet());
            let (p, r) = pet_object_s(u);
            lemma_array_items_len(r, acc.push(p));
        } else {
            lemma_array_items_len(u.drop_first(), acc);
        }
    }
}

pub proof fn lemma_pets_array_len(t: Seq<char>)
    ensures
        pets_array_s(t).1.len() <= t.len(),
{
    lemma_skip_ws_suffix(t);
    let u = skip_ws_s(t);
    if u.len() > 0 && u[0] == '[' {
        lemma_array_items_len(u.drop_first(), Seq::empty());
    }
}

} // verus!

verus! {

// ---------------------------------------------------------------------------
// The scanner over a character buffer.
// ---------------------------------------------------------------------------

/// The text of `s` from position `i` on; empty at or past the end.
pub open spec fn rest(s: Seq<char>, i: int) -> Seq<char> {
    if i >= s.len() {
        Seq::empty()
    } else {
        s.skip(i)
    }
}

proof fn lemma_rest_step(s: Seq<char>, i: int)
    requires
        0 <= i < s.len(),
    ensures
        rest(s, i).len() > 0,
        rest(s, i)[0] == s[i],
        rest(s, i + 1) == rest(s, i).drop_first(),
{
    assert(rest(s, i + 1) =~= rest(s, i).drop_first());
}

proof fn lemma_rest_end(s: Seq<char>, i: int)
    requires
        i >= s.len(),
    ensures
        rest(s, i).len() == 0,
{
}

proof fn lemma_rest_skip(s: Seq<char>, i: int, k: int)
    requires
        0 <= i,
        0 <= k,
        i + k <= s.len(),
    ensures
        rest(s, i + k) == rest(s, i).skip(k),
        rest(s, i).take(k) == s.subrange(i, i + k),
{
    if i < s.len() {
        assert(rest(s, i + k) =~= rest(s, i).skip(k));
        assert(rest(s, i).take(k) =~= s.subrange(i, i + k));
    } else {
        assert(rest(s, i).take(k) =~= s.subrange(i, i + k));
    }
}

/// One pet as read from or written to the config file: the position and
/// scale as text (the position `null` where none is stored), the facing,
/// and the two flags.
pub struct PetEntry {
    pub rx: String,
    pub ry: String,
    pub facing: String,
    pub scale: String,
    pub on_top: bool,
    pub no_move: bool,
}

impl View for PetEntry {
    type V = PetView;

    open spec fn view(&self) -> PetView {
        PetView {
            rx: self.rx@,
            ry: self.ry@,
            facing: self.facing@,
            scale: self.scale@,
            on_top: self.on_top,
            no_move: self.no_move,
        }
    }
}

/// The views of a list of pets.
pub open spec fn pets_view(v: Seq<PetEntry>) -> Seq<PetView> {
    v.map_values(|p: PetEntry| p@)
}

impl PetEntry {
    /// The default pet: no position, facing left, scale 0.72, on top,
    /// allowed to move.
    pub fn new() -> (p: PetEntry)
        ensures
            p@ == default_pet(),
    {
        PetEntry {
            rx: String::from_str("null"),
            ry: String::from_str("null"),
            facing: String::from_str("left"),
            scale: String::from_str("0.72"),
            on_top: true,
            no_move: false,
        }
    }
}

fn is_ws_char(c: char) -> (r: bool)
    ensures
        r == is_ws(c),
{
    c == ' ' || c == '\n' || c == '\t' || c == '\r'
}

/// Whether `s[a .. b]` spells `lit`.
fn range_eq(s: &Vec<char>, a: usize, b: usize, lit: &str) -> (r: bool)
    requires
        a <= b <= s@.len(),
    ensures
        r == (s@.subrange(a as int, b as int) == lit@),
{
    let m = lit.unicode_len();
    if b - a != m {
        return false;
    }
    let mut k: usize = 0;
    while k < m
        invariant
            a <= b <= s@.len(),
            b - a == m,
            m == lit@.len(),
            k <= m,
            forall|j: int| 0 <= j < k ==> s@[a + j] == lit@[j],
        decreases m - k,
    {
        if s[a + k] != lit.get_char(k) {
            assert(s@.subrange(a as int, b as int)[k as int] != lit@[k as int]);
            return false;
        }
        k = k + 1;
    }
    assert(s@.subrange(a as int, b as int) =~= lit@);
    true
}

/// Moves `i` past scanner whitespace.
fn skip_ws(bytes: &Vec<char>, i: &mut usize)
    requires
        *old(i) <= bytes@.len() + 1,
        bytes@.len() < usize::MAX,
    ensures
        *old(i) <= *final(i) <= bytes@.len() + 1,
        rest(bytes@, *final(i) as int) == skip_ws_s(rest(bytes@, *old(i) as int)),
{
    let n = bytes.len();
    let mut k = *i;
    while k < n && is_ws_char(bytes[k])
        invariant
            n == bytes@.len(),
            *old(i) <= k <= n + 1,
            skip_ws_s(rest(bytes@, k as int)) == skip_ws_s(rest(bytes@, *old(i) as int)),
        decreases n + 1 - k,
    {
        proof {
            lemma_rest_step(bytes@, k as int);
        }
        k = k + 1;
    }
    proof {
        if k < n {
            lemma_rest_step(bytes@, k as int);
        }
    }
    *i = k;
}

/// Moves `i` to the first `"` at or after it, or to the end.
fn find_quote(bytes: &Vec<char>, i: usize) -> (r: usize)
    requires
        i <= bytes@.len() + 1,
        bytes@.len() < usize::MAX,
    ensures
        i <= r <= bytes@.len() + 1,
        i <= bytes@.len() ==> r <= bytes@.len() && r == i + quote_len(rest(bytes@, i as int)),
        i > bytes@.len() ==> r == i,
{
    let n = bytes.len();
    let mut k = i;
    while k < n && bytes[k] != '"'
        invariant
            n == bytes@.len(),
            i <= k <= n + 1,
            i <= n ==> k <= n && i + quote_len(rest(bytes@, i as int)) == k + quote_len(
                rest(bytes@, k as int),
            ),
            i > n ==> k == i,
        decreases n + 1 - k,
    {
        proof {
            lemma_rest_step(bytes@, k as int);
        }
        k = k + 1;
    }
    proof {
        if k < n {
            lemma_rest_step(bytes@, k as int);
        }
    }
    k
}

/// Reads the value at `i`: returns the bounds of its text and the position
/// after it. A quoted value runs to the next `"`, anything else to the next
/// delimiter.
fn read_value(bytes: &Vec<char>, i: usize) -> (r: (usize, usize, usize))
    requires
        i <= bytes@.len() + 1,
        bytes@.len() < usize::MAX,
    ensures
        r.0 <= r.1 <= bytes@.len(),
        i <= r.2 <= bytes@.len() + 1,
        bytes@.subrange(r.0 as int, r.1 as int) == read_value_s(rest(bytes@, i as int)).0,
        rest(bytes@, r.2 as int) == read_value_s(rest(bytes@, i as int)).1,
{
    let n = bytes.len();
    let mut i = i;
    let ghost t = rest(bytes@, i as int);
    skip_ws(bytes, &mut i);
    if i < n && bytes[i] == '"' {
        proof {
            lemma_rest_step(bytes@, i as int);
        }
        let s = i + 1;
        let e = find_quote(bytes, s);
        proof {
            let v = rest(bytes@, s as int);
            lemma_quote_len_bound(v);
            lemma_rest_skip(bytes@, s as int, (e - s) as int);
            if e < n {
                lemma_rest_step(bytes@, e as int);
            } else {
                lemma_rest_end(bytes@, e + 1);
            }
        }
        return (s, e, e + 1);
    }
    let s = i;
    let mut k = i;
    while k < n && bytes[k] != ',' && bytes[k] != '}' && bytes[k] != ']'
        invariant
            n == bytes@.len(),
            s <= k <= n + 1,
            s <= n ==> k <= n && s + delim_len(rest(bytes@, s as int)) == k + delim_len(
                rest(bytes@, k as int),
            ),
            s > n ==> k == s,
        decreases n + 1 - k,
    {
        proof {
            lemma_rest_step(bytes@, k as int);
        }
        k = k + 1;
    }
    proof {
        if k < n {
            lemma_rest_step(bytes@, k as int);
        }
        let u = rest(bytes@, s as int);
        if s <= n {
            lemma_rest_skip(bytes@, s as int, (k - s) as int);
        } else {
            assert(u.len() == 0);
            assert(u.take(0) =~= bytes@.subrange(n as int, n as int));
        }
    }
    if k > n {
        return (n, n, k);
    }
    (s, k, k)
}

} // verus!

verus! {

/// The index just past the string that starts after an opening `"` at
/// `k - 1`: past its closing `"`, a backslash escaping the next character.
fn skip_string(bytes: &Vec<char>, k: usize) -> (e: usize)
    requires
        k <= bytes@.len(),
        bytes@.len() < usize::MAX,
    ensures
        k <= e <= bytes@.len(),
        rest(bytes@, e as int) == string_rest(rest(bytes@, k as int)),
{
    let n = bytes.len();
    let mut j = k;
    while j < n
        invariant
            n == bytes@.len(),
            n < usize::MAX,
            k <= j <= n,
            string_rest(rest(bytes@, j as int)) == string_rest(rest(bytes@, k as int)),
        decreases n - j,
    {
        proof {
            lemma_rest_step(bytes@, j as int);
        }
        let c = bytes[j];
        if c == '"' {
            return j + 1;
        }
        if c == '\\' && j + 1 < n {
            proof {
                lemma_rest_step(bytes@, j as int + 1);
            }
            j = j + 2;
        } else {
            j = j + 1;
        }
    }
    proof {
        lemma_rest_end(bytes@, j as int);
    }
    j
}

/// Moves `i` past one value of a key that is not read: past the next comma
/// at the outer level, or up to the bracket that closes the enclosing level;
/// strings are passed over whole.
fn skip_value(bytes: &Vec<char>, i: &mut usize)
    requires
        *old(i) <= bytes@.len() + 1,
        bytes@.len() < usize::MAX,
    ensures
        *old(i) <= *final(i) <= bytes@.len() + 1,
        rest(bytes@, *final(i) as int) == skip_value_s(rest(bytes@, *old(i) as int)),
{
    let n = bytes.len();
    skip_ws(bytes, i);
    let ghost t0 = rest(bytes@, *i as int);
    let ghost i1 = *i;
    let mut k = *i;
    let mut depth: usize = 0;
    while k < n
        invariant
            n == bytes@.len(),
            n < usize::MAX,
            i1 <= k <= n + 1,
            *old(i) <= i1,
            depth <= k,
            scan_value(rest(bytes@, k as int), depth as nat) == scan_value(t0, 0),
            t0 == skip_ws_s(rest(bytes@, *old(i) as int)),
        decreases n + 1 - k,
    {
        proof {
            lemma_rest_step(bytes@, k as int);
        }
        let c = bytes[k];
        if c == '"' {
            k = skip_string(bytes, k + 1);
            continue;
        }
        if c == '[' || c == '{' {
            depth = depth + 1;
        } else if c == ']' || c == '}' {
            if depth == 0 {
                *i = k;
                return;
            }
            depth = depth - 1;
        } else if c == ',' && depth == 0 {
            *i = k + 1;
            return;
        }
        k = k + 1;
    }
    *i = k;
}

/// Sets the field of `pc` named by `bytes[ks .. ke]` from the raw value
/// `bytes[a .. b]`.
fn apply_field_exec(pc: &mut PetEntry, bytes: &Vec<char>, ks: usize, ke: usize, a: usize, b: usize)
    requires
        ks <= ke <= bytes@.len(),
        a <= b <= bytes@.len(),
    ensures
        final(pc)@ == apply_field(
            old(pc)@,
            bytes@.subrange(ks as int, ke as int),
            bytes@.subrange(a as int, b as int),
        ),
{
    if range_eq(bytes, ks, ke, "facing") {
        pc.facing = string_of(bytes, a, b);
    } else if range_eq(bytes, ks, ke, "scale") {
        let (c, d) = trim_range(bytes, a, b);
        pc.scale = string_of(bytes, c, d);
    } else if range_eq(bytes, ks, ke, "on_top") {
        let (c, d) = trim_range(bytes, a, b);
        pc.on_top = range_eq(bytes, c, d, "true");
    } else if range_eq(bytes, ks, ke, "no_move") {
        let (c, d) = trim_range(bytes, a, b);
        pc.no_move = range_eq(bytes, c, d, "true");
    } else if range_eq(bytes, ks, ke, "rx") {
        let (c, d) = trim_range(bytes, a, b);
        pc.rx = string_of(bytes, c, d);
    } else if range_eq(bytes, ks, ke, "ry") {
        let (c, d) = trim_range(bytes, a, b);
        pc.ry = string_of(bytes, c, d);
    }
}

/// Reads the key that starts after the `"` at `k`: returns the bounds of
/// the key and the position after the `:` that follows it (if any).
fn read_key(bytes: &Vec<char>, k: usize) -> (r: (usize, usize, usize))
    requires
        k < bytes@.len(),
        bytes@[k as int] == '"',
        bytes@.len() < usize::MAX,
    ensures
        ({
            let v = rest(bytes@, k + 1);
            let q = quote_len(v) as int;
            &&& r.0 <= r.1 <= bytes@.len()
            &&& k < r.2 <= bytes@.len() + 1
            &&& bytes@.subrange(r.0 as int, r.1 as int) == v.take(q)
            &&& rest(bytes@, r.2 as int) == after_colon(skip1(v.skip(q)))
        }),
{
    let n = bytes.len();
    let ks = k + 1;
    let ke = find_quote(bytes, ks);
    proof {
        let v = rest(bytes@, ks as int);
        lemma_quote_len_bound(v);
        lemma_rest_skip(bytes@, ks as int, (ke - ks) as int);
        if ke < n {
            lemma_rest_step(bytes@, ke as int);
        } else {
            lemma_rest_end(bytes@, ke + 1);
        }
    }
    let mut j = ke + 1;
    skip_ws(bytes, &mut j);
    if j < n && bytes[j] == ':' {
        proof {
            lemma_rest_step(bytes@, j as int);
        }
        j = j + 1;
    } else {
        proof {
            if j < n {
                lemma_rest_step(bytes@, j as int);
            }
        }
    }
    (ks, ke, j)
}

/// Reads the pet object at `i`, which starts with `{`; `None` (and `i`
/// unchanged) where there is no `{` at `i`.
fn parse_pet_object(bytes: &Vec<char>, i: &mut usize) -> (r: Option<PetEntry>)
    requires
        *old(i) <= bytes@.len() + 1,
        bytes@.len() < usize::MAX,
    ensures
        *final(i) <= bytes@.len() + 1,
        ({
            let t = rest(bytes@, *old(i) as int);
            if t.len() > 0 && t[0] == '{' {
                &&& r matches Some(p) && p@ == pet_object_s(t).0
                &&& rest(bytes@, *final(i) as int) == pet_object_s(t).1
                &&& *old(i) < *final(i)
            } else {
                r is None && *final(i) == *old(i)
            }
        }),
{
    let n = bytes.len();
    if *i >= n || bytes[*i] != '{' {
        proof {
            if *i < n {
                lemma_rest_step(bytes@, *i as int);
            }
        }
        return None;
    }
    proof {
        lemma_rest_step(bytes@, *i as int);
    }
    let ghost t0 = rest(bytes@, *i as int + 1);
    let ghost i0 = *i;
    let mut k = *i + 1;
    let mut pc = PetEntry::new();
    loop
        invariant_except_break
            n == bytes@.len(),
            n < usize::MAX,
            i0 < k <= n + 1,
            obj_fields(rest(bytes@, k as int), pc@) == obj_fields(t0, default_pet()),
        ensures
            i0 < k <= n + 1,
            obj_fields(t0, default_pet()) == (pc@, rest(bytes@, k as int)),
        decreases n + 1 - k,
    {
        let ghost k0 = k;
        skip_ws(bytes, &mut k);
        if k >= n {
            proof {
                lemma_rest_end(bytes@, k as int);
            }
            break;
        }
        proof {
            lemma_rest_step(bytes@, k as int);
        }
        if bytes[k] == '}' {
            k = k + 1;
            break;
        }
        if bytes[k] != '"' {
            k = k + 1;
            continue;
        }
        let (ks, ke, j) = read_key(bytes, k);
        let mut j = j;
        skip_ws(bytes, &mut j);
        let (a, b, next) = read_value(bytes, j);
        apply_field_exec(&mut pc, bytes, ks, ke, a, b);
        k = next;
    }
    *i = k;
    Some(pc)
}

} // verus!

verus! {

/// Reads the pets array at `i`; where it holds at least one object its pets
/// replace `pets`.
fn parse_pets(bytes: &Vec<char>, i: &mut usize, pets: &mut Vec<PetEntry>)
    requires
        *old(i) <= bytes@.len() + 1,
        bytes@.len() < usize::MAX,
    ensures
        *old(i) <= *final(i) <= bytes@.len() + 1,
        ({
            let (arr, r) = pets_array_s(rest(bytes@, *old(i) as int));
            &&& rest(bytes@, *final(i) as int) == r
            &&& pets_view(final(pets)@) == if arr.len() > 0 {
                arr
            } else {
                pets_view(old(pets)@)
            }
        }),
{
    let n = bytes.len();
    skip_ws(bytes, i);
    if *i >= n || bytes[*i] != '[' {
        proof {
            if *i < n {
                lemma_rest_step(bytes@, *i as int);
            }
        }
        return;
    }
    proof {
        lemma_rest_step(bytes@, *i as int);
    }
    let ghost t0 = rest(bytes@, *i as int + 1);
    let ghost i0 = *i;
    let mut k = *i + 1;
    let mut found: Vec<PetEntry> = Vec::new();
    assert(pets_view(found@) =~= Seq::<PetView>::empty());
    loop
        invariant_except_break
            n == bytes@.len(),
            n < usize::MAX,
            i0 < k <= n + 1,
            array_items(rest(bytes@, k as int), pets_view(found@)) == array_items(
                t0,
                Seq::empty(),
            ),
        ensures
            i0 < k <= n + 1,
            array_items(t0, Seq::empty()) == (pets_view(found@), rest(bytes@, k as int)),
        decreases n + 1 - k,
    {
        skip_ws(bytes, &mut k);
        if k >= n {
            proof {
                lemma_rest_end(bytes@, k as int);
            }
            break;
        }
        proof {
            lemma_rest_step(bytes@, k as int);
        }
        if bytes[k] == ']' {
            k = k + 1;
            break;
        }
        if bytes[k] == '{' {
            let ghost before = found@;
            if let Some(pc) = parse_pet_object(bytes, &mut k) {
                found.push(pc);
                assert(pets_view(found@) =~= pets_view(before).push(pc@));
            }
        } else {
            k = k + 1;
        }
    }
    *i = k;
    if found.len() > 0 {
        *pets = found;
    }
}

/// Reads a config file's text into `pets`: every `pets` key whose array
/// holds at least one object replaces them; everything else is passed over.
pub fn parse_config(text: &str, pets: &mut Vec<PetEntry>)
    requires
        text@.len() < usize::MAX,
    ensures
        pets_view(final(pets)@) == config_scan(text@, pets_view(old(pets)@)),
{
    let bytes = to_chars(text);
    let n = bytes.len();
    let mut i: usize = 0;
    assert(rest(bytes@, 0) =~= text@);
    while i < n
        invariant
            n == bytes@.len(),
            n < usize::MAX,
            i <= n + 1,
            bytes@ == text@,
            config_scan(rest(bytes@, i as int), pets_view(pets@)) == config_scan(
                text@,
                pets_view(old(pets)@),
            ),
        ensures
            pets_view(pets@) == config_scan(text@, pets_view(old(pets)@)),
        decreases n + 1 - i,
    {
        skip_ws(&bytes, &mut i);
        if i >= n {
            proof {
                lemma_rest_end(bytes@, i as int);
                assert(config_scan(rest(bytes@, i as int), pets_view(pets@)) == pets_view(pets@));
            }
            break;
        }
        proof {
            lemma_rest_step(bytes@, i as int);
        }
        if bytes[i] == '"' {
            let (ks, ke, j) = read_key(&bytes, i);
            i = j;
            if range_eq(&bytes, ks, ke, "pets") {
                parse_pets(&bytes, &mut i, pets);
            } else {
                skip_value(&bytes, &mut i);
            }
        } else {
            i = i + 1;
        }
    }
}

} // verus!

verus! {

// ---------------------------------------------------------------------------
// Writing.
// ---------------------------------------------------------------------------

/// How a flag is written.
pub open spec fn bool_text(b: bool) -> Seq<char> {
    if b {
        "true"@
    } else {
        "false"@
    }
}

/// One pet object as written.
pub open spec fn pet_object_text(p: PetView) -> Seq<char> {
    "{\"rx\": "@ + p.rx + ", \"ry\": "@ + p.ry + ", \"facing\": \""@ + p.facing
        + "\", \"scale\": "@ + p.scale + ", \"on_top\": "@ + bool_text(p.on_top)
        + ", \"no_move\": "@ + bool_text(p.no_move) + "}"@
}

/// The line of the `k`-th pet: indented, with a comma unless it is the last.
pub open spec fn item_text(ps: Seq<PetView>, k: int) -> Seq<char> {
    "    "@ + pet_object_text(ps[k]) + (if k + 1 < ps.len() {
        ","@
    } else {
        ""@
    }) + "\n"@
}

/// The lines of the pets from the `k`-th on.
pub open spec fn items_from(ps: Seq<PetView>, k: int) -> Seq<char>
    decreases ps.len() - k,
{
    if k < 0 || k >= ps.len() {
        Seq::empty()
    } else {
        item_text(ps, k) + items_from(ps, k + 1)
    }
}

/// The lines of the first `k` pets.
pub open spec fn items_upto(ps: Seq<PetView>, k: int) -> Seq<char>
    decreases k,
{
    if k <= 0 {
        Seq::empty()
    } else {
        items_upto(ps, k - 1) + item_text(ps, k - 1)
    }
}

/// What a config file starts with.
pub open spec fn config_head() -> Seq<char> {
    "{\n  \"version\": 2,\n  \"pets\": [\n"@
}

/// What a config file ends with.
pub open spec fn config_tail() -> Seq<char> {
    "  ]\n}\n"@
}

/// The config file that holds the pets `ps`.
pub open spec fn config_text(ps: Seq<PetView>) -> Seq<char> {
    config_head() + items_from(ps, 0) + config_tail()
}

proof fn lemma_items_split(ps: Seq<PetView>, k: int)
    requires
        0 <= k <= ps.len(),
    ensures
        items_upto(ps, k) + items_from(ps, k) == items_from(ps, 0),
    decreases k,
{
    if k > 0 {
        lemma_items_split(ps, k - 1);
        assert(items_upto(ps, k - 1) + items_from(ps, k - 1) == items_from(ps, 0));
        assert(items_from(ps, k - 1) == item_text(ps, k - 1) + items_from(ps, k));
        assert(items_upto(ps, k) + items_from(ps, k) =~= items_upto(ps, k - 1) + (item_text(
            ps,
            k - 1,
        ) + items_from(ps, k)));
    } else {
        assert(items_upto(ps, k) + items_from(ps, k) =~= items_from(ps, 0));
    }
}

fn append_bool(s: &mut String, b: bool)
    ensures
        final(s)@ == old(s)@ + bool_text(b),
{
    if b {
        s.append("true");
    } else {
        s.append("false");
    }
}

fn append_pet(s: &mut String, p: &PetEntry)
    ensures
        final(s)@ == old(s)@ + pet_object_text(p@),
{
    s.append("{\"rx\": ");
    s.append(p.rx.as_str());
    s.append(", \"ry\": ");
    s.append(p.ry.as_str());
    s.append(", \"facing\": \"");
    s.append(p.facing.as_str());
    s.append("\", \"scale\": ");
    s.append(p.scale.as_str());
    s.append(", \"on_top\": ");
    append_bool(s, p.on_top);
    s.append(", \"no_move\": ");
    append_bool(s, p.no_move);
    s.append("}");
    assert(s@ =~= old(s)@ + pet_object_text(p@));
}

/// The text of the config file that holds `pets` (version 2 layout, one
/// pet object per line).
pub fn render_config(pets: &[PetEntry]) -> (r: String)
    ensures
        r@ == config_text(pets_view(pets@)),
{
    let ghost ps = pets_view(pets@);
    let mut s = String::new();
    s.append("{\n  \"version\": 2,\n  \"pets\": [\n");
    let mut idx: usize = 0;
    while idx < pets.len()
        invariant
            idx <= pets@.len(),
            ps == pets_view(pets@),
            s@ == config_head() + items_upto(ps, idx as int),
        decreases pets@.len() - idx,
    {
        let ghost before = s@;
        s.append("    ");
        append_pet(&mut s, &pets[idx]);
        if idx + 1 < pets.len() {
            s.append(",");
        } else {
            s.append("");
        }
        s.append("\n");
        proof {
            assert(ps[idx as int] == pets@[idx as int]@);
            assert(s@ =~= before + item_text(ps, idx as int));
        }
        idx = idx + 1;
    }
    s.append("  ]\n}\n");
    proof {
        lemma_items_split(ps, ps.len() as int);
        assert(items_from(ps, ps.len() as int) =~= Seq::<char>::empty());
        assert(items_upto(ps, ps.len() as int) =~= items_from(ps, 0));
    }
    s
}

} // verus!
