use vstd::prelude::*;

verus! {

broadcast use vstd::string::group_string_axioms;

/// The characters of `text`, in order.
pub fn to_chars(text: &str) -> (r: Vec<char>)
    ensures
        r@ == text@,
{
    let mut r: Vec<char> = Vec::new();
    for c in it: text.chars()
        invariant
            r@ == it.seq().take(it.index() as int),
    {
        r.push(c);
        assert(r@ =~= it.seq().take(it.index() as int + 1));
    }
    r
}

} // verus!

verus! {

/// Whether `c` has the Unicode `White_Space` property.
pub open spec fn is_unicode_ws_spec(c: char) -> bool {
    let v = c as u32;
    ||| (0x9 <= v && v <= 0xD)
    ||| v == 0x20
    ||| v == 0x85
    ||| v == 0xA0
    ||| v == 0x1680
    ||| (0x2000 <= v && v <= 0x200A)
    ||| v == 0x2028
    ||| v == 0x2029
    ||| v == 0x202F
    ||| v == 0x205F
    ||| v == 0x3000
}

/// `t` without its leading Unicode whitespace.
pub open spec fn trim_start(t: Seq<char>) -> Seq<char>
    decreases t.len(),
{
    if t.len() > 0 && is_unicode_ws_spec(t[0]) {
        trim_start(t.drop_first())
    } else {
        t
    }
}

/// `t` without its trailing Unicode whitespace.
pub open spec fn trim_end(t: Seq<char>) -> Seq<char>
    decreases t.len(),
{
    if t.len() > 0 && is_unicode_ws_spec(t.last()) {
        trim_end(t.drop_last())
    } else {
        t
    }
}

/// `t` without leading and trailing Unicode whitespace.
pub open spec fn trim(t: Seq<char>) -> Seq<char> {
    trim_end(trim_start(t))
}

/// Whether `c` has the Unicode `White_Space` property.
pub fn is_unicode_ws(c: char) -> (r: bool)
    ensures
        r == is_unicode_ws_spec(c),
{
    let v = c as u32;
    (0x9 <= v && v <= 0xD) || v == 0x20 || v == 0x85 || v == 0xA0 || v == 0x1680 || (0x2000 <= v
        && v <= 0x200A) || v == 0x2028 || v == 0x2029 || v == 0x202F || v == 0x205F || v == 0x3000
}

/// The bounds `a .. b` of `t[lo .. hi]` without its leading and trailing
/// Unicode whitespace.
pub fn trim_range(t: &Vec<char>, lo: usize, hi: usize) -> (r: (usize, usize))
    requires
        lo <= hi <= t@.len(),
    ensures
        lo <= r.0 <= r.1 <= hi,
        t@.subrange(r.0 as int, r.1 as int) == trim(t@.subrange(lo as int, hi as int)),
{
    let mut a = lo;
    while a < hi && is_unicode_ws(t[a])
        invariant
            lo <= a <= hi <= t@.len(),
            trim_start(t@.subrange(a as int, hi as int)) == trim_start(
                t@.subrange(lo as int, hi as int),
            ),
        decreases hi - a,
    {
        assert(t@.subrange(a as int, hi as int).drop_first() =~= t@.subrange(
            a as int + 1,
            hi as int,
        ));
        a = a + 1;
    }
    assert(trim_start(t@.subrange(a as int, hi as int)) == t@.subrange(a as int, hi as int));
    let mut b = hi;
    while b > a && is_unicode_ws(t[b - 1])
        invariant
            lo <= a <= b <= hi <= t@.len(),
            trim_end(t@.subrange(a as int, b as int)) == trim(t@.subrange(lo as int, hi as int)),
        decreases b - a,
    {
        assert(t@.subrange(a as int, b as int).drop_last() =~= t@.subrange(
            a as int,
            b as int - 1,
        ));
        b = b - 1;
    }
    (a, b)
}

/// Appends `c` to `s` (`String::push`).
#[verifier::external_body]
pub fn push_char(s: &mut String, c: char)
    ensures
        final(s)@ == old(s)@.push(c),
{
    s.push(c)
}

/// The string of the characters `t[lo .. hi]`.
pub fn string_of(t: &Vec<char>, lo: usize, hi: usize) -> (r: String)
    requires
        lo <= hi <= t@.len(),
    ensures
        r@ == t@.subrange(lo as int, hi as int),
{
    let mut r = String::new();
    let mut k = lo;
    while k < hi
        invariant
            lo <= k <= hi <= t@.len(),
            r@ == t@.subrange(lo as int, k as int),
        decreases hi - k,
    {
        push_char(&mut r, t[k]);
        assert(r@ =~= t@.subrange(lo as int, k as int + 1));
        k = k + 1;
    }
    r
}

} // verus!

verus! {

pub proof fn lemma_trim_start_len(t: Seq<char>)
    ensures
        trim_start(t).len() <= t.len(),
        t.len() > 0 && is_unicode_ws_spec(t[0]) ==> trim_start(t).len() < t.len(),
    decreases t.len(),
{
    if t.len() > 0 && is_unicode_ws_spec(t[0]) {
        lemma_trim_start_len(t.drop_first());
    }
}

pub proof fn lemma_trim_end_len(t: Seq<char>)
    ensures
        trim_end(t).len() <= t.len(),
    decreases t.len(),
{
    if t.len() > 0 && is_unicode_ws_spec(t.last()) {
        lemma_trim_end_len(t.drop_last());
    }
}

/// A string that trimming leaves as it is does not start with whitespace.
pub proof fn lemma_trimmed_first(t: Seq<char>)
    requires
        trim(t) == t,
        t.len() > 0,
    ensures
        !is_unicode_ws_spec(t[0]),
{
    lemma_trim_start_len(t);
    lemma_trim_end_len(trim_start(t));
}

/// A string with no whitespace at either end is its own trim.
pub proof fn lemma_trim_fixed(t: Seq<char>)
    requires
        t.len() > 0,
        !is_unicode_ws_spec(t[0]),
        !is_unicode_ws_spec(t.last()),
    ensures
        trim(t) == t,
{
}

} // verus!

verus! {

/// Whether every character of `w` is Unicode whitespace.
pub open spec fn all_ws(w: Seq<char>) -> bool {
    forall|i: int| 0 <= i < w.len() ==> is_unicode_ws_spec(#[trigger] w[i])
}

proof fn lemma_trim_start_all_ws(w: Seq<char>)
    requires
        all_ws(w),
    ensures
        trim_start(w) == Seq::<char>::empty(),
    decreases w.len(),
{
    if w.len() > 0 {
        assert(is_unicode_ws_spec(w[0]));
        assert forall|i: int| 0 <= i < w.drop_first().len() implies is_unicode_ws_spec(
            #[trigger] w.drop_first()[i],
        ) by {
            assert(w.drop_first()[i] == w[i + 1]);
        }
        lemma_trim_start_all_ws(w.drop_first());
    }
}

proof fn lemma_trim_start_concat(v: Seq<char>, w: Seq<char>)
    ensures
        trim_start(v + w) == (if trim_start(v).len() > 0 {
            trim_start(v) + w
        } else {
            trim_start(w)
        }),
    decreases v.len(),
{
    if v.len() == 0 {
        assert(v + w =~= w);
    } else {
        assert((v + w)[0] == v[0]);
        if is_unicode_ws_spec(v[0]) {
            assert((v + w).drop_first() =~= v.drop_first() + w);
            lemma_trim_start_concat(v.drop_first(), w);
        }
    }
}

proof fn lemma_trim_end_ws_suffix(t: Seq<char>, w: Seq<char>)
    requires
        all_ws(w),
    ensures
        trim_end(t + w) == trim_end(t),
    decreases w.len(),
{
    if w.len() == 0 {
        assert(t + w =~= t);
    } else {
        assert((t + w).last() == w.last());
        assert(is_unicode_ws_spec(w[w.len() - 1]));
        assert((t + w).drop_last() =~= t + w.drop_last());
        assert forall|i: int| 0 <= i < w.drop_last().len() implies is_unicode_ws_spec(
            #[trigger] w.drop_last()[i],
        ) by {
            assert(w.drop_last()[i] == w[i]);
        }
        lemma_trim_end_ws_suffix(t, w.drop_last());
    }
}

/// Trimming does not see whitespace added around a text.
pub proof fn lemma_trim_ws_around(w1: Seq<char>, v: Seq<char>, w2: Seq<char>)
    requires
        all_ws(w1),
        all_ws(w2),
    ensures
        trim(w1 + v + w2) == trim(v),
{
    assert(w1 + v + w2 =~= w1 + (v + w2));
    lemma_trim_start_all_ws(w1);
    lemma_trim_start_concat(w1, v + w2);
    lemma_trim_start_concat(v, w2);
    if trim_start(v).len() > 0 {
        lemma_trim_end_ws_suffix(trim_start(v), w2);
    } else {
        lemma_trim_start_all_ws(w2);
    }
}

} // verus!
