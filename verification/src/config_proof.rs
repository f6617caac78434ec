//! What the config scanner reads back from the text that the writer wrote.
use vstd::prelude::*;

use crate::config::{
    after_colon, apply_field, array_items, bool_text, config_scan, config_tail, default_pet, delim_len,
    config_head, config_text, items_from, pet_object_s, pet_object_text, pets_array_s, scan_value,
    skip_value_s, is_delim, is_ws, obj_fields, quote_len, read_value_s, skip1,
    skip_ws_s, PetView,
};
use crate::text::{
    all_ws, is_unicode_ws_spec, lemma_trim_fixed, lemma_trim_ws_around, lemma_trimmed_first, trim,
};

verus! {

/// A number field that reads back as written: its own trim, no delimiter,
/// not starting with a quote.
pub open spec fn token_safe(v: Seq<char>) -> bool {
    &&& trim(v) == v
    &&& forall|i: int| 0 <= i < v.len() ==> !is_delim(#[trigger] v[i])
    &&& v.len() > 0 ==> v[0] != '"'
}

/// A pet whose fields read back as written: safe number fields and a
/// facing without quotes.
pub open spec fn pet_safe(p: PetView) -> bool {
    &&& token_safe(p.rx)
    &&& token_safe(p.ry)
    &&& token_safe(p.scale)
    &&& forall|i: int| 0 <= i < p.facing.len() ==> #[trigger] p.facing[i] != '"'
}

proof fn lemma_ws_unicode(c: char)
    ensures
        is_ws(c) ==> is_unicode_ws_spec(c),
{
}

proof fn lemma_skip_ws_prefix(w: Seq<char>, t: Seq<char>)
    requires
        forall|i: int| 0 <= i < w.len() ==> is_ws(#[trigger] w[i]),
    ensures
        skip_ws_s(w + t) == skip_ws_s(t),
    decreases w.len(),
{
    if w.len() > 0 {
        assert((w + t).drop_first() =~= w.drop_first() + t);
        assert(is_ws(w[0]));
        lemma_skip_ws_prefix(w.drop_first(), t);
    } else {
        assert(w + t =~= t);
    }
}

proof fn lemma_quote_len_concat(k: Seq<char>, t: Seq<char>)
    requires
        forall|i: int| 0 <= i < k.len() ==> #[trigger] k[i] != '"',
        t.len() > 0,
        t[0] == '"',
    ensures
        quote_len(k + t) == k.len(),
    decreases k.len(),
{
    if k.len() > 0 {
        assert((k + t).drop_first() =~= k.drop_first() + t);
        assert(k[0] != '"');
        lemma_quote_len_concat(k.drop_first(), t);
    } else {
        assert(k + t =~= t);
    }
}

proof fn lemma_delim_len_concat(v: Seq<char>, t: Seq<char>)
    requires
        forall|i: int| 0 <= i < v.len() ==> !is_delim(#[trigger] v[i]),
        t.len() > 0,
        is_delim(t[0]),
    ensures
        delim_len(v + t) == v.len(),
    decreases v.len(),
{
    if v.len() > 0 {
        assert((v + t).drop_first() =~= v.drop_first() + t);
        assert(!is_delim(v[0]));
        lemma_delim_len_concat(v.drop_first(), t);
    } else {
        assert(v + t =~= t);
    }
}

/// A key without quotes, closed by `":` and a space, then an unquoted value
/// that ends at a delimiter: the field is set from the value.
proof fn lemma_field_unquoted(key: Seq<char>, v: Seq<char>, r: Seq<char>, e: PetView)
    requires
        forall|i: int| 0 <= i < key.len() ==> #[trigger] key[i] != '"',
        token_safe(v),
        r.len() > 0,
        is_delim(r[0]),
    ensures
        obj_fields(seq!['"'] + key + seq!['"', ':', ' '] + v + r, e) == obj_fields(
            r,
            apply_field(e, key, v),
        ),
{
    let f = seq!['"'] + key + seq!['"', ':', ' '] + v + r;
    assert(skip_ws_s(f) == f);
    let w = f.drop_first();
    let after_key = seq!['"', ':', ' '] + v + r;
    assert(w =~= key + after_key);
    lemma_quote_len_concat(key, after_key);
    assert(w.take(key.len() as int) =~= key);
    assert(w.skip(key.len() as int) =~= after_key);
    let c = seq![':', ' '] + v + r;
    assert(skip1(after_key) =~= c);
    assert(skip_ws_s(c) == c);
    let b = seq![' '] + v + r;
    assert(after_colon(c) =~= b);
    assert(b =~= seq![' '] + (v + r));
    lemma_skip_ws_prefix(seq![' '], v + r);
    if v.len() > 0 {
        lemma_trimmed_first(v);
        lemma_ws_unicode(v[0]);
        assert((v + r)[0] == v[0]);
    } else {
        assert(v + r =~= r);
    }
    assert(skip_ws_s(v + r) == v + r);
    assert(skip_ws_s(b) == v + r);
    lemma_delim_len_concat(v, r);
    assert((v + r).take(v.len() as int) =~= v);
    assert((v + r).skip(v.len() as int) =~= r);
    assert(read_value_s(v + r) == (v, r));
}

/// Objects whose text is the same after whitespace read the same.
proof fn lemma_obj_fields_ws(t1: Seq<char>, t2: Seq<char>, e: PetView)
    requires
        skip_ws_s(t1) == skip_ws_s(t2),
    ensures
        obj_fields(t1, e) == obj_fields(t2, e),
{
}

/// A quoted key: the field it names is set from the value after the colon.
proof fn lemma_key(key: Seq<char>, x: Seq<char>, e: PetView)
    requires
        forall|i: int| 0 <= i < key.len() ==> #[trigger] key[i] != '"',
    ensures
        obj_fields(seq!['"'] + key + seq!['"'] + x, e) == ({
            let (val, r) = read_value_s(skip_ws_s(after_colon(x)));
            obj_fields(r, apply_field(e, key, val))
        }),
{
    let f = seq!['"'] + key + seq!['"'] + x;
    assert(skip_ws_s(f) == f);
    let w = f.drop_first();
    let after_key = seq!['"'] + x;
    assert(w =~= key + after_key);
    lemma_quote_len_concat(key, after_key);
    assert(w.take(key.len() as int) =~= key);
    assert(w.skip(key.len() as int) =~= after_key);
    assert(skip1(after_key) =~= x);
}

/// A quoted value without quotes inside, after a space.
proof fn lemma_read_quoted(v: Seq<char>, r: Seq<char>)
    requires
        forall|i: int| 0 <= i < v.len() ==> #[trigger] v[i] != '"',
    ensures
        read_value_s(skip_ws_s(seq![' ', '"'] + v + seq!['"'] + r)) == (v, r),
{
    let q = seq!['"'] + v + seq!['"'] + r;
    assert(seq![' ', '"'] + v + seq!['"'] + r =~= seq![' '] + q);
    lemma_skip_ws_prefix(seq![' '], q);
    assert(skip_ws_s(q) == q);
    let qv = v + (seq!['"'] + r);
    assert(q.drop_first() =~= qv);
    lemma_quote_len_concat(v, seq!['"'] + r);
    assert(qv.take(v.len() as int) =~= v);
    assert(qv.skip(v.len() as int) =~= seq!['"'] + r);
    assert(skip1(seq!['"'] + r) =~= r);
}

/// A key without quotes, then a quoted value without quotes inside: the
/// field is set from the value.
proof fn lemma_field_quoted(key: Seq<char>, v: Seq<char>, r: Seq<char>, e: PetView)
    requires
        forall|i: int| 0 <= i < key.len() ==> #[trigger] key[i] != '"',
        forall|i: int| 0 <= i < v.len() ==> #[trigger] v[i] != '"',
    ensures
        obj_fields(seq!['"'] + key + seq!['"', ':', ' ', '"'] + v + seq!['"'] + r, e)
            == obj_fields(r, apply_field(e, key, v)),
{
    let x = seq![':', ' ', '"'] + v + seq!['"'] + r;
    assert(seq!['"'] + key + seq!['"', ':', ' ', '"'] + v + seq!['"'] + r =~= seq!['"'] + key
        + seq!['"'] + x);
    lemma_key(key, x, e);
    assert(skip_ws_s(x) == x);
    assert(after_colon(x) =~= seq![' ', '"'] + v + seq!['"'] + r);
    lemma_read_quoted(v, r);
}

/// A comma and a space before the next key are passed over.
proof fn lemma_field_sep(t: Seq<char>, e: PetView)
    requires
        t.len() > 0,
        t[0] == '"',
    ensures
        obj_fields(seq![',', ' '] + t, e) == obj_fields(t, e),
{
    let f = seq![',', ' '] + t;
    assert(skip_ws_s(f) == f);
    assert(f.drop_first() =~= seq![' '] + t);
    assert(obj_fields(f, e) == obj_fields(f.drop_first(), e));
    lemma_skip_ws_prefix(seq![' '], t);
    assert(skip_ws_s(t) == t);
    lemma_obj_fields_ws(seq![' '] + t, t, e);
}

/// A closing brace ends the object.
proof fn lemma_field_close(r: Seq<char>, e: PetView)
    ensures
        obj_fields(seq!['}'] + r, e) == (e, r),
{
    let f = seq!['}'] + r;
    assert(skip_ws_s(f) == f);
    assert(f.drop_first() =~= r);
}

} // verus!

verus! {

proof fn lemma_bool_text(b: bool)
    ensures
        token_safe(bool_text(b)),
        (trim(bool_text(b)) == "true"@) == b,
{
    reveal_strlit("true");
    reveal_strlit("false");
    let t = bool_text(b);
    lemma_trim_fixed(t);
    if !b {
        assert(t.len() != "true"@.len());
    }
}

proof fn lemma_keys()
    ensures
        forall|i: int| 0 <= i < "rx"@.len() ==> #[trigger] "rx"@[i] != '"',
        forall|i: int| 0 <= i < "ry"@.len() ==> #[trigger] "ry"@[i] != '"',
        forall|i: int| 0 <= i < "facing"@.len() ==> #[trigger] "facing"@[i] != '"',
        forall|i: int| 0 <= i < "scale"@.len() ==> #[trigger] "scale"@[i] != '"',
        forall|i: int| 0 <= i < "on_top"@.len() ==> #[trigger] "on_top"@[i] != '"',
        forall|i: int| 0 <= i < "no_move"@.len() ==> #[trigger] "no_move"@[i] != '"',
        "rx"@ != "facing"@,
        "rx"@ != "scale"@,
        "rx"@ != "on_top"@,
        "rx"@ != "no_move"@,
        "ry"@ != "facing"@,
        "ry"@ != "scale"@,
        "ry"@ != "on_top"@,
        "ry"@ != "no_move"@,
        "ry"@ != "rx"@,
        "scale"@ != "facing"@,
        "on_top"@ != "facing"@,
        "on_top"@ != "scale"@,
        "no_move"@ != "facing"@,
        "no_move"@ != "scale"@,
        "no_move"@ != "on_top"@,
{
    reveal_strlit("rx");
    reveal_strlit("ry");
    reveal_strlit("facing");
    reveal_strlit("scale");
    reveal_strlit("on_top");
    reveal_strlit("no_move");
    assert("ry"@[1] != "rx"@[1]);
    assert("on_top"@[0] != "facing"@[0]);
    assert("no_move"@[0] != "on_top"@[0]);
}

/// The pieces of a written pet object: a brace and then six fields.
pub open spec fn obj_tail(p: PetView, r: Seq<char>) -> Seq<char> {
    let t6 = seq!['"'] + "no_move"@ + seq!['"', ':', ' '] + bool_text(p.no_move) + (seq!['}']
        + r);
    let t5 = seq!['"'] + "on_top"@ + seq!['"', ':', ' '] + bool_text(p.on_top) + (seq![',', ' ']
        + t6);
    let t4 = seq!['"'] + "scale"@ + seq!['"', ':', ' '] + p.scale + (seq![',', ' '] + t5);
    let t3 = seq!['"'] + "facing"@ + seq!['"', ':', ' ', '"'] + p.facing + seq!['"'] + (seq![
        ',',
        ' ',
    ] + t4);
    let t2 = seq!['"'] + "ry"@ + seq!['"', ':', ' '] + p.ry + (seq![',', ' '] + t3);
    seq!['"'] + "rx"@ + seq!['"', ':', ' '] + p.rx + (seq![',', ' '] + t2)
}

proof fn lemma_lit_rx()
    ensures
        "{\"rx\": "@ == seq!['{', '"'] + "rx"@ + seq!['"', ':', ' '],
{
    reveal_strlit("{\"rx\": ");
    reveal_strlit("rx");
    assert("{\"rx\": "@ =~= seq!['{', '"'] + "rx"@ + seq!['"', ':', ' ']);
}

proof fn lemma_lit_ry()
    ensures
        ", \"ry\": "@ == seq![',', ' ', '"'] + "ry"@ + seq!['"', ':', ' '],
{
    reveal_strlit(", \"ry\": ");
    reveal_strlit("ry");
    assert(", \"ry\": "@ =~= seq![',', ' ', '"'] + "ry"@ + seq!['"', ':', ' ']);
}

proof fn lemma_lit_facing()
    ensures
        ", \"facing\": \""@ == seq![',', ' ', '"'] + "facing"@ + seq!['"', ':', ' ', '"'],
{
    reveal_strlit(", \"facing\": \"");
    reveal_strlit("facing");
    assert(", \"facing\": \""@ =~= seq![',', ' ', '"'] + "facing"@ + seq!['"', ':', ' ', '"']);
}

proof fn lemma_lit_scale()
    ensures
        "\", \"scale\": "@ == seq!['"', ',', ' ', '"'] + "scale"@ + seq!['"', ':', ' '],
{
    reveal_strlit("\", \"scale\": ");
    reveal_strlit("scale");
    assert("\", \"scale\": "@ =~= seq!['"', ',', ' ', '"'] + "scale"@ + seq!['"', ':', ' ']);
}

proof fn lemma_lit_on_top()
    ensures
        ", \"on_top\": "@ == seq![',', ' ', '"'] + "on_top"@ + seq!['"', ':', ' '],
{
    reveal_strlit(", \"on_top\": ");
    reveal_strlit("on_top");
    assert(", \"on_top\": "@ =~= seq![',', ' ', '"'] + "on_top"@ + seq!['"', ':', ' ']);
}

proof fn lemma_lit_no_move()
    ensures
        ", \"no_move\": "@ == seq![',', ' ', '"'] + "no_move"@ + seq!['"', ':', ' '],
        "}"@ == seq!['}'],
{
    reveal_strlit(", \"no_move\": ");
    reveal_strlit("no_move");
    reveal_strlit("}");
    assert(", \"no_move\": "@ =~= seq![',', ' ', '"'] + "no_move"@ + seq!['"', ':', ' ']);
    assert("}"@ =~= seq!['}']);
}

proof fn lemma_assoc3(a: Seq<char>, b: Seq<char>, c: Seq<char>)
    ensures
        a + b + c == a + (b + c),
{
    assert(a + b + c =~= a + (b + c));
}

proof fn lemma_peel(pre: Seq<char>, sep: Seq<char>, k: Seq<char>, v: Seq<char>, rest: Seq<char>)
    ensures
        pre + (sep + k) + v + rest == pre + (sep + (k + v + rest)),
{
    assert(pre + (sep + k) + v + rest =~= pre + (sep + (k + v + rest)));
}

proof fn lemma_obj_text_shape(p: PetView, r: Seq<char>)
    ensures
        pet_object_text(p) + r == seq!['{'] + obj_tail(p, r),
{
    lemma_lit_rx();
    lemma_lit_ry();
    lemma_lit_facing();
    lemma_lit_scale();
    lemma_lit_on_top();
    lemma_lit_no_move();
    let sep = seq![',', ' '];
    let ka = seq!['"'] + "rx"@ + seq!['"', ':', ' '];
    let kb = seq!['"'] + "ry"@ + seq!['"', ':', ' '];
    let kc = seq!['"'] + "facing"@ + seq!['"', ':', ' ', '"'];
    let kd = seq!['"'] + "scale"@ + seq!['"', ':', ' '];
    let ke = seq!['"'] + "on_top"@ + seq!['"', ':', ' '];
    let kf = seq!['"'] + "no_move"@ + seq!['"', ':', ' '];
    let b1 = bool_text(p.on_top);
    let b2 = bool_text(p.no_move);
    assert("{\"rx\": "@ =~= seq!['{'] + ka);
    assert(", \"ry\": "@ =~= sep + kb);
    assert(", \"facing\": \""@ =~= sep + kc);
    assert("\", \"scale\": "@ =~= seq!['"'] + (sep + kd));
    assert(", \"on_top\": "@ =~= sep + ke);
    assert(", \"no_move\": "@ =~= sep + kf);
    let t6 = kf + b2 + (seq!['}'] + r);
    let t5 = ke + b1 + (sep + t6);
    let t4 = kd + p.scale + (sep + t5);
    let t3 = kc + p.facing + seq!['"'] + (sep + t4);
    let t2 = kb + p.ry + (sep + t3);
    let t1 = ka + p.rx + (sep + t2);
    assert(t1 =~= obj_tail(p, r));
    let p1 = "{\"rx\": "@ + p.rx;
    let p2 = p1 + ", \"ry\": "@ + p.ry;
    let p3 = p2 + ", \"facing\": \""@ + p.facing;
    let p4 = p3 + "\", \"scale\": "@ + p.scale;
    let p5 = p4 + ", \"on_top\": "@ + b1;
    let p6 = p5 + ", \"no_move\": "@ + b2;
    assert(pet_object_text(p) == p6 + "}"@);
    lemma_assoc3(p6, "}"@, r);
    lemma_peel(p5, sep, kf, b2, seq!['}'] + r);
    lemma_peel(p4, sep, ke, b1, sep + t6);
    lemma_assoc3(p3, seq!['"'], sep + kd);
    lemma_peel(p3 + seq!['"'], sep, kd, p.scale, sep + t5);
    lemma_assoc3(p3, seq!['"'], sep + t4);
    lemma_peel(p2, sep, kc, p.facing, seq!['"'] + (sep + t4));
    lemma_assoc3(kc + p.facing, seq!['"'], sep + t4);
    lemma_peel(p1, sep, kb, p.ry, sep + t3);
    lemma_peel(Seq::empty(), seq!['{'], ka, p.rx, sep + t2);
    assert(Seq::<char>::empty() + (seq!['{'] + ka) =~= seq!['{'] + ka);
    assert(Seq::<char>::empty() + (seq!['{'] + (ka + p.rx + (sep + t2))) =~= seq!['{'] + t1);
}

/// A written pet object reads back as the pet it was written from.
pub proof fn lemma_pet_object_round_trip(p: PetView, r: Seq<char>)
    requires
        pet_safe(p),
    ensures
        pet_object_s(pet_object_text(p) + r) == (p, r),
{
    lemma_obj_text_shape(p, r);
    lemma_keys();
    lemma_bool_text(p.on_top);
    lemma_bool_text(p.no_move);
    let t6 = seq!['"'] + "no_move"@ + seq!['"', ':', ' '] + bool_text(p.no_move) + (seq!['}']
        + r);
    let t5 = seq!['"'] + "on_top"@ + seq!['"', ':', ' '] + bool_text(p.on_top) + (seq![',', ' ']
        + t6);
    let t4 = seq!['"'] + "scale"@ + seq!['"', ':', ' '] + p.scale + (seq![',', ' '] + t5);
    let t3 = seq!['"'] + "facing"@ + seq!['"', ':', ' ', '"'] + p.facing + seq!['"'] + (seq![
        ',',
        ' ',
    ] + t4);
    let t2 = seq!['"'] + "ry"@ + seq!['"', ':', ' '] + p.ry + (seq![',', ' '] + t3);
    let t1 = obj_tail(p, r);
    let e0 = default_pet();
    let e1 = apply_field(e0, "rx"@, p.rx);
    let e2 = apply_field(e1, "ry"@, p.ry);
    let e3 = apply_field(e2, "facing"@, p.facing);
    let e4 = apply_field(e3, "scale"@, p.scale);
    let e5 = apply_field(e4, "on_top"@, bool_text(p.on_top));
    let e6 = apply_field(e5, "no_move"@, bool_text(p.no_move));
    assert((seq!['{'] + t1).drop_first() =~= t1);
    lemma_field_unquoted("rx"@, p.rx, seq![',', ' '] + t2, e0);
    lemma_field_sep(t2, e1);
    lemma_field_unquoted("ry"@, p.ry, seq![',', ' '] + t3, e1);
    lemma_field_sep(t3, e2);
    lemma_field_quoted("facing"@, p.facing, seq![',', ' '] + t4, e2);
    lemma_field_sep(t4, e3);
    lemma_field_unquoted("scale"@, p.scale, seq![',', ' '] + t5, e3);
    lemma_field_sep(t5, e4);
    lemma_field_unquoted("on_top"@, bool_text(p.on_top), seq![',', ' '] + t6, e4);
    lemma_field_sep(t6, e5);
    lemma_field_unquoted("no_move"@, bool_text(p.no_move), seq!['}'] + r, e5);
    lemma_field_close(r, e6);
    assert(e6 == p);
}

} // verus!

verus! {

proof fn lemma_array_items_ws(t1: Seq<char>, t2: Seq<char>, acc: Seq<PetView>)
    requires
        skip_ws_s(t1) == skip_ws_s(t2),
    ensures
        array_items(t1, acc) == array_items(t2, acc),
{
}

proof fn lemma_config_scan_ws(t1: Seq<char>, t2: Seq<char>, pets: Seq<PetView>)
    requires
        skip_ws_s(t1) == skip_ws_s(t2),
    ensures
        config_scan(t1, pets) == config_scan(t2, pets),
{
}

proof fn lemma_tail_lits()
    ensures
        config_tail() == seq![' ', ' '] + (seq![']'] + "\n}\n"@),
        "\n}\n"@ == seq!['\n', '}', '\n'],
        "    "@ == seq![' ', ' ', ' ', ' '],
        ","@ == seq![','],
        ""@ == Seq::<char>::empty(),
        "\n"@ == seq!['\n'],
{
    reveal_strlit("  ]\n}\n");
    reveal_strlit("\n}\n");
    reveal_strlit("    ");
    reveal_strlit(",");
    reveal_strlit("");
    reveal_strlit("\n");
    assert(config_tail() =~= seq![' ', ' '] + (seq![']'] + "\n}\n"@));
    assert("\n}\n"@ =~= seq!['\n', '}', '\n']);
    assert("    "@ =~= seq![' ', ' ', ' ', ' ']);
    assert(","@ =~= seq![',']);
    assert(""@ =~= Seq::<char>::empty());
    assert("\n"@ =~= seq!['\n']);
}

proof fn lemma_array_end(acc: Seq<PetView>)
    ensures
        array_items(config_tail(), acc) == (acc, "\n}\n"@),
{
    lemma_tail_lits();
    let x = seq![']'] + "\n}\n"@;
    lemma_skip_ws_prefix(seq![' ', ' '], x);
    assert(skip_ws_s(x) == x);
    assert(x.drop_first() =~= "\n}\n"@);
}

/// The lines of the pets from the `k`-th on, followed by the end of the
/// file, read back as those pets.
proof fn lemma_array_round_trip(ps: Seq<PetView>, k: int, acc: Seq<PetView>)
    requires
        0 <= k <= ps.len(),
        forall|i: int| 0 <= i < ps.len() ==> pet_safe(#[trigger] ps[i]),
    ensures
        array_items(items_from(ps, k) + config_tail(), acc) == (acc + ps.skip(k), "\n}\n"@),
    decreases ps.len() - k,
{
    lemma_tail_lits();
    if k == ps.len() {
        assert(items_from(ps, k) + config_tail() =~= config_tail());
        lemma_array_end(acc);
        assert(acc + ps.skip(k) =~= acc);
    } else {
        let p = ps[k];
        let x = items_from(ps, k + 1) + config_tail();
        let sep = if k + 1 < ps.len() {
            seq![',']
        } else {
            Seq::<char>::empty()
        };
        let after = sep + (seq!['\n'] + x);
        let obj = pet_object_text(p);
        assert(items_from(ps, k) + config_tail() =~= seq![' ', ' ', ' ', ' '] + (obj + after));
        lemma_skip_ws_prefix(seq![' ', ' ', ' ', ' '], obj + after);
        lemma_obj_text_shape(p, after);
        assert((obj + after)[0] == '{');
        assert(skip_ws_s(obj + after) == obj + after);
        lemma_pet_object_round_trip(p, after);
        let acc1 = acc.push(p);
        assert(array_items(items_from(ps, k) + config_tail(), acc) == array_items(after, acc1));
        lemma_skip_ws_prefix(seq!['\n'], x);
        lemma_array_items_ws(seq!['\n'] + x, x, acc1);
        if k + 1 < ps.len() {
            assert(after =~= seq![','] + (seq!['\n'] + x));
            assert(skip_ws_s(after) == after);
            assert(after.drop_first() =~= seq!['\n'] + x);
        } else {
            assert(after =~= seq!['\n'] + x);
        }
        assert(array_items(after, acc1) == array_items(x, acc1));
        lemma_array_round_trip(ps, k + 1, acc1);
        assert(acc1 + ps.skip(k + 1) =~= acc + ps.skip(k));
    }
}

} // verus!

verus! {

proof fn lemma_scan_key(key: Seq<char>, x: Seq<char>, pets: Seq<PetView>)
    requires
        forall|i: int| 0 <= i < key.len() ==> #[trigger] key[i] != '"',
    ensures
        config_scan(seq!['"'] + key + seq!['"'] + x, pets) == if key == "pets"@ {
            let (arr, r) = pets_array_s(after_colon(x));
            config_scan(r, if arr.len() > 0 { arr } else { pets })
        } else {
            config_scan(skip_value_s(after_colon(x)), pets)
        },
{
    let f = seq!['"'] + key + seq!['"'] + x;
    assert(skip_ws_s(f) == f);
    let w = f.drop_first();
    let after_key = seq!['"'] + x;
    assert(w =~= key + after_key);
    lemma_quote_len_concat(key, after_key);
    assert(w.take(key.len() as int) =~= key);
    assert(w.skip(key.len() as int) =~= after_key);
    assert(skip1(after_key) =~= x);
}

proof fn lemma_head_lit()
    ensures
        config_head() == seq!['{', '\n', ' ', ' '] + (seq!['"'] + "version"@ + seq!['"'] + (seq![
            ':',
            ' ',
            '2',
            ',',
            '\n',
            ' ',
            ' ',
        ] + (seq!['"'] + "pets"@ + seq!['"'] + seq![':', ' ', '[', '\n']))),
        forall|i: int| 0 <= i < "version"@.len() ==> #[trigger] "version"@[i] != '"',
        forall|i: int| 0 <= i < "pets"@.len() ==> #[trigger] "pets"@[i] != '"',
        "version"@ != "pets"@,
{
    reveal_strlit("{\n  \"version\": 2,\n  \"pets\": [\n");
    reveal_strlit("version");
    reveal_strlit("pets");
    assert(config_head() =~= seq!['{', '\n', ' ', ' '] + (seq!['"'] + "version"@ + seq!['"'] + (
    seq![':', ' ', '2', ',', '\n', ' ', ' '] + (seq!['"'] + "pets"@ + seq!['"'] + seq![
        ':',
        ' ',
        '[',
        '\n',
    ]))));
}

/// Reading the end of the file after the pets array keeps what was read.
proof fn lemma_scan_end(pets: Seq<PetView>)
    ensures
        config_scan(seq!['\n', '}', '\n'], pets) == pets,
{
    let t = seq!['\n', '}', '\n'];
    assert(t.drop_first() =~= seq!['}', '\n']);
    assert(skip_ws_s(seq!['}', '\n']) == seq!['}', '\n']);
    assert(skip_ws_s(t) == seq!['}', '\n']);
    assert(seq!['}', '\n'].drop_first() =~= seq!['\n']);
    assert(seq!['\n'].drop_first() =~= Seq::<char>::empty());
    assert(skip_ws_s(Seq::<char>::empty()) == Seq::<char>::empty());
    assert(skip_ws_s(seq!['\n']) == Seq::<char>::empty());
    assert(config_scan(seq!['\n'], pets) == pets);
}

/// What the writer writes for a non-empty list of pets, the reader reads
/// back as exactly that list, whatever it started from; for each pet the
/// number fields must be their own trim, hold no `,`, `}` or `]` and not
/// start with `"`, and the facing must hold no `"`.
pub proof fn lemma_config_round_trip(ps: Seq<PetView>, start: Seq<PetView>)
    requires
        ps.len() > 0,
        forall|i: int| 0 <= i < ps.len() ==> pet_safe(#[trigger] ps[i]),
    ensures
        config_scan(config_text(ps), start) == ps,
{
    lemma_head_lit();
    lemma_tail_lits();
    let m = items_from(ps, 0) + config_tail();
    let y = seq![':', ' ', '[', '\n'] + m;
    let t3 = seq!['"'] + "pets"@ + seq!['"'] + y;
    let x = seq![':', ' ', '2', ',', '\n', ' ', ' '] + t3;
    let t2 = seq!['"'] + "version"@ + seq!['"'] + x;
    let t1 = seq!['\n', ' ', ' '] + t2;
    assert(config_text(ps) =~= seq!['{'] + t1);
    let t0 = seq!['{'] + t1;
    assert(skip_ws_s(t0) == t0);
    assert(t0.drop_first() =~= t1);
    assert(config_scan(t0, start) == config_scan(t1, start));
    lemma_skip_ws_prefix(seq!['\n', ' ', ' '], t2);
    assert(skip_ws_s(t2) == t2);
    lemma_config_scan_ws(t1, t2, start);
    lemma_scan_key("version"@, x, start);
    assert(skip_ws_s(x) == x);
    let b = seq![' ', '2', ',', '\n', ' ', ' '] + t3;
    assert(after_colon(x) =~= b);
    let b2 = seq!['2', ',', '\n', ' ', ' '] + t3;
    assert(b =~= seq![' '] + b2);
    lemma_skip_ws_prefix(seq![' '], b2);
    assert(skip_ws_s(b2) == b2);
    let c = seq!['\n', ' ', ' '] + t3;
    assert(b2.drop_first() =~= seq![','] + c);
    assert((seq![','] + c).drop_first() =~= c);
    assert(scan_value(seq![','] + c, 0) == c);
    assert(skip_value_s(b) == c);
    lemma_skip_ws_prefix(seq!['\n', ' ', ' '], t3);
    assert(skip_ws_s(t3) == t3);
    lemma_config_scan_ws(c, t3, start);
    lemma_scan_key("pets"@, y, start);
    assert(skip_ws_s(y) == y);
    let z = seq![' ', '[', '\n'] + m;
    assert(after_colon(y) =~= z);
    let z2 = seq!['[', '\n'] + m;
    assert(z =~= seq![' '] + z2);
    lemma_skip_ws_prefix(seq![' '], z2);
    assert(skip_ws_s(z2) == z2);
    assert(z2.drop_first() =~= seq!['\n'] + m);
    lemma_skip_ws_prefix(seq!['\n'], m);
    lemma_array_items_ws(seq!['\n'] + m, m, Seq::empty());
    lemma_array_round_trip(ps, 0, Seq::empty());
    assert(Seq::<PetView>::empty() + ps.skip(0) =~= ps);
    assert(pets_array_s(z) == (ps, "\n}\n"@));
    lemma_scan_end(ps);
}

} // verus!

verus! {

/// Reading a field does not depend on whitespace around its value: the
/// switches `on_top` and `no_move` are on exactly when the value without
/// its surrounding whitespace is `true`, the numbers are kept without it,
/// and so whitespace added around a value changes nothing but the facing,
/// which is kept as written.
pub proof fn lemma_field_values_trimmed(e: PetView, val: Seq<char>, w1: Seq<char>, w2: Seq<char>)
    requires
        all_ws(w1),
        all_ws(w2),
    ensures
        apply_field(e, "no_move"@, val).no_move == (trim(val) == "true"@),
        apply_field(e, "on_top"@, val).on_top == (trim(val) == "true"@),
        apply_field(e, "scale"@, val).scale == trim(val),
        apply_field(e, "rx"@, val).rx == trim(val),
        apply_field(e, "ry"@, val).ry == trim(val),
        apply_field(e, "facing"@, val).facing == val,
        forall|k: Seq<char>|
            k != "facing"@ ==> #[trigger] apply_field(e, k, w1 + val + w2) == apply_field(e, k, val),
{
    reveal_strlit("facing");
    reveal_strlit("scale");
    reveal_strlit("on_top");
    reveal_strlit("no_move");
    reveal_strlit("rx");
    reveal_strlit("ry");
    assert("no_move"@.len() == 7 && "facing"@.len() == 6 && "scale"@.len() == 5);
    assert("on_top"@.len() == 6 && "rx"@.len() == 2 && "ry"@.len() == 2);
    assert("on_top"@[0] != "facing"@[0]);
    assert("rx"@[1] != "ry"@[1]);
    lemma_trim_ws_around(w1, val, w2);
}

} // verus!
