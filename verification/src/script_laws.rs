//! Properties of FerrisScript that span statements: `add` and `sub` undo
//! each other, and the variable slots stay in order.
use vstd::prelude::*;
use vstd::arithmetic::div_mod::{lemma_fundamental_div_mod, lemma_mod_multiples_vanish};
use crate::script::{
    Class, VarType, VarV, skip, lemma_skip, stmt, kw_add, kw_sub, kw_print, kw_var, kw_at, wrap_u8,
    wrap_i8, arith_effect, var_effect, live_named, named, decl_fits, padded, decl_type, digits_start, dec_value,
};
use crate::search::{first_from, first_index, lemma_first_index};
use crate::vfs::{text_of, lemma_text_len_is};

verus! {

/// Subtracting what was added leaves the same remainder modulo 256.
proof fn lemma_mod_back(o: int, d: int)
    ensures
        ((o + d) % 256 - d) % 256 == o % 256,
{
    let x = o + d;
    lemma_fundamental_div_mod(x, 256);
    let q = x / 256;
    assert(x % 256 - d == 256 * (-q) + o);
    lemma_mod_multiples_vanish(-q, o, 256);
}

/// A byte wrapped after adding and subtracting the same amount is the byte.
proof fn lemma_u8_back(o: u8, d: int)
    ensures
        wrap_u8(wrap_u8(o + d) - d) == o,
{
    lemma_mod_back(o as int, d);
    assert((o as int) % 256 == o);
}

/// A signed byte wrapped after adding and subtracting the same amount is
/// the signed byte.
proof fn lemma_i8_back(o: i8, d: int)
    ensures
        wrap_i8(wrap_i8(o + d) - d) == o,
{
    let x = o + d;
    let r = x % 256;
    let b: int = if r >= 128 { 1 } else { 0 };
    let i1 = r - 256 * b;
    assert(wrap_i8(x) == i1);
    lemma_mod_back(o as int, d);
    lemma_mod_multiples_vanish(-b, r - d, 256);
    assert(i1 - d == 256 * (-b) + (r - d));
    assert((i1 - d) % 256 == (o as int) % 256);
    if o < 0 {
        lemma_mod_multiples_vanish(-1, o + 256, 256);
        assert((o as int) % 256 == o + 256);
    } else {
        assert((o as int) % 256 == o);
    }
}

/// Two byte strings that agree from `m` on are skipped alike from `m` on.
proof fn lemma_skip_tail(c1: Seq<u8>, c2: Seq<u8>, m: int, i: int, k: Class)
    requires
        c1.len() == c2.len(),
        0 <= m <= i,
        forall|j: int| m <= j < c1.len() ==> c1[j] == c2[j],
    ensures
        skip(c1, i, k) == skip(c2, i, k),
    decreases c1.len() - i,
{
    if i < c1.len() {
        lemma_skip_tail(c1, c2, m, i + 1, k);
    }
}

/// A search over two sequences on which a property agrees stops at the
/// same place.
proof fn lemma_first_from_same<T>(a: Seq<T>, b: Seq<T>, p: spec_fn(T) -> bool, i: int)
    requires
        a.len() == b.len(),
        forall|j: int| 0 <= j < a.len() ==> p(#[trigger] a[j]) == p(b[j]),
    ensures
        first_from(a, p, i) == first_from(b, p, i),
    decreases a.len() - i,
{
    if 0 <= i < a.len() && !p(a[i]) {
        lemma_first_from_same(a, b, p, i + 1);
    }
}

/// `add` and then `sub` with the same operands give the variables back:
/// `tail` is what follows the keyword (a blank, the name, blanks and the
/// amount). The two fail on the same amounts (too large to read), and
/// otherwise neither prints.
pub proof fn lemma_add_then_sub(tail: Seq<u8>, vars: Seq<VarV>)
    requires
        tail.len() >= 1,
    ensures
        ({
            let ca = kw_add() + tail;
            let cs = kw_sub() + tail;
            let e1 = stmt(ca, 0, vars);
            let e2 = stmt(cs, 0, e1.vars);
            &&& (e1.next is Crash) == (stmt(cs, 0, vars).next is Crash)
            &&& !(e1.next is Crash) ==> {
                &&& e2.vars == vars
                &&& !(e2.next is Crash)
                &&& e1.out.len() == 0
                &&& e2.out.len() == 0
            }
        }),
{
    let ca = kw_add() + tail;
    let cs = kw_sub() + tail;
    let n = ca.len() as int;
    assert(cs.len() == n);
    assert forall|j: int| 3 <= j < n implies ca[j] == cs[j] by {
        assert(ca[j] == tail[j - 3]);
        assert(cs[j] == tail[j - 3]);
    }
    // which statement each is
    assert(ca.subrange(0, 3) =~= kw_add());
    assert(cs.subrange(0, 3) =~= kw_sub());
    assert(!kw_at(ca, 0, kw_print(), 5)) by {
        if kw_at(ca, 0, kw_print(), 5) {
            assert(ca.subrange(0, 5)[0] == kw_print()[0]);
        }
    }
    assert(!kw_at(ca, 0, kw_var(), 4)) by {
        if kw_at(ca, 0, kw_var(), 4) {
            assert(ca.subrange(0, 3)[0] == kw_var()[0]);
        }
    }
    assert(!kw_at(cs, 0, kw_print(), 5)) by {
        if kw_at(cs, 0, kw_print(), 5) {
            assert(cs.subrange(0, 5)[0] == kw_print()[0]);
        }
    }
    assert(!kw_at(cs, 0, kw_var(), 4)) by {
        if kw_at(cs, 0, kw_var(), 4) {
            assert(cs.subrange(0, 3)[0] == kw_var()[0]);
        }
    }
    assert(cs.subrange(0, 3) != kw_add()) by {
        assert(cs.subrange(0, 3)[0] != kw_add()[0]);
    }
    assert(kw_at(ca, 0, kw_add(), 4));
    assert(kw_at(cs, 0, kw_sub(), 4));
    // the operands read alike
    let k = 4int;
    lemma_skip(ca, k, Class::NotSpace);
    lemma_skip_tail(ca, cs, 3, k, Class::NotSpace);
    let e = skip(ca, k, Class::NotSpace);
    lemma_skip(ca, e, Class::Space);
    lemma_skip_tail(ca, cs, 3, e, Class::Space);
    let v = skip(ca, e, Class::Space);
    assert(digits_start(ca, v) == digits_start(cs, v));
    let st = digits_start(ca, v);
    lemma_skip(ca, st, Class::Digit);
    lemma_skip_tail(ca, cs, 3, st, Class::Digit);
    let d = skip(ca, st, Class::Digit);
    assert(ca.subrange(k, e) =~= cs.subrange(k, e));
    assert(ca.subrange(st, d) =~= cs.subrange(st, d));
    let name = ca.subrange(k, e);
    let p = live_named(name);
    let e1 = stmt(ca, 0, vars);
    let s = first_index(vars, p);
    lemma_first_index(vars, p);
    if !(e1.next is Crash) {
        let v1 = e1.vars;
        assert(v1.len() == vars.len());
        assert forall|j: int| 0 <= j < vars.len() implies p(#[trigger] vars[j]) == p(v1[j]) by {
            if j == s {
                assert(v1[j].active == vars[j].active && v1[j].name == vars[j].name);
            }
        }
        lemma_first_from_same(vars, v1, p, 0);
        let e2 = stmt(cs, 0, v1);
        if s < vars.len() {
            let o = vars[s];
            match o.v_type {
                VarType::U8 => {
                    lemma_u8_back(o.u_val,
                        if st == v + 1 { -dec_value(ca.subrange(st, d)) }
                        else { dec_value(ca.subrange(st, d)) as int });
                    assert(e2.vars =~= vars);
                },
                VarType::I8 => {
                    lemma_i8_back(o.i_val,
                        if st == v + 1 { -dec_value(ca.subrange(st, d)) }
                        else { dec_value(ca.subrange(st, d)) as int });
                    assert(e2.vars =~= vars);
                },
                _ => {
                    assert(e2.vars =~= vars);
                },
            }
        } else {
            assert(e2.vars =~= vars);
        }
    }
}

/// The live variable slots come first, and no two of them share a name.
pub open spec fn slots_ok(vars: Seq<VarV>) -> bool {
    &&& forall|s: int, t: int| 0 <= s < t < vars.len() && (#[trigger] vars[t]).active
        ==> (#[trigger] vars[s]).active
    &&& forall|s: int, t: int| 0 <= s < t < vars.len() && (#[trigger] vars[s]).active
        && (#[trigger] vars[t]).active ==> text_of(vars[s].name) != text_of(vars[t].name)
}

/// The name that a `var` statement at `i` declares.
pub open spec fn declared_name(c: Seq<u8>, i: int) -> Seq<u8> {
    let k2 = decl_type(c, i + 4).1;
    c.subrange(k2, skip(c, k2, Class::NameByte))
}

/// A name that a slot keeps as it is: at most 16 bytes, none of them zero.
pub open spec fn name_fits(name: Seq<u8>) -> bool {
    &&& name.len() <= 16
    &&& forall|j: int| 0 <= j < name.len() ==> name[j] != 0
}

/// A fitting name, padded into a slot, reads back as itself.
proof fn lemma_padded_name(name: Seq<u8>)
    requires
        name_fits(name),
    ensures
        text_of(padded(name, 16)) == name,
{
    let p = padded(name, 16);
    lemma_text_len_is(p, name.len() as int);
    assert(p.take(name.len() as int) =~= name);
}

/// Slots with the same liveness and names are in order together.
proof fn lemma_slots_same_shape(a: Seq<VarV>, b: Seq<VarV>)
    requires
        slots_ok(a),
        a.len() == b.len(),
        forall|j: int| 0 <= j < a.len() ==> (#[trigger] b[j]).active == a[j].active && b[j].name == a[j].name,
    ensures
        slots_ok(b),
{
    assert forall|s: int, t: int| 0 <= s < t < b.len() && (#[trigger] b[t]).active
        implies (#[trigger] b[s]).active by {
        assert(a[t].active);
    }
    assert forall|s: int, t: int| 0 <= s < t < b.len() && (#[trigger] b[s]).active
        && (#[trigger] b[t]).active implies text_of(b[s].name) != text_of(b[t].name) by {
        assert(a[s].active && a[t].active);
    }
}

/// A declaration keeps the live slots first and their names apart.
proof fn lemma_decl_keeps_slots(c: Seq<u8>, i: int, vars: Seq<VarV>)
    requires
        slots_ok(vars),
        0 <= i,
        decl_type(c, i + 4).1 <= c.len() ==> name_fits(declared_name(c, i)),
    ensures
        slots_ok(var_effect(c, i, vars).vars),
        var_effect(c, i, vars).vars.len() == vars.len(),
{
    let w = var_effect(c, i, vars).vars;
    let k2 = decl_type(c, i + 4).1;
    if k2 <= c.len() {
        lemma_skip(c, k2, Class::NameByte);
        let name = declared_name(c, i);
        let p = decl_fits(name);
        let s = first_index(vars, p);
        lemma_first_index(vars, p);
        if s < vars.len() {
            lemma_padded_name(name);
            assert(w.len() == vars.len());
            assert(w[s].active);
            assert(text_of(w[s].name) == name);
            assert forall|j: int| 0 <= j < vars.len() && j != s implies #[trigger] w[j] == vars[j] by {}
            assert forall|s0: int, t: int| 0 <= s0 < t < w.len() && (#[trigger] w[t]).active
                implies (#[trigger] w[s0]).active by {
                if t == s {
                    assert(!p(vars[s0]));
                } else if s0 != s {
                    assert(w[t] == vars[t] && w[s0] == vars[s0]);
                }
            }
            assert forall|s0: int, t: int| 0 <= s0 < t < w.len() && (#[trigger] w[s0]).active
                && (#[trigger] w[t]).active implies text_of(w[s0].name) != text_of(w[t].name) by {
                if t == s {
                    assert(!p(vars[s0]));
                    assert(w[s0] == vars[s0]);
                } else if s0 == s {
                    assert(w[t] == vars[t]);
                    assert(vars[s].active);
                    assert(named(vars[s], name));
                } else {
                    assert(w[t] == vars[t] && w[s0] == vars[s0]);
                }
            }
        }
    }
}

/// `add` and `sub` change only values, so the slots stay in order.
proof fn lemma_arith_keeps_slots(c: Seq<u8>, i: int, vars: Seq<VarV>)
    requires
        slots_ok(vars),
        0 <= i,
        i + 4 <= c.len(),
    ensures
        slots_ok(arith_effect(c, i, vars).vars),
        arith_effect(c, i, vars).vars.len() == vars.len(),
{
    let w = arith_effect(c, i, vars).vars;
    let k = i + 4;
    lemma_skip(c, k, Class::NotSpace);
    let e = skip(c, k, Class::NotSpace);
    let name = c.subrange(k, e);
    lemma_skip(c, e, Class::Space);
    let v = skip(c, e, Class::Space);
    let st = digits_start(c, v);
    lemma_skip(c, st, Class::Digit);
    let d = skip(c, st, Class::Digit);
    let val = dec_value(c.subrange(st, d));
    if val <= 32767 {
        let sl = first_index(vars, live_named(name));
        lemma_first_index(vars, live_named(name));
        if sl < vars.len() {
            assert forall|j: int| 0 <= j < vars.len() implies (#[trigger] w[j]).active == vars[j].active
                && w[j].name == vars[j].name by {
                if j != sl {
                    assert(w[j] == vars[j]);
                }
            }
            lemma_slots_same_shape(vars, w);
        }
    }
}

/// Every statement keeps the live slots first and their names apart,
/// provided that a declared name fits a slot: `var` of a live name fills
/// its slot, a new name takes the first free slot, and with no free slot
/// the declaration is dropped; the other statements leave liveness and
/// names alone. New slots (`Vars::new`) are all free, so in order.
pub proof fn lemma_stmt_keeps_slots(c: Seq<u8>, i: int, vars: Seq<VarV>)
    requires
        slots_ok(vars),
        0 <= i,
        kw_at(c, i, kw_var(), 4) && decl_type(c, i + 4).1 <= c.len() ==> name_fits(declared_name(c, i)),
    ensures
        slots_ok(stmt(c, i, vars).vars),
        stmt(c, i, vars).vars.len() == vars.len(),
{
    if kw_at(c, i, kw_print(), 5) {
    } else if kw_at(c, i, kw_var(), 4) {
        lemma_decl_keeps_slots(c, i, vars);
    } else if kw_at(c, i, kw_add(), 4) || kw_at(c, i, kw_sub(), 4) {
        lemma_arith_keeps_slots(c, i, vars);
    }
}

} // verus!
