//! V4059: the data components walker, and the `minecraft:food` component's
//! eating time, effects and leftover move to `minecraft:consumable` (and
//! `minecraft:use_remainder`).

use vstd::prelude::*;
use super::super::registry::{state_pair};
use crate::nbt::{is_number, lemma_put_back, list_of, lookup, map_of, reads_f64, str_of, NbtMap, NbtValue};
use crate::float::{f64_to_f32_bits, narrows_to};
use crate::loss::{appended_at, lemma_appended_chain, lemma_appended_none, lemma_appended_one, report, LossEntry, LossKind, LossReport, Severity};
use crate::text::str_eq;
use super::super::registry::{entry, convert_map, lemma_report_grows_trans, report_grows, Action, Registration, Registry, RegistryBuilder, TypeKey, Walker};
use super::super::dispatch::{Conv, CustomWalker};
use super::super::walker::{convert, convert_list, convert_list_path, convert_value, convert_value_list, lemma_replaced_at, lemma_steps_push, value_list_at_path_converted, equippable_done, nested_done, steps_done, WalkStep};
use super::super::registry::{at_path_converted, compound_of, map_converted, value_at_path_converted};

verus! {

/// This version.
pub const VERSION: i32 = 4059;

/// From this version on, written book pages are stored as NBT.
pub const NBT_PAGES_VERSION: i32 = 4290;

/// 1.6 as binary32 bits: the default eating time.
pub const DEFAULT_EAT_SECONDS: u32 = 0x3FCC_CCCD;

/// 1.0 as binary32 bits: the default effect probability.
pub const DEFAULT_PROBABILITY: u32 = 0x3F80_0000;

/// `c` is the float the tag `v` gives: a number narrowed, else `default`.
pub open spec fn float_or(v: Option<NbtValue>, default: u32, c: u32) -> bool {
    match v {
        Some(t) => if is_number(t) {
            exists|x: u64| #[trigger] reads_f64(t, x) && narrows_to(x, c)
        } else {
            c == default
        },
        None => c == default,
    }
}

/// The float at `key`: a number narrowed, else `default`.
fn get_f32(m: &NbtMap, key: &str, default: u32) -> (c: u32)
    ensures
        float_or(lookup(m@, key@), default, c),
{
    match m.get(key) {
        Some(t) => match crate::nbt::value_as_f64(t) {
            Some(x) => f64_to_f32_bits(x),
            None => default,
        },
        None => default,
    }
}

/// `t` is the consume effect wrapping the old food effect `m`: an
/// `apply_effects` of its `effect` (if any) with its probability.
pub open spec fn effect_wrapped(m: Map<Seq<char>, NbtValue>, t: NbtValue) -> bool {
    match t {
        NbtValue::Compound(w) => {
            &&& w@.dom() == set!["type"@, "effects"@, "probability"@]
            &&& str_of(w@, "type"@) == Some("minecraft:apply_effects"@)
            &&& list_of(w@, "effects"@) == Some(
                match lookup(m, "effect"@) {
                    Some(e) => seq![e],
                    None => Seq::empty(),
                },
            )
            &&& match w@["probability"@] {
                NbtValue::Float(p) => float_or(lookup(m, "probability"@), DEFAULT_PROBABILITY, p),
                _ => false,
            }
        },
        _ => false,
    }
}

/// `out` is the old food effects `l` wrapped, skipping what is no compound.
pub open spec fn effects_wrapped(l: Seq<NbtValue>, out: Seq<NbtValue>) -> bool
    decreases l.len(),
{
    if l.len() == 0 {
        out.len() == 0
    } else {
        match l.last() {
            NbtValue::Compound(m) => out.len() > 0 && effect_wrapped(m@, out.last()) && effects_wrapped(
                l.drop_last(),
                out.drop_last(),
            ),
            _ => effects_wrapped(l.drop_last(), out),
        }
    }
}

/// The list at `key`, or an empty one.
pub open spec fn list_or_empty(m: Map<Seq<char>, NbtValue>, key: Seq<char>) -> Seq<NbtValue> {
    match list_of(m, key) {
        Some(l) => l,
        None => Seq::empty(),
    }
}

/// Wrap one old food effect.
fn wrap_effect(mut m: NbtMap) -> (t: NbtValue)
    ensures
        effect_wrapped(m@, t),
{
    let ghost m0 = m@;
    let p = get_f32(&m, "probability", DEFAULT_PROBABILITY);
    let mut inner: Vec<NbtValue> = Vec::new();
    match m.take("effect") {
        Some(e) => inner.push(e),
        None => {},
    }
    proof {
        assert(inner@ =~= match lookup(m0, "effect"@) {
            Some(e) => seq![e],
            None => Seq::<NbtValue>::empty(),
        });
    }
    let mut w = NbtMap::new();
    w.set_string("type", "minecraft:apply_effects");
    w.set_list("effects", inner);
    w.set_f32_bits("probability", p);
    proof {
        reveal_strlit("type");
        reveal_strlit("effects");
        reveal_strlit("probability");
        assert("type"@[0] != "effects"@[0] && "type"@[0] != "probability"@[0] && "effects"@[0] != "probability"@[0]);
        assert(w@.dom() =~= set!["type"@, "effects"@, "probability"@]);
    }
    NbtValue::Compound(w)
}

/// Wrap every compound of the old food effects.
fn wrap_effects(list: Vec<NbtValue>) -> (out: Vec<NbtValue>)
    ensures
        effects_wrapped(list@, out@),
{
    let ghost l = list@;
    let mut rest = list;
    let mut out: Vec<NbtValue> = Vec::new();
    proof {
        assert(l.take(0) =~= Seq::<NbtValue>::empty());
    }
    while rest.len() > 0
        invariant
            rest@.len() <= l.len(),
            rest@ == l.subrange(l.len() - rest@.len(), l.len() as int),
            effects_wrapped(l.take(l.len() - rest@.len()), out@),
        decreases rest@.len(),
    {
        let ghost i = l.len() - rest@.len();
        let el = rest.remove(0);
        assert(el == l[i]);
        let ghost before = out@;
        match el {
            NbtValue::Compound(m) => {
                out.push(wrap_effect(m));
            },
            _ => {},
        }
        proof {
            let post = l.take(i + 1);
            assert(post.drop_last() =~= l.take(i));
            assert(post.last() == l[i]);
            if out@.len() > before.len() {
                assert(out@.drop_last() =~= before);
            }
        }
        assert(rest@ =~= l.subrange(l.len() - rest@.len(), l.len() as int));
    }
    proof {
        assert(l.take(l.len() as int) =~= l);
    }
    out
}

/// The keys this version touches are distinct.
proof fn lemma_keys()
    ensures
        "minecraft:food"@ != "minecraft:consumable"@,
        "minecraft:food"@ != "minecraft:use_remainder"@,
        "minecraft:consumable"@ != "minecraft:use_remainder"@,
        "eat_seconds"@ != "effects"@,
        "eat_seconds"@ != "using_converts_to"@,
        "effects"@ != "using_converts_to"@,
        "consume_seconds"@ != "on_consume_effects"@,
        "effect"@ != "probability"@,
{
    reveal_strlit("minecraft:food");
    reveal_strlit("minecraft:consumable");
    reveal_strlit("minecraft:use_remainder");
    reveal_strlit("eat_seconds");
    reveal_strlit("effects");
    reveal_strlit("using_converts_to");
    reveal_strlit("consume_seconds");
    reveal_strlit("on_consume_effects");
    reveal_strlit("effect");
    reveal_strlit("probability");
    assert("minecraft:food"@[10] != "minecraft:consumable"@[10]);
    assert("minecraft:food"@[10] != "minecraft:use_remainder"@[10]);
    assert("minecraft:consumable"@[10] != "minecraft:use_remainder"@[10]);
    assert("eat_seconds"@[1] != "effects"@[1]);
    assert("eat_seconds"@[0] != "using_converts_to"@[0]);
    assert("effects"@[0] != "using_converts_to"@[0]);
    assert("consume_seconds"@[0] != "on_consume_effects"@[0]);
    assert("effect"@[0] != "probability"@[0]);
}

/// The components after the forward change: a `minecraft:food` loses its
/// eating time, effects and leftover; `minecraft:consumable` holds the
/// eating time and the wrapped effects; the leftover becomes
/// `minecraft:use_remainder`.
pub open spec fn food_moved(old: Map<Seq<char>, NbtValue>, new: Map<Seq<char>, NbtValue>) -> bool {
    match map_of(old, "minecraft:food"@) {
        Some(f) => {
            &&& new.remove("minecraft:food"@).remove("minecraft:consumable"@).remove("minecraft:use_remainder"@)
                == old.remove("minecraft:food"@).remove("minecraft:consumable"@).remove("minecraft:use_remainder"@)
            &&& map_of(new, "minecraft:food"@) matches Some(f2) && f2@ == f@.remove("eat_seconds"@).remove(
                "effects"@,
            ).remove("using_converts_to"@)
            &&& lookup(new, "minecraft:use_remainder"@) == (match lookup(f@, "using_converts_to"@) {
                Some(v) => Some(v),
                None => lookup(old, "minecraft:use_remainder"@),
            })
            &&& match map_of(new, "minecraft:consumable"@) {
                Some(c) => {
                    &&& c@.dom() == set!["consume_seconds"@, "on_consume_effects"@]
                    &&& match c@["consume_seconds"@] {
                        NbtValue::Float(s) => float_or(lookup(f@, "eat_seconds"@), DEFAULT_EAT_SECONDS, s),
                        _ => false,
                    }
                    &&& match list_of(c@, "on_consume_effects"@) {
                        Some(out) => effects_wrapped(list_or_empty(f@, "effects"@), out),
                        None => false,
                    }
                },
                None => false,
            }
        },
        None => new == old,
    }
}

/// What [`food_to_consumable`] makes of `data_in`.
pub open spec fn food_to_consumable_effect(data_in: NbtMap, data_out: NbtMap) -> bool {
    &&& food_moved(data_in@, data_out@)
}

/// Forward on data components.
pub fn food_to_consumable(data: &mut NbtMap)
    ensures
        food_moved(old(data)@, final(data)@),
{
    proof {
        lemma_keys();
    }
    let mut food = match data.take_map("minecraft:food") {
        Some(f) => f,
        None => return ,
    };
    let ghost mid = data@;
    let ghost f0 = food@;
    let eat_seconds = get_f32(&food, "eat_seconds", DEFAULT_EAT_SECONDS);
    let old_effects = match food.take_list("effects") {
        Some(l) => l,
        None => Vec::new(),
    };
    let ghost f1 = food@;
    let converts_to = food.take("using_converts_to");
    food.take("eat_seconds");
    food.take("effects");
    proof {
        assert(food@ =~= f0.remove("eat_seconds"@).remove("effects"@).remove("using_converts_to"@)) by {
            assert(f1.remove("effects"@) =~= f0.remove("effects"@));
            assert(food@ =~= f1.remove("using_converts_to"@).remove("eat_seconds"@).remove("effects"@));
            assert(f1.remove("using_converts_to"@).remove("eat_seconds"@).remove("effects"@) =~= f1.remove("effects"@).remove(
                "using_converts_to"@,
            ).remove("eat_seconds"@));
            assert(f0.remove("effects"@).remove("using_converts_to"@).remove("eat_seconds"@) =~= f0.remove("eat_seconds"@).remove(
                "effects"@,
            ).remove("using_converts_to"@));
        }
        assert(old_effects@ == list_or_empty(f0, "effects"@));
        assert(converts_to == lookup(f0, "using_converts_to"@)) by {
            assert(f1.remove("effects"@) =~= f0.remove("effects"@));
            assert(f1.remove("effects"@).dom().contains("using_converts_to"@) == f1.dom().contains("using_converts_to"@));
            assert(f0.remove("effects"@).dom().contains("using_converts_to"@) == f0.dom().contains("using_converts_to"@));
            assert(f1.remove("effects"@)["using_converts_to"@] == f1["using_converts_to"@]);
            assert(f0.remove("effects"@)["using_converts_to"@] == f0["using_converts_to"@]);
        }
    }
    let new_effects = wrap_effects(old_effects);
    data.set_map("minecraft:food", food);
    proof {
        lemma_put_back(old(data)@, mid, "minecraft:food"@, NbtValue::Compound(food));
    }
    let ghost m1 = data@;
    match converts_to {
        Some(v) => data.set("minecraft:use_remainder", v),
        None => {},
    }
    let mut consumable = NbtMap::new();
    consumable.set_f32_bits("consume_seconds", eat_seconds);
    consumable.set_list("on_consume_effects", new_effects);
    proof {
        assert(consumable@.dom() =~= set!["consume_seconds"@, "on_consume_effects"@]);
    }
    let ghost m2 = data@;
    data.set_map("minecraft:consumable", consumable);
    proof {
        assert(data@.remove("minecraft:food"@).remove("minecraft:consumable"@).remove("minecraft:use_remainder"@)
            =~= old(data)@.remove("minecraft:food"@).remove("minecraft:consumable"@).remove("minecraft:use_remainder"@));
        assert(lookup(m1, "minecraft:use_remainder"@) == lookup(old(data)@, "minecraft:use_remainder"@)) by {
            assert(m1.dom().contains("minecraft:use_remainder"@) == old(data)@.dom().contains("minecraft:use_remainder"@));
        }
    }
}

/// The effects a consume effect holds, or none.
pub open spec fn inner_of(w: Map<Seq<char>, NbtValue>) -> Seq<NbtValue> {
    list_or_empty(w, "effects"@)
}

/// The consume effect `w` is an `apply_effects`.
pub open spec fn is_apply(w: Map<Seq<char>, NbtValue>) -> bool {
    str_of(w, "type"@) == Some("minecraft:apply_effects"@)
}

/// `t` is the old food effect from consume effect `w`: its first effect
/// and its probability.
pub open spec fn effect_unwrapped(w: Map<Seq<char>, NbtValue>, t: NbtValue) -> bool {
    match t {
        NbtValue::Compound(o) => {
            &&& o@.dom() == set!["effect"@, "probability"@]
            &&& o@["effect"@] == inner_of(w)[0]
            &&& match o@["probability"@] {
                NbtValue::Float(p) => float_or(lookup(w, "probability"@), DEFAULT_PROBABILITY, p),
                _ => false,
            }
        },
        _ => false,
    }
}

/// `out` is the old food effects from the consume effects `l`: one for
/// each `apply_effects` with an effect; anything else has no old form.
pub open spec fn effects_unwrapped(l: Seq<NbtValue>, out: Seq<NbtValue>) -> bool
    decreases l.len(),
{
    if l.len() == 0 {
        out.len() == 0
    } else {
        match l.last() {
            NbtValue::Compound(w) => if is_apply(w@) && inner_of(w@).len() > 0 {
                out.len() > 0 && effect_unwrapped(w@, out.last()) && effects_unwrapped(l.drop_last(), out.drop_last())
            } else {
                effects_unwrapped(l.drop_last(), out)
            },
            _ => effects_unwrapped(l.drop_last(), out),
        }
    }
}

/// The consume effect `t` loses something on the way back: it is no
/// compound, no `apply_effects`, or wraps other than exactly one effect.
pub open spec fn effect_lossy(t: NbtValue) -> bool {
    match t {
        NbtValue::Compound(w) => !is_apply(w@) || inner_of(w@).len() != 1,
        _ => true,
    }
}

/// Why the consume effect `t` loses something on the way back.
pub open spec fn effect_loss_message(t: NbtValue) -> Seq<char> {
    match t {
        NbtValue::Compound(w) => if !is_apply(w@) {
            "minecraft:consumable on_consume_effect is not minecraft:apply_effects; no legacy minecraft:food.effects encoding"@
        } else {
            "minecraft:apply_effects wraps multiple/zero effects; legacy minecraft:food.effects holds exactly one"@
        },
        _ => "non-compound minecraft:consumable on_consume_effect cannot be encoded in legacy minecraft:food.effects"@,
    }
}

/// What unwrapping the consume effects `l` reports: one loss per lossy
/// effect, in order.
pub open spec fn lossy_tags(l: Seq<NbtValue>) -> Seq<(LossKind, Severity, Seq<char>)>
    decreases l.len(),
{
    if l.len() == 0 {
        Seq::empty()
    } else {
        lossy_tags(l.drop_last()) + if effect_lossy(l.last()) {
            seq![(LossKind::ComponentDropped, Severity::Loss, effect_loss_message(l.last()))]
        } else {
            Seq::empty()
        }
    }
}

/// Unwrap the consume effects, reporting each lossy one.
fn unwrap_effects(list: Vec<NbtValue>, rep: &mut LossReport) -> (out: Vec<NbtValue>)
    ensures
        effects_unwrapped(list@, out@),
        appended_at(old(rep).entries@, final(rep).entries@, VERSION, lossy_tags(list@)),
{
    let ghost l = list@;
    let ghost r0 = rep.entries@;
    let mut rest = list;
    let mut out: Vec<NbtValue> = Vec::new();
    proof {
        assert(l.take(0) =~= Seq::<NbtValue>::empty());
        lemma_appended_none(r0, VERSION);
    }
    while rest.len() > 0
        invariant
            rest@.len() <= l.len(),
            rest@ == l.subrange(l.len() - rest@.len(), l.len() as int),
            effects_unwrapped(l.take(l.len() - rest@.len()), out@),
            appended_at(r0, rep.entries@, VERSION, lossy_tags(l.take(l.len() - rest@.len()))),
        decreases rest@.len(),
    {
        let ghost i = l.len() - rest@.len();
        let ghost r1 = rep.entries@;
        let ghost before = out@;
        let el = rest.remove(0);
        assert(el == l[i]);
        match el {
            NbtValue::Compound(mut w) => {
                let apply = match w.get_string("type") {
                    Some(t) => str_eq(t, "minecraft:apply_effects"),
                    None => false,
                };
                if !apply {
                    report(
                        rep,
                        VERSION,
                        LossKind::ComponentDropped,
                        Severity::Loss,
                        "minecraft:consumable on_consume_effect is not minecraft:apply_effects; no legacy minecraft:food.effects encoding",
                    );
                } else {
                    let ghost w0 = w@;
                    let p = get_f32(&w, "probability", DEFAULT_PROBABILITY);
                    let mut inner = match w.take_list("effects") {
                        Some(l) => l,
                        None => Vec::new(),
                    };
                    assert(inner@ == inner_of(w0));
                    if inner.len() != 1 {
                        report(
                            rep,
                            VERSION,
                            LossKind::ComponentDropped,
                            Severity::Loss,
                            "minecraft:apply_effects wraps multiple/zero effects; legacy minecraft:food.effects holds exactly one",
                        );
                    }
                    if inner.len() > 0 {
                        let effect = inner.remove(0);
                        let mut o = NbtMap::new();
                        o.set("effect", effect);
                        o.set_f32_bits("probability", p);
                        proof {
                            lemma_keys();
                            assert(o@.dom() =~= set!["effect"@, "probability"@]);
                        }
                        out.push(NbtValue::Compound(o));
                    }
                }
            },
            _ => {
                report(
                    rep,
                    VERSION,
                    LossKind::ComponentDropped,
                    Severity::Loss,
                    "non-compound minecraft:consumable on_consume_effect cannot be encoded in legacy minecraft:food.effects",
                );
            },
        }
        proof {
            let pre = l.take(i);
            let post = l.take(i + 1);
            assert(post.drop_last() =~= pre);
            assert(post.last() == l[i]);
            if out@.len() > before.len() {
                assert(out@.drop_last() =~= before);
            }
            if effect_lossy(l[i]) {
                lemma_appended_one(r1, rep.entries@, VERSION, LossKind::ComponentDropped, Severity::Loss, effect_loss_message(l[i]));
                lemma_appended_chain(
                    r0,
                    r1,
                    rep.entries@,
                    VERSION,
                    lossy_tags(pre),
                    seq![(LossKind::ComponentDropped, Severity::Loss, effect_loss_message(l[i]))],
                );
            } else {
                lemma_appended_none(r1, VERSION);
                lemma_appended_chain(r0, r1, rep.entries@, VERSION, lossy_tags(pre), Seq::empty());
                assert(lossy_tags(pre) + Seq::<(LossKind, Severity, Seq<char>)>::empty() =~= lossy_tags(pre));
            }
        }
        assert(rest@ =~= l.subrange(l.len() - rest@.len(), l.len() as int));
    }
    proof {
        assert(l.take(l.len() as int) =~= l);
    }
    out
}

/// The food a reverse change writes into: the old one, or a new empty one
/// where there is no compound.
pub open spec fn food_before(m: Map<Seq<char>, NbtValue>) -> Map<Seq<char>, NbtValue> {
    match map_of(m, "minecraft:food"@) {
        Some(f) => f@,
        None => Map::empty(),
    }
}

/// `f2` is the food `f0` with the eating time, effects and leftover of
/// consumable `c` and leftover `ur` put back.
pub open spec fn food_restored(
    f0: Map<Seq<char>, NbtValue>,
    f2: Map<Seq<char>, NbtValue>,
    c: Map<Seq<char>, NbtValue>,
    ur: Option<NbtValue>,
) -> bool {
    &&& f2.remove("eat_seconds"@).remove("effects"@).remove("using_converts_to"@) == f0.remove("eat_seconds"@).remove(
        "effects"@,
    ).remove("using_converts_to"@)
    &&& f2.dom().contains("eat_seconds"@)
    &&& match f2["eat_seconds"@] {
        NbtValue::Float(s) => float_or(lookup(c, "consume_seconds"@), DEFAULT_EAT_SECONDS, s),
        _ => false,
    }
    &&& exists|out: Seq<NbtValue>|
        #[trigger] effects_unwrapped(list_or_empty(c, "on_consume_effects"@), out) && if out.len() > 0 {
            list_of(f2, "effects"@) == Some(out)
        } else {
            lookup(f2, "effects"@) == lookup(f0, "effects"@)
        }
    &&& lookup(f2, "using_converts_to"@) == match ur {
        Some(v) => Some(v),
        None => lookup(f0, "using_converts_to"@),
    }
}

/// The components after the reverse change: `minecraft:consumable` and
/// `minecraft:use_remainder` fold back into `minecraft:food`; every lossy
/// consume effect, and a consumable with more than its eating time and
/// effects, is reported.
pub open spec fn consumable_folded(
    old: Map<Seq<char>, NbtValue>,
    new: Map<Seq<char>, NbtValue>,
    r: Seq<LossEntry>,
    r2: Seq<LossEntry>,
) -> bool {
    match lookup(old, "minecraft:consumable"@) {
        Some(NbtValue::Compound(c)) => {
            let leftover = c@.remove("consume_seconds"@).remove("on_consume_effects"@);
            &&& !new.dom().contains("minecraft:consumable"@)
            &&& !new.dom().contains("minecraft:use_remainder"@)
            &&& new.remove("minecraft:food"@) == old.remove("minecraft:consumable"@).remove("minecraft:use_remainder"@).remove(
                "minecraft:food"@,
            )
            &&& match map_of(new, "minecraft:food"@) {
                Some(f2) => food_restored(food_before(old), f2@, c@, lookup(old, "minecraft:use_remainder"@)),
                None => false,
            }
            &&& appended_at(
                r,
                r2,
                VERSION,
                lossy_tags(list_or_empty(c@, "on_consume_effects"@)) + if leftover == Map::<Seq<char>, NbtValue>::empty() {
                    Seq::empty()
                } else {
                    seq![(LossKind::ComponentDropped, Severity::Loss, "minecraft:consumable has fields with no legacy minecraft:food equivalent (e.g. animation/sound/has_consume_particles)"@)]
                },
            )
        },
        _ => new == old && r2 == r,
    }
}

/// What [`consumable_to_food`] makes of `data_in` and the report `rep_in`.
pub open spec fn consumable_to_food_effect(data_in: NbtMap, data_out: NbtMap, rep_in: LossReport, rep_out: LossReport) -> bool {
    &&& consumable_folded(data_in@, data_out@, rep_in.entries@, rep_out.entries@)
}

/// Reverse on data components.
pub fn consumable_to_food(data: &mut NbtMap, rep: &mut LossReport)
    ensures
        consumable_folded(old(data)@, final(data)@, old(rep).entries@, final(rep).entries@),
{
    proof {
        lemma_keys();
    }
    let mut consumable = match data.take("minecraft:consumable") {
        Some(NbtValue::Compound(m)) => m,
        Some(other) => {
            data.set("minecraft:consumable", other);
            proof {
                assert(data@ =~= old(data)@);
            }
            return ;
        },
        None => {
            proof {
                assert(data@ =~= old(data)@);
            }
            return ;
        },
    };
    let ghost c0 = consumable@;
    let ghost r0 = rep.entries@;
    let eat_seconds = get_f32(&consumable, "consume_seconds", DEFAULT_EAT_SECONDS);
    let on_consume = match consumable.take_list("on_consume_effects") {
        Some(l) => l,
        None => Vec::new(),
    };
    let ghost c1 = consumable@;
    assert(c1.remove("on_consume_effects"@) =~= c0.remove("on_consume_effects"@));
    assert(c1.dom() =~= c0.dom());
    assert(on_consume@ == list_or_empty(c0, "on_consume_effects"@));
    let old_effects = unwrap_effects(on_consume, rep);
    let ghost r1 = rep.entries@;
    consumable.take("consume_seconds");
    consumable.take("on_consume_effects");
    proof {
        assert(consumable@ =~= c1.remove("consume_seconds"@).remove("on_consume_effects"@));
        assert(c1.remove("consume_seconds"@).remove("on_consume_effects"@) =~= c1.remove("on_consume_effects"@).remove(
            "consume_seconds"@,
        ));
        assert(c0.remove("consume_seconds"@).remove("on_consume_effects"@) =~= c0.remove("on_consume_effects"@).remove(
            "consume_seconds"@,
        ));
        assert(consumable@ =~= c0.remove("consume_seconds"@).remove("on_consume_effects"@));
    }
    if !consumable.is_empty() {
        report(
            rep,
            VERSION,
            LossKind::ComponentDropped,
            Severity::Loss,
            "minecraft:consumable has fields with no legacy minecraft:food equivalent (e.g. animation/sound/has_consume_particles)",
        );
        proof {
            lemma_appended_one(r1, rep.entries@, VERSION, LossKind::ComponentDropped, Severity::Loss, "minecraft:consumable has fields with no legacy minecraft:food equivalent (e.g. animation/sound/has_consume_particles)"@);
            lemma_appended_chain(
                r0,
                r1,
                rep.entries@,
                VERSION,
                lossy_tags(list_or_empty(c0, "on_consume_effects"@)),
                seq![(LossKind::ComponentDropped, Severity::Loss, "minecraft:consumable has fields with no legacy minecraft:food equivalent (e.g. animation/sound/has_consume_particles)"@)],
            );
        }
    }
    let ghost m1 = data@;
    let converts_to = data.take("minecraft:use_remainder");
    let ghost m2 = data@;
    let mut food = match data.take_map("minecraft:food") {
        Some(f) => f,
        None => NbtMap::new(),
    };
    let ghost f0 = food@;
    proof {
        assert(f0 == food_before(old(data)@)) by {
            assert(map_of(m2, "minecraft:food"@) == map_of(old(data)@, "minecraft:food"@)) by {
                assert(m2 =~= old(data)@.remove("minecraft:consumable"@).remove("minecraft:use_remainder"@));
            }
        }
        assert(converts_to == lookup(old(data)@, "minecraft:use_remainder"@)) by {
            assert(m1 =~= old(data)@.remove("minecraft:consumable"@));
        }
    }
    let ghost m3 = data@;
    food.set_f32_bits("eat_seconds", eat_seconds);
    let nonempty = old_effects.len() > 0;
    let ghost effs = old_effects@;
    if nonempty {
        food.set_list("effects", old_effects);
    }
    match converts_to {
        Some(v) => food.set("using_converts_to", v),
        None => {},
    }
    data.set_map("minecraft:food", food);
    proof {
        assert(data@.remove("minecraft:food"@) =~= old(data)@.remove("minecraft:consumable"@).remove(
            "minecraft:use_remainder"@,
        ).remove("minecraft:food"@));
        assert(food@.remove("eat_seconds"@).remove("effects"@).remove("using_converts_to"@) =~= f0.remove(
            "eat_seconds"@,
        ).remove("effects"@).remove("using_converts_to"@));
        assert(effects_unwrapped(list_or_empty(c0, "on_consume_effects"@), effs));
    }
}

/// What walking a block predicate makes of `p0`: its `blocks`, one block
/// id or a list of them, converted as block names.
pub open spec fn predicate_walked(regs: Seq<Registration>, p0: NbtMap, p1: NbtMap, from: i32, to: i32) -> bool {
    match lookup(p0@, "blocks"@) {
        Some(NbtValue::String(_)) => value_at_path_converted(regs, TypeKey::BlockName, "blocks"@, p0, p1, from, to),
        Some(NbtValue::List(_)) => value_list_at_path_converted(regs, TypeKey::BlockName, "blocks"@, p0, p1, from, to),
        _ => p1@ == p0@,
    }
}

/// A block predicate: `blocks` is a block id or a list of them.
fn walk_block_predicate(reg: &Registry, p: &mut NbtMap, from: i32, to: i32)
    ensures
        predicate_walked(reg.entries@, *old(p), *final(p), from, to),
{
    let is_list = match p.get("blocks") {
        Some(NbtValue::String(_)) => Some(false),
        Some(NbtValue::List(_)) => Some(true),
        _ => None,
    };
    match is_list {
        Some(false) => convert_value(reg, TypeKey::BlockName, p, "blocks", from, to),
        Some(true) => convert_value_list(reg, TypeKey::BlockName, p, "blocks", from, to),
        None => {},
    }
}

/// A predicate list element `a` walked into `b`.
pub open spec fn predicate_element_walked(regs: Seq<Registration>, a: NbtValue, b: NbtValue, from: i32, to: i32) -> bool {
    match a {
        NbtValue::Compound(m) => b matches NbtValue::Compound(m2) && predicate_walked(regs, m, m2, from, to),
        _ => b == a,
    }
}

/// `cm` is the component `c` with each of its `predicates` walked.
pub open spec fn predicates_walked(regs: Seq<Registration>, c: NbtMap, cm: NbtMap, from: i32, to: i32) -> bool {
    match list_of(c@, "predicates"@) {
        None => cm@ == c@,
        Some(l) => cm@ == c@.insert("predicates"@, cm@["predicates"@]) && (list_of(cm@, "predicates"@) matches Some(l2)
            && l2.len() == l.len() && forall|i: int| 0 <= i < l.len() ==> #[trigger] predicate_element_walked(regs, l[i], l2[i], from, to)),
    }
}

/// `c2` is the component `c` with each of its `predicates` walked, then
/// the component walked as a predicate itself.
pub open spec fn component_predicates_walked(regs: Seq<Registration>, c: NbtMap, c2: NbtMap, from: i32, to: i32) -> bool {
    exists|cm: NbtMap| #![trigger predicates_walked(regs, c, cm, from, to)]
        predicates_walked(regs, c, cm, from, to) && predicate_walked(regs, cm, c2, from, to)
}

/// What walking the `can_break` or `can_place_on` component at `path`
/// makes of `d0`.
pub open spec fn can_predicates_walked(regs: Seq<Registration>, path: Seq<char>, d0: NbtMap, d1: NbtMap, from: i32, to: i32) -> bool {
    match map_of(d0@, path) {
        None => d1@ == d0@,
        Some(c) => exists|c2: NbtMap| #![trigger compound_of(c2)]
            d1@ == d0@.insert(path, compound_of(c2)) && component_predicates_walked(regs, c, c2, from, to),
    }
}

/// The block predicates of a `can_break` or `can_place_on` component:
/// each of its `predicates`, then the component itself.
fn walk_can_predicates(reg: &Registry, root: &mut NbtMap, path: &str, from: i32, to: i32)
    ensures
        can_predicates_walked(reg.entries@, path@, *old(root), *final(root), from, to),
{
    let ghost regs = reg.entries@;
    match root.take_map(path) {
        Some(mut component) => {
            let ghost rmid = *root;
            let ghost c0 = component;
            match component.take_list("predicates") {
                Some(list) => {
                    let ghost cmid = component;
                    let ghost l0 = list@;
                    let mut rest = list;
                    let mut out: Vec<NbtValue> = Vec::new();
                    while rest.len() > 0
                        invariant
                            regs == reg.entries@,
                            out@.len() + rest@.len() == l0.len(),
                            rest@ == l0.subrange(out@.len() as int, l0.len() as int),
                            forall|i: int| 0 <= i < out@.len() ==> #[trigger] predicate_element_walked(regs, l0[i], out@[i], from, to),
                        decreases rest@.len(),
                    {
                        let ghost k = out@.len() as int;
                        let el = rest.remove(0);
                        proof {
                            assert(el == l0[k]);
                            assert(rest@ =~= l0.subrange(k + 1, l0.len() as int));
                        }
                        let conv = match el {
                            NbtValue::Compound(mut m) => {
                                walk_block_predicate(reg, &mut m, from, to);
                                NbtValue::Compound(m)
                            },
                            other => other,
                        };
                        proof {
                            assert(predicate_element_walked(regs, l0[k], conv, from, to));
                        }
                        let ghost out0 = out@;
                        out.push(conv);
                        proof {
                            assert forall|i: int| 0 <= i < out@.len() implies #[trigger] predicate_element_walked(regs, l0[i], out@[i], from, to) by {
                                if i < k {
                                    assert(predicate_element_walked(regs, l0[i], out0[i], from, to));
                                }
                            }
                        }
                    }
                    let ghost l2 = out@;
                    let ghost outv = NbtValue::List(out);
                    component.set_list("predicates", out);
                    proof {
                        lemma_replaced_at(c0@, cmid@, "predicates"@, outv);
                        assert(component@ == c0@.insert("predicates"@, outv));
                        assert(component@["predicates"@] == outv);
                        assert(list_of(component@, "predicates"@) == Some(l2));
                        assert(list_of(c0@, "predicates"@) == Some(l0));
                        assert(predicates_walked(regs, c0, component, from, to));
                    }
                },
                None => {
                    proof {
                        assert(predicates_walked(regs, c0, component, from, to));
                    }
                },
            }
            let ghost cm = component;
            walk_block_predicate(reg, &mut component, from, to);
            let ghost c1 = component;
            root.set_map(path, component);
            proof {
                assert(component_predicates_walked(regs, c0, c1, from, to));
                lemma_replaced_at(old(root)@, rmid@, path@, NbtValue::Compound(c1));
                assert(compound_of(c1) == NbtValue::Compound(c1));
                assert(map_of(old(root)@, path@) == Some(c0));
            }
        },
        None => {},
    }
}

/// `m2` is the page `m` with its `raw` and then its `filtered` text
/// converted as text components.
pub open spec fn raw_filtered_converted(regs: Seq<Registration>, m: NbtMap, m2: NbtMap, r0: LossReport, r1: LossReport, from: i32, to: i32, fuel: nat) -> bool
    decreases fuel, 3int, 0int,
{
    exists|mm: NbtMap, rm: LossReport| #![trigger state_pair(mm, rm)]
        state_pair(mm, rm) == (mm, rm) && at_path_converted(regs, TypeKey::TextComponent, "raw"@, m, mm, r0, rm, from, to, fuel)
            && at_path_converted(regs, TypeKey::TextComponent, "filtered"@, mm, m2, rm, r1, from, to, fuel)
}

/// A page `a` of a written book converted into `b`: a filterable
/// `raw`/`filtered` pair has both converted; any other compound page is
/// itself converted as a text component when `whole`, else kept.
pub open spec fn page_converted(regs: Seq<Registration>, whole: bool, a: NbtValue, b: NbtValue, r0: LossReport, r1: LossReport, from: i32, to: i32, fuel: nat) -> bool
    decreases fuel, 4int, 0int,
{
    match a {
        NbtValue::Compound(m) => b matches NbtValue::Compound(m2) && if m@.dom().contains("raw"@) || m@.dom().contains("filtered"@) {
            raw_filtered_converted(regs, m, m2, r0, r1, from, to, fuel)
        } else if whole {
            fuel > 0 && map_converted(regs, TypeKey::TextComponent, m, m2, r0, r1, from, to, (fuel - 1) as nat)
        } else {
            m2@ == m@ && r1 == r0
        },
        _ => b == a && r1 == r0,
    }
}

/// The pages `l` converted in order into `l2`, the report running through
/// `rs`.
pub open spec fn pages_trace(regs: Seq<Registration>, whole: bool, l: Seq<NbtValue>, l2: Seq<NbtValue>, rs: Seq<LossReport>, from: i32, to: i32, fuel: nat) -> bool
    decreases fuel, 5int, 0int,
{
    &&& l2.len() == l.len()
    &&& rs.len() == l.len() + 1
    &&& forall|i: int| 0 <= i < l.len() ==> #[trigger] page_converted(regs, whole, l[i], l2[i], rs[i], rs[i + 1], from, to, fuel)
}

/// The pages `l` converted into `l2`, the report going from `r0` to `r1`.
pub open spec fn pages_done(regs: Seq<Registration>, whole: bool, l: Seq<NbtValue>, l2: Seq<NbtValue>, r0: LossReport, r1: LossReport, from: i32, to: i32, fuel: nat) -> bool
    decreases fuel, 6int, 0int,
{
    exists|rs: Seq<LossReport>| #![trigger rs.len()]
        rs.len() == l.len() + 1 && rs[0] == r0 && rs[l.len() as int] == r1 && pages_trace(regs, whole, l, l2, rs, from, to, fuel)
}

/// What walking the `pages` of a written book makes of `d0`.
pub open spec fn pages_walked(regs: Seq<Registration>, whole: bool, d0: NbtMap, d1: NbtMap, r0: LossReport, r1: LossReport, from: i32, to: i32, fuel: nat) -> bool
    decreases fuel, 7int, 0int,
{
    match list_of(d0@, "pages"@) {
        None => d1@ == d0@ && r1 == r0,
        Some(l) => d1@ == d0@.insert("pages"@, d1@["pages"@])
            && (list_of(d1@, "pages"@) matches Some(l2) && pages_done(regs, whole, l, l2, r0, r1, from, to, fuel)),
    }
}

/// The written book's compound pages: a filterable `raw`/`filtered` pair,
/// or (when stored as NBT) a text component itself.
fn walk_pages(reg: &Registry, book: &mut NbtMap, from: i32, to: i32, report: &mut LossReport, fuel: u32)
    requires
        fuel > 0,
    ensures
        report_grows(*old(report), *final(report)),
        pages_walked(reg.entries@, from >= NBT_PAGES_VERSION, *old(book), *final(book), *old(report), *final(report), from, to, fuel as nat),
    decreases fuel, 2int,
{
    let ghost regs = reg.entries@;
    let ghost r0 = *report;
    let is_nbt_format = from >= NBT_PAGES_VERSION;
    match book.take_list("pages") {
        Some(list) => {
            let ghost bmid = *book;
            let ghost l0 = list@;
            let mut rest = list;
            let mut out: Vec<NbtValue> = Vec::new();
            let ghost mut rs: Seq<LossReport> = seq![*report];
            while rest.len() > 0
                invariant
                    fuel > 0,
                    regs == reg.entries@,
                    report_grows(r0, *report),
                    out@.len() + rest@.len() == l0.len(),
                    rest@ == l0.subrange(out@.len() as int, l0.len() as int),
                    rs.len() == out@.len() + 1,
                    rs[0] == r0,
                    rs[out@.len() as int] == *report,
                    forall|i: int| 0 <= i < out@.len() ==> #[trigger] page_converted(regs, is_nbt_format, l0[i], out@[i], rs[i], rs[i + 1], from, to, fuel as nat),
                decreases rest@.len(),
            {
                let ghost k = out@.len() as int;
                let el = rest.remove(0);
                proof {
                    assert(el == l0[k]);
                    assert(rest@ =~= l0.subrange(k + 1, l0.len() as int));
                }
                let ghost r1 = *report;
                let conv = match el {
                    NbtValue::Compound(mut m) => {
                        let ghost m0 = m;
                        if m.has_key("raw") || m.has_key("filtered") {
                            convert(reg, TypeKey::TextComponent, &mut m, "raw", from, to, report, fuel);
                            let ghost r2 = *report;
                            let ghost mm = m;
                            convert(reg, TypeKey::TextComponent, &mut m, "filtered", from, to, report, fuel);
                            proof {
                                lemma_report_grows_trans(r1, r2, *report);
                                assert(at_path_converted(regs, TypeKey::TextComponent, "raw"@, m0, mm, r1, r2, from, to, fuel as nat));
                                assert(state_pair(mm, r2) == (mm, r2));
                                assert(raw_filtered_converted(regs, m0, m, r1, *report, from, to, fuel as nat));
                            }
                        } else if is_nbt_format {
                            convert_map(reg, TypeKey::TextComponent, &mut m, from, to, report, fuel - 1);
                            proof {
                                assert(map_converted(regs, TypeKey::TextComponent, m0, m, r1, *report, from, to, ((fuel as nat) - 1) as nat));
                            }
                        }
                        NbtValue::Compound(m)
                    },
                    other => other,
                };
                proof {
                    assert(page_converted(regs, is_nbt_format, l0[k], conv, r1, *report, from, to, fuel as nat));
                    lemma_report_grows_trans(r0, r1, *report);
                }
                let ghost out0 = out@;
                let ghost rs0 = rs;
                out.push(conv);
                proof {
                    rs = rs.push(*report);
                    assert forall|i: int| 0 <= i < out@.len() implies #[trigger] page_converted(regs, is_nbt_format, l0[i], out@[i], rs[i], rs[i + 1], from, to, fuel as nat) by {
                        if i < k {
                            assert(page_converted(regs, is_nbt_format, l0[i], out0[i], rs0[i], rs0[i + 1], from, to, fuel as nat));
                        }
                    }
                }
            }
            let ghost l2 = out@;
            let ghost outv = NbtValue::List(out);
            book.set_list("pages", out);
            proof {
                lemma_replaced_at(old(book)@, bmid@, "pages"@, outv);
                assert(book@ == old(book)@.insert("pages"@, outv));
                assert(book@["pages"@] == outv);
                assert(list_of(book@, "pages"@) == Some(l2));
                assert(list_of(old(book)@, "pages"@) == Some(l0));
                assert(forall|i: int| #![trigger l0[i]] 0 <= i < l0.len() ==> page_converted(regs, is_nbt_format, l0[i], l2[i], rs[i], rs[i + 1], from, to, fuel as nat));
                assert(pages_trace(regs, is_nbt_format, l0, l2, rs, from, to, fuel as nat));
                assert(pages_done(regs, is_nbt_format, l0, l2, r0, *report, from, to, fuel as nat));
            }
        },
        None => {},
    }
}

/// The members of a data components compound the components walker visits,
/// in order; `later` selects the block predicate form and the whole-page
/// conversion of the later version.
pub open spec fn component_steps(later: bool, from: i32) -> Seq<WalkStep> {
    seq![
        WalkStep::ListPath(TypeKey::Entity, "minecraft:bees", "entity_data"),
        WalkStep::At(TypeKey::TileEntity, "minecraft:block_entity_data"),
        WalkStep::List(TypeKey::ItemStack, "minecraft:bundle_contents"),
        if later { WalkStep::BlockPredicates("minecraft:can_break") } else { WalkStep::CanPredicates("minecraft:can_break") },
        if later { WalkStep::BlockPredicates("minecraft:can_place_on") } else { WalkStep::CanPredicates("minecraft:can_place_on") },
        WalkStep::List(TypeKey::ItemStack, "minecraft:charged_projectiles"),
        WalkStep::ListPath(TypeKey::ItemStack, "minecraft:container", "item"),
        WalkStep::At(TypeKey::Entity, "minecraft:entity_data"),
        WalkStep::ValueList(TypeKey::ItemName, "minecraft:pot_decorations"),
        WalkStep::At(TypeKey::ItemStack, "minecraft:use_remainder"),
        WalkStep::Equippable,
        WalkStep::At(TypeKey::TextComponent, "minecraft:custom_name"),
        WalkStep::At(TypeKey::TextComponent, "minecraft:item_name"),
        WalkStep::List(TypeKey::TextComponent, "minecraft:lore"),
        WalkStep::BookPages(if later { true } else { from >= NBT_PAGES_VERSION }),
    ]
}

/// What the data components walker makes of a components compound: each
/// member of [`component_steps`] converted, in order.
pub open spec fn components_walked(e: Seq<Registration>, later: bool, d0: NbtMap, d1: NbtMap, r0: LossReport, r1: LossReport, from: i32, to: i32, fuel: nat) -> bool
    decreases fuel, 11int, 0int,
{
    steps_done(e, component_steps(later, from), None, d0, d1, r0, r1, from, to, fuel)
}

/// The data components walker.
pub fn walk_components(reg: &Registry, root: &mut NbtMap, from: i32, to: i32, report: &mut LossReport, fuel: u32)
    requires
        fuel > 0,
    ensures
        report_grows(*old(report), *final(report)),
        components_walked(reg.entries@, false, *old(root), *final(root), *old(report), *final(report), from, to, fuel as nat),
    decreases fuel, 3int,
{
    let ghost regs = reg.entries@;
    let ghost r0 = *report;
    let ghost steps = component_steps(false, from);
    let ghost item: Option<Seq<char>> = None;
    let ghost mut ds: Seq<NbtMap> = seq![*root];
    let ghost mut rs: Seq<LossReport> = seq![*report];
    convert_list_path(reg, TypeKey::Entity, root, "minecraft:bees", "entity_data", from, to, report, fuel);
    proof {
        lemma_steps_push(regs, steps, item, ds, rs, *root, *report, from, to, fuel as nat);
        lemma_report_grows_trans(r0, rs.last(), *report);
        ds = ds.push(*root);
        rs = rs.push(*report);
    }
    convert(reg, TypeKey::TileEntity, root, "minecraft:block_entity_data", from, to, report, fuel);
    proof {
        lemma_steps_push(regs, steps, item, ds, rs, *root, *report, from, to, fuel as nat);
        lemma_report_grows_trans(r0, rs.last(), *report);
        ds = ds.push(*root);
        rs = rs.push(*report);
    }
    convert_list(reg, TypeKey::ItemStack, root, "minecraft:bundle_contents", from, to, report, fuel);
    proof {
        lemma_steps_push(regs, steps, item, ds, rs, *root, *report, from, to, fuel as nat);
        lemma_report_grows_trans(r0, rs.last(), *report);
        ds = ds.push(*root);
        rs = rs.push(*report);
    }
    walk_can_predicates(reg, root, "minecraft:can_break", from, to);
    proof {
        lemma_steps_push(regs, steps, item, ds, rs, *root, *report, from, to, fuel as nat);
        lemma_report_grows_trans(r0, rs.last(), *report);
        ds = ds.push(*root);
        rs = rs.push(*report);
    }
    walk_can_predicates(reg, root, "minecraft:can_place_on", from, to);
    proof {
        lemma_steps_push(regs, steps, item, ds, rs, *root, *report, from, to, fuel as nat);
        lemma_report_grows_trans(r0, rs.last(), *report);
        ds = ds.push(*root);
        rs = rs.push(*report);
    }
    convert_list(reg, TypeKey::ItemStack, root, "minecraft:charged_projectiles", from, to, report, fuel);
    proof {
        lemma_steps_push(regs, steps, item, ds, rs, *root, *report, from, to, fuel as nat);
        lemma_report_grows_trans(r0, rs.last(), *report);
        ds = ds.push(*root);
        rs = rs.push(*report);
    }
    convert_list_path(reg, TypeKey::ItemStack, root, "minecraft:container", "item", from, to, report, fuel);
    proof {
        lemma_steps_push(regs, steps, item, ds, rs, *root, *report, from, to, fuel as nat);
        lemma_report_grows_trans(r0, rs.last(), *report);
        ds = ds.push(*root);
        rs = rs.push(*report);
    }
    convert(reg, TypeKey::Entity, root, "minecraft:entity_data", from, to, report, fuel);
    proof {
        lemma_steps_push(regs, steps, item, ds, rs, *root, *report, from, to, fuel as nat);
        lemma_report_grows_trans(r0, rs.last(), *report);
        ds = ds.push(*root);
        rs = rs.push(*report);
    }
    convert_value_list(reg, TypeKey::ItemName, root, "minecraft:pot_decorations", from, to);
    proof {
        lemma_steps_push(regs, steps, item, ds, rs, *root, *report, from, to, fuel as nat);
        lemma_report_grows_trans(r0, rs.last(), *report);
        ds = ds.push(*root);
        rs = rs.push(*report);
    }
    convert(reg, TypeKey::ItemStack, root, "minecraft:use_remainder", from, to, report, fuel);
    proof {
        lemma_steps_push(regs, steps, item, ds, rs, *root, *report, from, to, fuel as nat);
        lemma_report_grows_trans(r0, rs.last(), *report);
        ds = ds.push(*root);
        rs = rs.push(*report);
    }
    match root.take_map("minecraft:equippable") {
        Some(mut equippable) => {
            let ghost mid = *root;
            let ghost q0 = equippable;
            convert_value(reg, TypeKey::EntityName, &mut equippable, "allowed_entities", from, to);
            let ghost qm = equippable;
            convert_value_list(reg, TypeKey::EntityName, &mut equippable, "allowed_entities", from, to);
            let ghost q1 = equippable;
            root.set_map("minecraft:equippable", equippable);
            proof {
                lemma_replaced_at(ds.last()@, mid@, "minecraft:equippable"@, NbtValue::Compound(q1));
                assert(compound_of(q1) == NbtValue::Compound(q1));
                assert(value_at_path_converted(regs, TypeKey::EntityName, "allowed_entities"@, q0, qm, from, to));
                assert(equippable_done(regs, q0, q1, from, to));
                assert(nested_done("minecraft:equippable"@, ds.last(), *root, q1));
            }
        },
        None => {},
    }
    proof {
        lemma_steps_push(regs, steps, item, ds, rs, *root, *report, from, to, fuel as nat);
        lemma_report_grows_trans(r0, rs.last(), *report);
        ds = ds.push(*root);
        rs = rs.push(*report);
    }
    convert(reg, TypeKey::TextComponent, root, "minecraft:custom_name", from, to, report, fuel);
    proof {
        lemma_steps_push(regs, steps, item, ds, rs, *root, *report, from, to, fuel as nat);
        lemma_report_grows_trans(r0, rs.last(), *report);
        ds = ds.push(*root);
        rs = rs.push(*report);
    }
    convert(reg, TypeKey::TextComponent, root, "minecraft:item_name", from, to, report, fuel);
    proof {
        lemma_steps_push(regs, steps, item, ds, rs, *root, *report, from, to, fuel as nat);
        lemma_report_grows_trans(r0, rs.last(), *report);
        ds = ds.push(*root);
        rs = rs.push(*report);
    }
    convert_list(reg, TypeKey::TextComponent, root, "minecraft:lore", from, to, report, fuel);
    proof {
        lemma_steps_push(regs, steps, item, ds, rs, *root, *report, from, to, fuel as nat);
        lemma_report_grows_trans(r0, rs.last(), *report);
        ds = ds.push(*root);
        rs = rs.push(*report);
    }
    match root.take_map("minecraft:written_book_content") {
        Some(mut book) => {
            let ghost mid = *root;
            let ghost b0 = book;
            let ghost rb = *report;
            walk_pages(reg, &mut book, from, to, report, fuel);
            let ghost b1 = book;
            root.set_map("minecraft:written_book_content", book);
            proof {
                lemma_replaced_at(ds.last()@, mid@, "minecraft:written_book_content"@, NbtValue::Compound(b1));
                assert(compound_of(b1) == NbtValue::Compound(b1));
                assert(pages_walked(regs, from >= NBT_PAGES_VERSION, b0, b1, rb, *report, from, to, fuel as nat));
                assert(nested_done("minecraft:written_book_content"@, ds.last(), *root, b1));
            }
        },
        None => {},
    }
    proof {
        lemma_steps_push(regs, steps, item, ds, rs, *root, *report, from, to, fuel as nat);
        lemma_report_grows_trans(r0, rs.last(), *report);
        ds = ds.push(*root);
        rs = rs.push(*report);
    }
    proof {
        assert(steps_done(regs, steps, item, *old(root), *root, r0, *report, from, to, fuel as nat));
    }
}

/// What this version registers.
pub open spec fn registrations() -> Seq<Registration> {
    seq![
        entry(TypeKey::DataComponents, VERSION, 0, Action::WalkAll(Walker::Custom(CustomWalker::V4059Components))),
        entry(TypeKey::DataComponents, VERSION, 0, Action::Convert(Conv::V4059FoodToConsumable)),
        entry(TypeKey::DataComponents, VERSION, 0, Action::Revert(Conv::V4059ConsumableToFood)),
    ]
}

/// Register this version's walker and converters.
pub fn register(reg: &mut RegistryBuilder)
    ensures
        final(reg).entries@ == old(reg).entries@ + registrations(),
{
    reg.add(TypeKey::DataComponents, VERSION, 0, Action::WalkAll(Walker::Custom(CustomWalker::V4059Components)));
    reg.add(TypeKey::DataComponents, VERSION, 0, Action::Convert(Conv::V4059FoodToConsumable));
    reg.add(TypeKey::DataComponents, VERSION, 0, Action::Revert(Conv::V4059ConsumableToFood));
    proof {
        assert(final(reg).entries@ =~= old(reg).entries@ + registrations());
    }
}

} // verus!
