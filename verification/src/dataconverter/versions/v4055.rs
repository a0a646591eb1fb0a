//! V4055: attribute ids lose their legacy category prefix
//! (`generic.`, `horse.`, `player.`, `zombie.`).

use vstd::prelude::*;
use crate::nbt::{lemma_put_back, list_of, map_of, str_of, within, NbtMap, NbtValue};
use crate::loss::{appended_at, lemma_appended_chain, lemma_appended_none, lemma_appended_one, one_more_with, report, LossKind, LossReport, Severity, LossEntry};
use crate::text::{starts_with, str_eq, strip_prefix};
use super::super::helpers::{has_char, is_path_char};
use super::super::registry::{entry, Action, Registration, RegistryBuilder, TypeKey};
use super::super::dispatch::Conv;

verus! {

/// This version.
pub const VERSION: i32 = 4055;

/// Every character of `s` may stand in a resource-location path.
pub open spec fn all_path_chars(s: Seq<char>) -> bool {
    forall|i: int| 0 <= i < s.len() ==> is_path_char(#[trigger] s[i])
}

/// An attribute id namespaced: an id without a colon whose characters are
/// all path characters gets `minecraft:`; anything else stays as it is.
pub open spec fn ns_id(s: Seq<char>) -> Seq<char> {
    if s.contains(':') {
        s
    } else if all_path_chars(s) {
        "minecraft:"@ + s
    } else {
        s
    }
}

/// Are all characters of `s` path characters?
fn path_chars(s: &str) -> (b: bool)
    ensures
        b == all_path_chars(s@),
{
    let n = s.unicode_len();
    let mut i: usize = 0;
    while i < n
        invariant
            n == s@.len(),
            i <= n,
            forall|j: int| 0 <= j < i ==> is_path_char(#[trigger] s@[j]),
        decreases n - i,
    {
        let c = s.get_char(i);
        let ok = ('a' <= c && c <= 'z') || ('0' <= c && c <= '9') || c == '.' || c == '_' || c == '-' || c == '/';
        if !ok {
            return false;
        }
        i = i + 1;
    }
    true
}

/// Namespace an attribute id.
pub fn correct_namespace(value: &str) -> (r: String)
    ensures
        r@ == ns_id(value@),
{
    if has_char(value, ':') {
        return value.to_owned();
    }
    if path_chars(value) {
        let mut r = String::from_str("minecraft:");
        r.append(value);
        r
    } else {
        value.to_owned()
    }
}

/// The legacy prefixes, in the order they are tried.
pub open spec fn prefixes() -> Seq<&'static str> {
    seq!["generic.", "horse.", "player.", "zombie."]
}

/// The legacy prefixes, in the order they are tried.
pub fn prefix_table() -> (t: &'static [&'static str])
    ensures
        t@ == prefixes(),
{
    &["generic.", "horse.", "player.", "zombie."]
}

/// `ni` without the first namespaced prefix from `i` on that it begins
/// with, namespaced again.
pub open spec fn stripped_from(ni: Seq<char>, i: int) -> Option<Seq<char>>
    decreases prefixes().len() - i,
{
    if 0 <= i < prefixes().len() {
        let np = ns_id(prefixes()[i]@);
        if starts_with(ni, np) {
            Some("minecraft:"@ + ni.subrange(np.len() as int, ni.len() as int))
        } else {
            stripped_from(ni, i + 1)
        }
    } else {
        None
    }
}

/// The new id of an attribute, where it carries a legacy prefix.
pub open spec fn renamed_attribute(s: Seq<char>) -> Option<Seq<char>> {
    stripped_from(ns_id(s), 0)
}

/// The new id of an attribute, where it carries a legacy prefix.
pub fn rename(input: &str) -> (r: Option<String>)
    ensures
        match r {
            Some(x) => renamed_attribute(input@) == Some(x@),
            None => renamed_attribute(input@) is None,
        },
{
    let namespaced_input = correct_namespace(input);
    let t = prefix_table();
    let mut i: usize = 0;
    while i < t.len()
        invariant
            t@ == prefixes(),
            i <= t@.len(),
            namespaced_input@ == ns_id(input@),
            stripped_from(namespaced_input@, 0) == stripped_from(namespaced_input@, i as int),
        decreases t@.len() - i,
    {
        let namespaced_prefix = correct_namespace(t[i]);
        match strip_prefix(namespaced_input.as_str(), namespaced_prefix.as_str()) {
            Some(rest) => {
                let mut r = String::from_str("minecraft:");
                r.append(rest);
                return Some(r);
            },
            None => {},
        }
        i = i + 1;
    }
    None
}

/// `m2` is `m` with the attribute id at `key` renamed where it carries a
/// legacy prefix.
pub open spec fn attribute_renamed(m: Map<Seq<char>, NbtValue>, m2: Map<Seq<char>, NbtValue>, key: Seq<char>) -> bool {
    match str_of(m, key) {
        Some(cur) => match renamed_attribute(cur) {
            Some(n) => m2 == m.insert(key, m2[key]) && str_of(m2, key) == Some(n),
            None => m2 == m,
        },
        None => m2 == m,
    }
}

/// Rename the attribute id at `key`.
pub fn rename_string(map: &mut NbtMap, key: &str)
    ensures
        attribute_renamed(old(map)@, final(map)@, key@),
{
    let new = match map.get_string(key) {
        Some(cur) => match rename(cur) {
            Some(n) => n,
            None => return ,
        },
        None => return ,
    };
    map.set_string(key, new.as_str());
}

/// The modern-to-legacy attribute ids, each modern id with the one prefixed
/// form it had before this version.
pub open spec fn attribute_reverse() -> Seq<(&'static str, &'static str)> {
    seq![
        ("minecraft:armor", "minecraft:generic.armor"),
        ("minecraft:armor_toughness", "minecraft:generic.armor_toughness"),
        ("minecraft:attack_damage", "minecraft:generic.attack_damage"),
        ("minecraft:attack_knockback", "minecraft:generic.attack_knockback"),
        ("minecraft:attack_speed", "minecraft:generic.attack_speed"),
        ("minecraft:burning_time", "minecraft:generic.burning_time"),
        ("minecraft:explosion_knockback_resistance", "minecraft:generic.explosion_knockback_resistance"),
        ("minecraft:fall_damage_multiplier", "minecraft:generic.fall_damage_multiplier"),
        ("minecraft:flying_speed", "minecraft:generic.flying_speed"),
        ("minecraft:follow_range", "minecraft:generic.follow_range"),
        ("minecraft:gravity", "minecraft:generic.gravity"),
        ("minecraft:jump_strength", "minecraft:generic.jump_strength"),
        ("minecraft:knockback_resistance", "minecraft:generic.knockback_resistance"),
        ("minecraft:luck", "minecraft:generic.luck"),
        ("minecraft:max_absorption", "minecraft:generic.max_absorption"),
        ("minecraft:max_health", "minecraft:generic.max_health"),
        ("minecraft:movement_efficiency", "minecraft:generic.movement_efficiency"),
        ("minecraft:movement_speed", "minecraft:generic.movement_speed"),
        ("minecraft:oxygen_bonus", "minecraft:generic.oxygen_bonus"),
        ("minecraft:safe_fall_distance", "minecraft:generic.safe_fall_distance"),
        ("minecraft:scale", "minecraft:generic.scale"),
        ("minecraft:step_height", "minecraft:generic.step_height"),
        ("minecraft:water_movement_efficiency", "minecraft:generic.water_movement_efficiency"),
        ("minecraft:block_break_speed", "minecraft:player.block_break_speed"),
        ("minecraft:block_interaction_range", "minecraft:player.block_interaction_range"),
        ("minecraft:entity_interaction_range", "minecraft:player.entity_interaction_range"),
        ("minecraft:mining_efficiency", "minecraft:player.mining_efficiency"),
        ("minecraft:sneaking_speed", "minecraft:player.sneaking_speed"),
        ("minecraft:submerged_mining_speed", "minecraft:player.submerged_mining_speed"),
        ("minecraft:sweeping_damage_ratio", "minecraft:player.sweeping_damage_ratio"),
        ("minecraft:spawn_reinforcements", "minecraft:zombie.spawn_reinforcements"),
    ]
}

/// The modern-to-legacy attribute ids.
pub fn attribute_reverse_table() -> (t: &'static [(&'static str, &'static str)])
    ensures
        t@ == attribute_reverse(),
{
    &[
        ("minecraft:armor", "minecraft:generic.armor"),
        ("minecraft:armor_toughness", "minecraft:generic.armor_toughness"),
        ("minecraft:attack_damage", "minecraft:generic.attack_damage"),
        ("minecraft:attack_knockback", "minecraft:generic.attack_knockback"),
        ("minecraft:attack_speed", "minecraft:generic.attack_speed"),
        ("minecraft:burning_time", "minecraft:generic.burning_time"),
        ("minecraft:explosion_knockback_resistance", "minecraft:generic.explosion_knockback_resistance"),
        ("minecraft:fall_damage_multiplier", "minecraft:generic.fall_damage_multiplier"),
        ("minecraft:flying_speed", "minecraft:generic.flying_speed"),
        ("minecraft:follow_range", "minecraft:generic.follow_range"),
        ("minecraft:gravity", "minecraft:generic.gravity"),
        ("minecraft:jump_strength", "minecraft:generic.jump_strength"),
        ("minecraft:knockback_resistance", "minecraft:generic.knockback_resistance"),
        ("minecraft:luck", "minecraft:generic.luck"),
        ("minecraft:max_absorption", "minecraft:generic.max_absorption"),
        ("minecraft:max_health", "minecraft:generic.max_health"),
        ("minecraft:movement_efficiency", "minecraft:generic.movement_efficiency"),
        ("minecraft:movement_speed", "minecraft:generic.movement_speed"),
        ("minecraft:oxygen_bonus", "minecraft:generic.oxygen_bonus"),
        ("minecraft:safe_fall_distance", "minecraft:generic.safe_fall_distance"),
        ("minecraft:scale", "minecraft:generic.scale"),
        ("minecraft:step_height", "minecraft:generic.step_height"),
        ("minecraft:water_movement_efficiency", "minecraft:generic.water_movement_efficiency"),
        ("minecraft:block_break_speed", "minecraft:player.block_break_speed"),
        ("minecraft:block_interaction_range", "minecraft:player.block_interaction_range"),
        ("minecraft:entity_interaction_range", "minecraft:player.entity_interaction_range"),
        ("minecraft:mining_efficiency", "minecraft:player.mining_efficiency"),
        ("minecraft:sneaking_speed", "minecraft:player.sneaking_speed"),
        ("minecraft:submerged_mining_speed", "minecraft:player.submerged_mining_speed"),
        ("minecraft:sweeping_damage_ratio", "minecraft:player.sweeping_damage_ratio"),
        ("minecraft:spawn_reinforcements", "minecraft:zombie.spawn_reinforcements"),
    ]
}

/// The legacy id of the first reverse entry from `i` on whose modern id is
/// `s`.
pub open spec fn legacy_from(s: Seq<char>, i: int) -> Option<&'static str>
    decreases attribute_reverse().len() - i,
{
    if 0 <= i < attribute_reverse().len() {
        if attribute_reverse()[i].0@ == s {
            Some(attribute_reverse()[i].1)
        } else {
            legacy_from(s, i + 1)
        }
    } else {
        None
    }
}

/// The legacy id of a modern attribute id, where the table knows it.
pub open spec fn legacy_attribute(s: Seq<char>) -> Option<&'static str> {
    legacy_from(ns_id(s), 0)
}

/// The legacy id of a modern attribute id, where the table knows it.
pub fn rename_inverse(input: &str) -> (r: Option<&'static str>)
    ensures
        r == legacy_attribute(input@),
{
    let namespaced = correct_namespace(input);
    let t = attribute_reverse_table();
    let mut i: usize = 0;
    while i < t.len()
        invariant
            t@ == attribute_reverse(),
            i <= t@.len(),
            namespaced@ == ns_id(input@),
            legacy_from(namespaced@, 0) == legacy_from(namespaced@, i as int),
        decreases t@.len() - i,
    {
        let (new, old) = t[i];
        if str_eq(new, namespaced.as_str()) {
            return Some(old);
        }
        i = i + 1;
    }
    None
}

/// `s` begins with one of the namespaced legacy prefixes from `i` on.
pub open spec fn has_legacy_prefix_from(s: Seq<char>, i: int) -> bool
    decreases prefixes().len() - i,
{
    if 0 <= i < prefixes().len() {
        starts_with(s, ns_id(prefixes()[i]@)) || has_legacy_prefix_from(s, i + 1)
    } else {
        false
    }
}

/// A `minecraft:` id that the table does not know and that carries no
/// legacy prefix: it may have lost one, which cannot be told.
pub open spec fn is_ambiguous(s: Seq<char>) -> bool {
    legacy_attribute(s) is None && starts_with(s, "minecraft:"@) && !has_legacy_prefix_from(s, 0)
}

/// Does `s` begin with one of the namespaced legacy prefixes?
fn has_legacy_prefix(s: &str) -> (b: bool)
    ensures
        b == has_legacy_prefix_from(s@, 0),
{
    let t = prefix_table();
    let mut i: usize = 0;
    while i < t.len()
        invariant
            t@ == prefixes(),
            i <= t@.len(),
            has_legacy_prefix_from(s@, 0) == has_legacy_prefix_from(s@, i as int),
        decreases t@.len() - i,
    {
        let np = correct_namespace(t[i]);
        if strip_prefix(s, np.as_str()).is_some() {
            return true;
        }
        i = i + 1;
    }
    false
}

/// `m2` is `m` with the attribute id at `key` given back its legacy prefix
/// where the table knows it; `r2` is `r` with one approximation where the id
/// is ambiguous.
pub open spec fn attribute_restored(
    m: Map<Seq<char>, NbtValue>,
    m2: Map<Seq<char>, NbtValue>,
    key: Seq<char>,
    r: Seq<LossEntry>,
    r2: Seq<LossEntry>,
) -> bool {
    match str_of(m, key) {
        Some(cur) => match legacy_attribute(cur) {
            Some(o) => m2 == m.insert(key, m2[key]) && str_of(m2, key) == Some(o@) && r2 == r,
            None => m2 == m && if is_ambiguous(cur) {
                one_more_with(r, r2, VERSION, LossKind::RenameAmbiguous, Severity::Approximated,
                    "attribute id '"@ + cur + "' is not in the V4055 reverse table; it may have lost a generic/horse/player/zombie prefix"@)
            } else {
                r2 == r
            },
        },
        None => m2 == m && r2 == r,
    }
}

/// Give the attribute id at `key` back its legacy prefix.
pub fn rename_string_inverse(map: &mut NbtMap, key: &str, rep: &mut LossReport)
    ensures
        attribute_restored(old(map)@, final(map)@, key@, old(rep).entries@, final(rep).entries@),
{
    let (old, ambiguous, message) = match map.get_string(key) {
        Some(cur) => match rename_inverse(cur) {
            Some(o) => (Some(o), false, String::from_str("")),
            None => {
                let amb = strip_prefix(cur, "minecraft:").is_some() && !has_legacy_prefix(cur);
                let mut msg = String::from_str("attribute id '");
                msg.append(cur);
                msg.append(
                    "' is not in the V4055 reverse table; it may have lost a generic/horse/player/zombie prefix",
                );
                (None, amb, msg)
            },
        },
        None => return ,
    };
    match old {
        Some(o) => map.set_string(key, o),
        None => {
            if ambiguous {
                report(rep, VERSION, LossKind::RenameAmbiguous, Severity::Approximated, message.as_str());
            }
        },
    }
}

/// `l2` is `l` with every compound element changed as `rel` says and every
/// other element kept.
pub open spec fn each_compound(
    l: Seq<NbtValue>,
    l2: Seq<NbtValue>,
    rel: spec_fn(Map<Seq<char>, NbtValue>, Map<Seq<char>, NbtValue>) -> bool,
) -> bool {
    &&& l2.len() == l.len()
    &&& forall|i: int|
        0 <= i < l.len() ==> match #[trigger] l[i] {
            NbtValue::Compound(m) => l2[i] matches NbtValue::Compound(m2) && rel(m@, m2@),
            _ => l2[i] == l[i],
        }
}

/// `after` is `before` with the list at `k` changed as `rel` says; without
/// a list at `k`, `after` is `before`.
pub open spec fn list_within(
    before: Map<Seq<char>, NbtValue>,
    after: Map<Seq<char>, NbtValue>,
    k: Seq<char>,
    rel: spec_fn(Seq<NbtValue>, Seq<NbtValue>) -> bool,
) -> bool {
    match list_of(before, k) {
        Some(l) => list_of(after, k) matches Some(l2) && rel(l, l2) && after.remove(k) == before.remove(k)
            && after.dom() == before.dom(),
        None => after == before,
    }
}

/// Rename the attribute id at `key` of every compound of the list at
/// `list_key`.
fn rename_in_list(root: &mut NbtMap, list_key: &str, key: &str)
    ensures
        list_within(old(root)@, final(root)@, list_key@, |l, l2| each_compound(l, l2, |m, m2| attribute_renamed(m, m2, key@))),
{
    match root.take_list(list_key) {
        Some(list) => {
            let ghost mid = root@;
            let ghost l = list@;
            let mut rest = list;
            let mut out: Vec<NbtValue> = Vec::new();
            while rest.len() > 0
                invariant
                    out@.len() + rest@.len() == l.len(),
                    rest@ == l.subrange(out@.len() as int, l.len() as int),
                    forall|i: int|
                        0 <= i < out@.len() ==> match #[trigger] l[i] {
                            NbtValue::Compound(m) => out@[i] matches NbtValue::Compound(m2) && attribute_renamed(
                                m@,
                                m2@,
                                key@,
                            ),
                            _ => out@[i] == l[i],
                        },
                decreases rest@.len(),
            {
                let ghost n = out@.len();
                let el = rest.remove(0);
                assert(el == l[n as int]);
                let conv = match el {
                    NbtValue::Compound(mut m) => {
                        rename_string(&mut m, key);
                        NbtValue::Compound(m)
                    },
                    other => other,
                };
                out.push(conv);
                assert(rest@ =~= l.subrange(out@.len() as int, l.len() as int));
            }
            root.set_list(list_key, out);
            proof {
                lemma_put_back(old(root)@, mid, list_key@, NbtValue::List(out));
            }
        },
        None => {},
    }
}

/// What restoring the ids at `key` of the list `l` reports: one
/// approximation per ambiguous id, in order.
pub open spec fn ambiguous_tags(l: Seq<NbtValue>, key: Seq<char>) -> Seq<(LossKind, Severity, Seq<char>)>
    decreases l.len(),
{
    if l.len() == 0 {
        Seq::empty()
    } else {
        ambiguous_tags(l.drop_last(), key) + match l.last() {
            NbtValue::Compound(m) => match str_of(m@, key) {
                Some(cur) => if legacy_attribute(cur) is None && is_ambiguous(cur) {
                    seq![(LossKind::RenameAmbiguous, Severity::Approximated, "attribute id '"@ + cur + "' is not in the V4055 reverse table; it may have lost a generic/horse/player/zombie prefix"@)]
                } else {
                    Seq::empty()
                },
                None => Seq::empty(),
            },
            _ => Seq::empty(),
        }
    }
}

/// The list relation of the reverse: every compound restored, and one
/// approximation reported per ambiguous id.
pub open spec fn list_restored(
    l: Seq<NbtValue>,
    l2: Seq<NbtValue>,
    key: Seq<char>,
    r: Seq<LossEntry>,
    r2: Seq<LossEntry>,
) -> bool {
    &&& l2.len() == l.len()
    &&& forall|i: int|
        0 <= i < l.len() ==> match #[trigger] l[i] {
            NbtValue::Compound(m) => l2[i] matches NbtValue::Compound(m2) && (match str_of(m@, key) {
                Some(cur) => match legacy_attribute(cur) {
                    Some(o) => m2@ == m@.insert(key, m2@[key]) && str_of(m2@, key) == Some(o@),
                    None => m2@ == m@,
                },
                None => m2@ == m@,
            }),
            _ => l2[i] == l[i],
        }
    &&& appended_at(r, r2, VERSION, ambiguous_tags(l, key))
}

/// Give the attribute id at `key` of every compound of the list at
/// `list_key` back its legacy prefix.
fn restore_in_list(root: &mut NbtMap, list_key: &str, key: &str, rep: &mut LossReport)
    ensures
        list_within(
            old(root)@,
            final(root)@,
            list_key@,
            |l, l2| list_restored(l, l2, key@, old(rep).entries@, final(rep).entries@),
        ),
        list_of(old(root)@, list_key@) is None ==> final(rep).entries@ == old(rep).entries@,
{
    match root.take_list(list_key) {
        Some(list) => {
            let ghost mid = root@;
            let ghost l = list@;
            let ghost r0 = rep.entries@;
            let mut rest = list;
            let mut out: Vec<NbtValue> = Vec::new();
            proof {
                lemma_appended_none(r0, VERSION);
                assert(l.subrange(0, 0) =~= Seq::<NbtValue>::empty());
            }
            while rest.len() > 0
                invariant
                    out@.len() + rest@.len() == l.len(),
                    rest@ == l.subrange(out@.len() as int, l.len() as int),
                    forall|i: int|
                        0 <= i < out@.len() ==> match #[trigger] l[i] {
                            NbtValue::Compound(m) => out@[i] matches NbtValue::Compound(m2) && (match str_of(
                                m@,
                                key@,
                            ) {
                                Some(cur) => match legacy_attribute(cur) {
                                    Some(o) => m2@ == m@.insert(key@, m2@[key@]) && str_of(m2@, key@) == Some(o@),
                                    None => m2@ == m@,
                                },
                                None => m2@ == m@,
                            }),
                            _ => out@[i] == l[i],
                        },
                    appended_at(r0, rep.entries@, VERSION, ambiguous_tags(l.subrange(0, out@.len() as int), key@)),
                decreases rest@.len(),
            {
                let ghost n = out@.len();
                let ghost r1 = rep.entries@;
                let el = rest.remove(0);
                assert(el == l[n as int]);
                let conv = match el {
                    NbtValue::Compound(mut m) => {
                        rename_string_inverse(&mut m, key, rep);
                        NbtValue::Compound(m)
                    },
                    other => other,
                };
                proof {
                    let pre = l.subrange(0, n as int);
                    let post = l.subrange(0, n as int + 1);
                    assert(post.drop_last() =~= pre);
                    assert(post.last() == l[n as int]);
                    let t = ambiguous_tags(post, key@).subrange(ambiguous_tags(pre, key@).len() as int, ambiguous_tags(post, key@).len() as int);
                    assert(ambiguous_tags(post, key@) =~= ambiguous_tags(pre, key@) + t);
                    if t.len() == 0 {
                        lemma_appended_none(r1, VERSION);
                    } else {
                        lemma_appended_one(r1, rep.entries@, VERSION, t[0].0, t[0].1, t[0].2);
                        assert(t =~= seq![(t[0].0, t[0].1, t[0].2)]);
                    }
                    lemma_appended_chain(r0, r1, rep.entries@, VERSION, ambiguous_tags(pre, key@), t);
                }
                out.push(conv);
                assert(rest@ =~= l.subrange(out@.len() as int, l.len() as int));
            }
            proof {
                assert(l.subrange(0, l.len() as int) =~= l);
            }
            root.set_list(list_key, out);
            proof {
                lemma_put_back(old(root)@, mid, list_key@, NbtValue::List(out));
            }
        },
        None => {},
    }
}

/// What [`rename_modifier_types`] makes of `data_in`.
pub open spec fn rename_modifier_types_effect(data_in: NbtMap, data_out: NbtMap) -> bool {
    &&& within(
                data_in@,
                data_out@,
                "minecraft:attribute_modifiers"@,
                |a, a2| list_within(a, a2, "modifiers"@, |l, l2| each_compound(l, l2, |m, m2| attribute_renamed(m, m2, "type"@))),
            )
}

/// Forward on data components: each attribute modifier's `type`.
pub fn rename_modifier_types(data: &mut NbtMap)
    ensures
        within(
            old(data)@,
            final(data)@,
            "minecraft:attribute_modifiers"@,
            |a, a2| list_within(a, a2, "modifiers"@, |l, l2| each_compound(l, l2, |m, m2| attribute_renamed(m, m2, "type"@))),
        ),
{
    match data.take_map("minecraft:attribute_modifiers") {
        Some(mut a) => {
            let ghost mid = data@;
            rename_in_list(&mut a, "modifiers", "type");
            data.set_map("minecraft:attribute_modifiers", a);
            proof {
                lemma_put_back(old(data)@, mid, "minecraft:attribute_modifiers"@, NbtValue::Compound(a));
            }
        },
        None => {},
    }
}

/// What [`restore_modifier_types`] makes of `data_in` and the report `rep_in`.
pub open spec fn restore_modifier_types_effect(data_in: NbtMap, data_out: NbtMap, rep_in: LossReport, rep_out: LossReport) -> bool {
    &&& within(
                data_in@,
                data_out@,
                "minecraft:attribute_modifiers"@,
                |a, a2| list_within(a, a2, "modifiers"@, |l, l2| list_restored(l, l2, "type"@, rep_in.entries@, rep_out.entries@)),
            )
    &&& (match map_of(data_in@, "minecraft:attribute_modifiers"@) {
                Some(a) => list_of(a@, "modifiers"@) is None,
                None => true,
            }) ==> rep_out.entries@ == rep_in.entries@
}

/// Reverse on data components: each attribute modifier's `type` gets its
/// legacy prefix back.
pub fn restore_modifier_types(data: &mut NbtMap, rep: &mut LossReport)
    ensures
        within(
            old(data)@,
            final(data)@,
            "minecraft:attribute_modifiers"@,
            |a, a2| list_within(a, a2, "modifiers"@, |l, l2| list_restored(l, l2, "type"@, old(rep).entries@, final(rep).entries@)),
        ),
        (match map_of(old(data)@, "minecraft:attribute_modifiers"@) {
            Some(a) => list_of(a@, "modifiers"@) is None,
            None => true,
        }) ==> final(rep).entries@ == old(rep).entries@,
{
    match data.take_map("minecraft:attribute_modifiers") {
        Some(mut a) => {
            let ghost mid = data@;
            restore_in_list(&mut a, "modifiers", "type", rep);
            data.set_map("minecraft:attribute_modifiers", a);
            proof {
                lemma_put_back(old(data)@, mid, "minecraft:attribute_modifiers"@, NbtValue::Compound(a));
            }
        },
        None => {},
    }
}

/// What [`rename_attribute_ids`] makes of `data_in`.
pub open spec fn rename_attribute_ids_effect(data_in: NbtMap, data_out: NbtMap) -> bool {
    &&& list_within(data_in@, data_out@, "attributes"@, |l, l2| each_compound(l, l2, |m, m2| attribute_renamed(m, m2, "id"@)))
}

/// Forward on an entity: each attribute's `id`.
pub fn rename_attribute_ids(data: &mut NbtMap)
    ensures
        list_within(old(data)@, final(data)@, "attributes"@, |l, l2| each_compound(l, l2, |m, m2| attribute_renamed(m, m2, "id"@))),
{
    rename_in_list(data, "attributes", "id");
}

/// What [`restore_attribute_ids`] makes of `data_in` and the report `rep_in`.
pub open spec fn restore_attribute_ids_effect(data_in: NbtMap, data_out: NbtMap, rep_in: LossReport, rep_out: LossReport) -> bool {
    &&& list_within(
                data_in@,
                data_out@,
                "attributes"@,
                |l, l2| list_restored(l, l2, "id"@, rep_in.entries@, rep_out.entries@),
            )
    &&& list_of(data_in@, "attributes"@) is None ==> rep_out.entries@ == rep_in.entries@
}

/// Reverse on an entity: each attribute's `id` gets its legacy prefix back.
pub fn restore_attribute_ids(data: &mut NbtMap, rep: &mut LossReport)
    ensures
        list_within(
            old(data)@,
            final(data)@,
            "attributes"@,
            |l, l2| list_restored(l, l2, "id"@, old(rep).entries@, final(rep).entries@),
        ),
        list_of(old(data)@, "attributes"@) is None ==> final(rep).entries@ == old(rep).entries@,
{
    restore_in_list(data, "attributes", "id", rep);
}

/// What this version registers.
pub open spec fn registrations() -> Seq<Registration> {
    seq![
        entry(TypeKey::DataComponents, VERSION, 0, Action::Convert(Conv::V4055RenameModifierTypes)),
        entry(TypeKey::DataComponents, VERSION, 0, Action::Revert(Conv::V4055RestoreModifierTypes)),
        entry(TypeKey::Entity, VERSION, 0, Action::Convert(Conv::V4055RenameAttributeIds)),
        entry(TypeKey::Entity, VERSION, 0, Action::Revert(Conv::V4055RestoreAttributeIds)),
    ]
}

/// Register this version's converters.
pub fn register(reg: &mut RegistryBuilder)
    ensures
        final(reg).entries@ == old(reg).entries@ + registrations(),
{
    reg.add(TypeKey::DataComponents, VERSION, 0, Action::Convert(Conv::V4055RenameModifierTypes));
    reg.add(TypeKey::DataComponents, VERSION, 0, Action::Revert(Conv::V4055RestoreModifierTypes));
    reg.add(TypeKey::Entity, VERSION, 0, Action::Convert(Conv::V4055RenameAttributeIds));
    reg.add(TypeKey::Entity, VERSION, 0, Action::Revert(Conv::V4055RestoreAttributeIds));
    proof {
        assert(final(reg).entries@ =~= old(reg).entries@ + registrations());
    }
}

} // verus!
