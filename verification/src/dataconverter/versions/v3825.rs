//! V3825: standard names of banners and maps become item names; an ominous
//! banner block entity's name becomes an item name with its tooltip hidden;
//! a trial spawner's loose settings gather into `normal_config`.

use vstd::prelude::*;
use super::super::registry::{state_pair};
use crate::nbt::{is_empty_compound, lemma_put_back, list_of, lookup, map_of, str_of, within, NbtMap, NbtValue};
use crate::json::{retrieve_translation_string, translation_of};
use crate::loss::{appended_at, one_more_with, report, LossEntry, LossKind, LossReport, Severity};
use crate::text::str_eq;
use super::super::registry::{entry, lemma_report_grows_trans, report_grows, Action, Registration, Registry, RegistryBuilder, TypeKey, Walker};
use super::super::dispatch::{Conv, CustomWalker};
use super::super::walker::{convert, items, lemma_replaced_at};
use super::super::registry::{at_path_converted, compound_of};

verus! {

/// This version.
pub const VERSION: i32 = 3825;

/// The standard banner names.
pub open spec fn banner_names() -> Seq<&'static str> {
    seq!["block.minecraft.ominous_banner"]
}

/// The standard banner names.
fn banner_name_table() -> (t: &'static [&'static str])
    ensures
        t@ == banner_names(),
{
    &["block.minecraft.ominous_banner"]
}

/// The standard map names.
pub open spec fn map_names() -> Seq<&'static str> {
    seq![
        "filled_map.buried_treasure",
        "filled_map.explorer_jungle",
        "filled_map.explorer_swamp",
        "filled_map.mansion",
        "filled_map.monument",
        "filled_map.trial_chambers",
        "filled_map.village_desert",
        "filled_map.village_plains",
        "filled_map.village_savanna",
        "filled_map.village_snowy",
        "filled_map.village_taiga",
    ]
}

/// The standard map names.
fn map_name_table() -> (t: &'static [&'static str])
    ensures
        t@ == map_names(),
{
    &[
        "filled_map.buried_treasure",
        "filled_map.explorer_jungle",
        "filled_map.explorer_swamp",
        "filled_map.mansion",
        "filled_map.monument",
        "filled_map.trial_chambers",
        "filled_map.village_desert",
        "filled_map.village_plains",
        "filled_map.village_savanna",
        "filled_map.village_snowy",
        "filled_map.village_taiga",
    ]
}

/// `t` is one of `names`.
pub open spec fn in_names(names: Seq<&'static str>, t: Seq<char>) -> bool {
    exists|i: int| 0 <= i < names.len() && #[trigger] names[i]@ == t
}

/// Is `t` one of `names`?
fn contains_name(names: &[&'static str], t: &str) -> (b: bool)
    ensures
        b == in_names(names@, t@),
{
    let mut i: usize = 0;
    while i < names.len()
        invariant
            i <= names@.len(),
            forall|j: int| 0 <= j < i ==> names@[j]@ != t@,
        decreases names@.len() - i,
    {
        if str_eq(names[i], t) {
            return true;
        }
        i = i + 1;
    }
    false
}

/// The JSON text `s` translates one of `names`.
pub open spec fn is_standard(s: Seq<char>, names: Seq<&'static str>) -> bool {
    match translation_of(s) {
        Some(t) => in_names(names, t),
        None => false,
    }
}

/// Does the JSON text `s` translate one of `names`?
fn standard_name(s: &str, names: &[&'static str]) -> (b: bool)
    ensures
        b == is_standard(s@, names@),
{
    match retrieve_translation_string(s) {
        Some(t) => contains_name(names, t.as_str()),
        None => false,
    }
}

/// The components after the forward change: a standard `custom_name`
/// becomes the `item_name`.
pub open spec fn name_promoted(c: Map<Seq<char>, NbtValue>, c2: Map<Seq<char>, NbtValue>, names: Seq<&'static str>) -> bool {
    match str_of(c, "minecraft:custom_name"@) {
        Some(s) => if is_standard(s, names) {
            c2.remove("minecraft:item_name"@) == c.remove("minecraft:custom_name"@).remove("minecraft:item_name"@)
                && str_of(c2, "minecraft:item_name"@) == Some(s)
        } else {
            c2 == c
        },
        None => c2 == c,
    }
}

/// Promote a standard `custom_name` to the `item_name`.
pub fn convert_name(components: &mut NbtMap, standard_names: &[&'static str])
    ensures
        name_promoted(old(components)@, final(components)@, standard_names@),
{
    let custom_name = match components.get_string("minecraft:custom_name") {
        Some(s) => s.to_owned(),
        None => return ,
    };
    if standard_name(custom_name.as_str(), standard_names) {
        components.take("minecraft:custom_name");
        let ghost mid = components@;
        components.set_string("minecraft:item_name", custom_name.as_str());
        proof {
            assert(components@.remove("minecraft:item_name"@) =~= mid.remove("minecraft:item_name"@));
        }
    }
}

/// The components after the reverse change: a standard `item_name` goes
/// back to the `custom_name`, reported (it may have been authored so).
pub open spec fn name_demoted(
    c: Map<Seq<char>, NbtValue>,
    c2: Map<Seq<char>, NbtValue>,
    names: Seq<&'static str>,
    r: Seq<LossEntry>,
    r2: Seq<LossEntry>,
) -> bool {
    match str_of(c, "minecraft:item_name"@) {
        Some(s) => if is_standard(s, names) {
            &&& c2.remove("minecraft:custom_name"@) == c.remove("minecraft:item_name"@).remove(
                "minecraft:custom_name"@,
            )
            &&& str_of(c2, "minecraft:custom_name"@) == Some(s)
            &&& one_more_with(r, r2, VERSION, LossKind::FingerprintCollapse, Severity::Approximated,
                "standard item_name may be a modern value or a promoted legacy custom_name; restored legacy custom_name"@)
        } else {
            c2 == c && r2 == r
        },
        None => c2 == c && r2 == r,
    }
}

/// Demote a standard `item_name` back to the `custom_name`.
pub fn revert_name(components: &mut NbtMap, standard_names: &[&'static str], rep: &mut LossReport)
    ensures
        name_demoted(old(components)@, final(components)@, standard_names@, old(rep).entries@, final(rep).entries@),
{
    let item_name = match components.get_string("minecraft:item_name") {
        Some(s) => s.to_owned(),
        None => return ,
    };
    if standard_name(item_name.as_str(), standard_names) {
        components.take("minecraft:item_name");
        let ghost mid = components@;
        components.set_string("minecraft:custom_name", item_name.as_str());
        proof {
            assert(components@.remove("minecraft:custom_name"@) =~= mid.remove("minecraft:custom_name"@));
        }
        report(
            rep,
            VERSION,
            LossKind::FingerprintCollapse,
            Severity::Approximated,
            "standard item_name may be a modern value or a promoted legacy custom_name; restored legacy custom_name",
        );
    }
}

/// Promoting a standard name and demoting it back restores the components,
/// where no item name stood there before.
pub proof fn law_name_round_trip(
    c: Map<Seq<char>, NbtValue>,
    mid: Map<Seq<char>, NbtValue>,
    c2: Map<Seq<char>, NbtValue>,
    names: Seq<&'static str>,
    r: Seq<LossEntry>,
    r2: Seq<LossEntry>,
)
    requires
        str_of(c, "minecraft:custom_name"@) matches Some(s) && is_standard(s, names),
        !c.dom().contains("minecraft:item_name"@),
        name_promoted(c, mid, names),
        name_demoted(mid, c2, names, r, r2),
    ensures
        c2.remove("minecraft:custom_name"@) == c.remove("minecraft:custom_name"@),
        str_of(c2, "minecraft:custom_name"@) == str_of(c, "minecraft:custom_name"@),
{
    assert(mid.remove("minecraft:item_name"@).remove("minecraft:custom_name"@) =~= c.remove(
        "minecraft:custom_name"@,
    ).remove("minecraft:item_name"@));
    assert(c.remove("minecraft:custom_name"@).remove("minecraft:item_name"@) =~= c.remove("minecraft:custom_name"@));
    assert(c2.remove("minecraft:custom_name"@) =~= c.remove("minecraft:custom_name"@));
}

/// The standard names of item `id`, for a white banner or a filled map.
pub open spec fn names_for_item(id: Seq<char>) -> Option<Seq<&'static str>> {
    if id == "minecraft:white_banner"@ {
        Some(banner_names())
    } else if id == "minecraft:filled_map"@ {
        Some(map_names())
    } else {
        None
    }
}

/// Which table of standard names item `data` uses.
fn item_names(data: &NbtMap) -> (r: Option<&'static [&'static str]>)
    ensures
        match r {
            Some(t) => str_of(data@, "id"@) matches Some(id) && names_for_item(id) == Some(t@),
            None => match str_of(data@, "id"@) {
                Some(id) => names_for_item(id) is None,
                None => true,
            },
        },
{
    match data.get_string("id") {
        Some(id) => if str_eq(id, "minecraft:white_banner") {
            Some(banner_name_table())
        } else if str_eq(id, "minecraft:filled_map") {
            Some(map_name_table())
        } else {
            None
        },
        None => None,
    }
}

/// The item after the forward change of its components.
pub open spec fn item_promoted(old: Map<Seq<char>, NbtValue>, new: Map<Seq<char>, NbtValue>) -> bool {
    match str_of(old, "id"@) {
        Some(id) => match names_for_item(id) {
            Some(names) => within(old, new, "components"@, |c, c2| name_promoted(c, c2, names)),
            None => new == old,
        },
        None => new == old,
    }
}

/// What [`promote_item_name`] makes of `data_in`.
pub open spec fn promote_item_name_effect(data_in: NbtMap, data_out: NbtMap) -> bool {
    &&& item_promoted(data_in@, data_out@)
}

/// Forward on an item stack.
pub fn promote_item_name(data: &mut NbtMap)
    ensures
        item_promoted(old(data)@, final(data)@),
{
    let names = match item_names(data) {
        Some(t) => t,
        None => return ,
    };
    match data.take_map("components") {
        Some(mut c) => {
            let ghost mid = data@;
            convert_name(&mut c, names);
            data.set_map("components", c);
            proof {
                lemma_put_back(old(data)@, mid, "components"@, NbtValue::Compound(c));
            }
        },
        None => {},
    }
}

/// The item after the reverse change of its components.
pub open spec fn item_demoted(
    old: Map<Seq<char>, NbtValue>,
    new: Map<Seq<char>, NbtValue>,
    r: Seq<LossEntry>,
    r2: Seq<LossEntry>,
) -> bool {
    match str_of(old, "id"@) {
        Some(id) => match names_for_item(id) {
            Some(names) => within(old, new, "components"@, |c, c2| name_demoted(c, c2, names, r, r2)) && (map_of(
                old,
                "components"@,
            ) is None ==> r2 == r),
            None => new == old && r2 == r,
        },
        None => new == old && r2 == r,
    }
}

/// What [`demote_item_name`] makes of `data_in` and the report `rep_in`.
pub open spec fn demote_item_name_effect(data_in: NbtMap, data_out: NbtMap, rep_in: LossReport, rep_out: LossReport) -> bool {
    &&& item_demoted(data_in@, data_out@, rep_in.entries@, rep_out.entries@)
}

/// Reverse on an item stack.
pub fn demote_item_name(data: &mut NbtMap, rep: &mut LossReport)
    ensures
        item_demoted(old(data)@, final(data)@, old(rep).entries@, final(rep).entries@),
{
    let names = match item_names(data) {
        Some(t) => t,
        None => return ,
    };
    match data.take_map("components") {
        Some(mut c) => {
            let ghost mid = data@;
            revert_name(&mut c, names, rep);
            data.set_map("components", c);
            proof {
                lemma_put_back(old(data)@, mid, "components"@, NbtValue::Compound(c));
            }
        },
        None => {},
    }
}

/// The components of a block entity, or none.
pub open spec fn components_or_empty(m: Map<Seq<char>, NbtValue>) -> Map<Seq<char>, NbtValue> {
    match map_of(m, "components"@) {
        Some(c) => c@,
        None => Map::empty(),
    }
}

/// The banner block entity after the forward change: an ominous
/// `CustomName` becomes its item name, with the tooltip hidden.
pub open spec fn banner_named(old: Map<Seq<char>, NbtValue>, new: Map<Seq<char>, NbtValue>) -> bool {
    match str_of(old, "CustomName"@) {
        Some(s) => if translation_of(s) == Some("block.minecraft.ominous_banner"@) {
            &&& !new.dom().contains("CustomName"@)
            &&& new.remove("components"@) == old.remove("CustomName"@).remove("components"@)
            &&& map_of(new, "components"@) matches Some(c2) && c2@.remove("minecraft:item_name"@).remove(
                "minecraft:hide_additional_tooltip"@,
            ) == components_or_empty(old).remove("minecraft:item_name"@).remove(
                "minecraft:hide_additional_tooltip"@,
            ) && str_of(c2@, "minecraft:item_name"@) == Some(s) && c2@.dom().contains(
                "minecraft:hide_additional_tooltip"@,
            ) && is_empty_compound(c2@["minecraft:hide_additional_tooltip"@])
        } else {
            new == old
        },
        None => new == old,
    }
}

/// Is `s` a JSON text translating the ominous banner name?
fn is_ominous_name(s: &str) -> (b: bool)
    ensures
        b == (translation_of(s@) == Some("block.minecraft.ominous_banner"@)),
{
    match retrieve_translation_string(s) {
        Some(t) => str_eq(t.as_str(), "block.minecraft.ominous_banner"),
        None => false,
    }
}

/// The keys this version touches are distinct.
proof fn lemma_keys()
    ensures
        "minecraft:item_name"@ != "minecraft:hide_additional_tooltip"@,
        "minecraft:item_name"@ != "minecraft:custom_name"@,
        "CustomName"@ != "components"@,
{
    reveal_strlit("minecraft:item_name");
    reveal_strlit("minecraft:hide_additional_tooltip");
    reveal_strlit("minecraft:custom_name");
    reveal_strlit("CustomName");
    reveal_strlit("components");
    assert("minecraft:item_name"@[10] != "minecraft:hide_additional_tooltip"@[10]);
    assert("minecraft:item_name"@[10] != "minecraft:custom_name"@[10]);
    assert("CustomName"@[0] != "components"@[0]);
}

/// What [`name_ominous_banner`] makes of `data_in`.
pub open spec fn name_ominous_banner_effect(data_in: NbtMap, data_out: NbtMap) -> bool {
    &&& banner_named(data_in@, data_out@)
}

/// Forward on a banner block entity.
pub fn name_ominous_banner(data: &mut NbtMap)
    ensures
        banner_named(old(data)@, final(data)@),
{
    let custom_name = match data.get_string("CustomName") {
        Some(s) => s.to_owned(),
        None => return ,
    };
    if !is_ominous_name(custom_name.as_str()) {
        return ;
    }
    proof {
        lemma_keys();
    }
    data.take("CustomName");
    let ghost m1 = data@;
    let mut c = match data.take_map("components") {
        Some(c) => c,
        None => NbtMap::new(),
    };
    let ghost m2 = data@;
    let ghost c0 = c@;
    c.set_string("minecraft:item_name", custom_name.as_str());
    c.set_map("minecraft:hide_additional_tooltip", NbtMap::new());
    data.set_map("components", c);
    proof {
        assert(data@.remove("components"@) =~= m2.remove("components"@));
        assert(c@.remove("minecraft:item_name"@).remove("minecraft:hide_additional_tooltip"@) =~= c0.remove(
            "minecraft:item_name"@,
        ).remove("minecraft:hide_additional_tooltip"@));
        assert(c0 == components_or_empty(old(data)@)) by {
            assert(map_of(m1, "components"@) == map_of(old(data)@, "components"@)) by {
                assert(m1.remove("CustomName"@)["components"@] == m1["components"@]);
                assert(old(data)@.remove("CustomName"@)["components"@] == old(data)@["components"@]);
                assert(m1.dom().contains("components"@) == old(data)@.dom().contains("components"@)) by {
                    assert(old(data)@.remove("CustomName"@).dom().contains("components"@) == old(
                        data,
                    )@.dom().contains("components"@));
                }
            }
        }
    }
}

/// The banner block entity after the reverse change: an ominous item name
/// goes back to `CustomName`, the hidden tooltip is dropped (reported),
/// components left empty go, and the name is reported as possibly
/// authored.
pub open spec fn banner_unnamed(
    old: Map<Seq<char>, NbtValue>,
    new: Map<Seq<char>, NbtValue>,
    r: Seq<LossEntry>,
    r2: Seq<LossEntry>,
) -> bool {
    match map_of(old, "components"@) {
        Some(c) => match str_of(c@, "minecraft:item_name"@) {
            Some(s) => if translation_of(s) == Some("block.minecraft.ominous_banner"@) {
                let c1 = c@.remove("minecraft:item_name"@).remove("minecraft:hide_additional_tooltip"@);
                &&& new.remove("components"@).remove("CustomName"@) == old.remove("components"@).remove(
                    "CustomName"@,
                )
                &&& str_of(new, "CustomName"@) == Some(s)
                &&& if c1 == Map::<Seq<char>, NbtValue>::empty() {
                    !new.dom().contains("components"@)
                } else {
                    map_of(new, "components"@) matches Some(c2) && c2@ == c1
                }
                &&& appended_at(
                    r,
                    r2,
                    VERSION,
                    (if c@.dom().contains("minecraft:hide_additional_tooltip"@) {
                        seq![(LossKind::ComponentDropped, Severity::Approximated, "removed ominous banner hide_additional_tooltip while restoring legacy CustomName"@)]
                    } else {
                        Seq::empty()
                    }) + seq![(LossKind::FingerprintCollapse, Severity::Approximated, "ominous banner item_name may be modern or converted from legacy CustomName; restored legacy CustomName"@)],
                )
            } else {
                new == old && r2 == r
            },
            None => new == old && r2 == r,
        },
        None => new == old && r2 == r,
    }
}

/// What [`unname_ominous_banner`] makes of `data_in` and the report `rep_in`.
pub open spec fn unname_ominous_banner_effect(data_in: NbtMap, data_out: NbtMap, rep_in: LossReport, rep_out: LossReport) -> bool {
    &&& banner_unnamed(data_in@, data_out@, rep_in.entries@, rep_out.entries@)
}

/// Reverse on a banner block entity.
pub fn unname_ominous_banner(data: &mut NbtMap, rep: &mut LossReport)
    ensures
        banner_unnamed(old(data)@, final(data)@, old(rep).entries@, final(rep).entries@),
{
    let item_name = match data.get_map("components") {
        Some(c) => match c.get_string("minecraft:item_name") {
            Some(s) => s.to_owned(),
            None => return ,
        },
        None => return ,
    };
    if !is_ominous_name(item_name.as_str()) {
        return ;
    }
    proof {
        lemma_keys();
    }
    let ghost e0 = rep.entries@;
    let mut c = match data.take_map("components") {
        Some(c) => c,
        None => NbtMap::new(),
    };
    let ghost m1 = data@;
    c.take("minecraft:item_name");
    let had_tooltip = c.take("minecraft:hide_additional_tooltip").is_some();
    if had_tooltip {
        report(
            rep,
            VERSION,
            LossKind::ComponentDropped,
            Severity::Approximated,
            "removed ominous banner hide_additional_tooltip while restoring legacy CustomName",
        );
    }
    let ghost e1 = rep.entries@;
    if c.is_empty() {
        data.take("components");
    } else {
        data.set_map("components", c);
    }
    let ghost m2 = data@;
    data.set_string("CustomName", item_name.as_str());
    report(
        rep,
        VERSION,
        LossKind::FingerprintCollapse,
        Severity::Approximated,
        "ominous banner item_name may be modern or converted from legacy CustomName; restored legacy CustomName",
    );
    proof {
        assert(data@.remove("components"@).remove("CustomName"@) =~= old(data)@.remove("components"@).remove(
            "CustomName"@,
        )) by {
            assert(data@.remove("CustomName"@) =~= m2.remove("CustomName"@));
            assert(m2.remove("components"@) =~= m1.remove("components"@));
            assert(m1.remove("components"@) =~= old(data)@.remove("components"@));
        }
        let tags = (if old(data)@["components"@]->Compound_0@.dom().contains("minecraft:hide_additional_tooltip"@) {
            seq![(LossKind::ComponentDropped, Severity::Approximated, "removed ominous banner hide_additional_tooltip while restoring legacy CustomName"@)]
        } else {
            Seq::<(LossKind, Severity, Seq<char>)>::empty()
        }) + seq![(LossKind::FingerprintCollapse, Severity::Approximated, "ominous banner item_name may be modern or converted from legacy CustomName; restored legacy CustomName"@)];
        let es = rep.entries@;
        assert(es.subrange(0, e0.len() as int) =~= e0) by {
            assert(es.subrange(0, e1.len() as int) =~= e1);
            if had_tooltip {
                assert(e1.subrange(0, e0.len() as int) =~= e0);
            }
        }
        assert forall|i: int| 0 <= i < tags.len() implies (#[trigger] es[e0.len() + i]).version == VERSION
            && es[e0.len() + i].kind == tags[i].0 && es[e0.len() + i].severity == tags[i].1
            && es[e0.len() + i].message@ == tags[i].2 by {
            if e0.len() + i < e1.len() {
                assert(es[e0.len() + i] == es.subrange(0, e1.len() as int)[e0.len() + i]);
            }
        }
    }
}

/// The trial spawner settings gathered into `normal_config`.
pub open spec fn spawner_keys() -> Seq<&'static str> {
    seq![
        "spawn_range",
        "total_mobs",
        "simultaneous_mobs",
        "total_mobs_added_per_player",
        "simultaneous_mobs_added_per_player",
        "ticks_between_spawn",
        "spawn_potentials",
        "loot_tables_to_eject",
        "items_to_drop_when_ominous",
    ]
}

/// The trial spawner settings gathered into `normal_config`.
fn spawner_key_table() -> (t: &'static [&'static str])
    ensures
        t@ == spawner_keys(),
{
    &[
        "spawn_range",
        "total_mobs",
        "simultaneous_mobs",
        "total_mobs_added_per_player",
        "simultaneous_mobs_added_per_player",
        "ticks_between_spawn",
        "spawn_potentials",
        "loot_tables_to_eject",
        "items_to_drop_when_ominous",
    ]
}

/// The key texts of the first `n` settings.
pub open spec fn first_keys(n: int) -> Set<Seq<char>> {
    Set::new(|k: Seq<char>| exists|j: int| 0 <= j < n && #[trigger] spawner_keys()[j]@ == k)
}

/// The key texts of the settings.
pub open spec fn setting_keys() -> Set<Seq<char>> {
    first_keys(9)
}

/// `normal_config` is not one of the settings.
proof fn lemma_normal_config_not_setting()
    ensures
        !setting_keys().contains("normal_config"@),
{
    reveal_strlit("normal_config");
    reveal_strlit("spawn_range");
    reveal_strlit("total_mobs");
    reveal_strlit("simultaneous_mobs");
    reveal_strlit("total_mobs_added_per_player");
    reveal_strlit("simultaneous_mobs_added_per_player");
    reveal_strlit("ticks_between_spawn");
    reveal_strlit("spawn_potentials");
    reveal_strlit("loot_tables_to_eject");
    reveal_strlit("items_to_drop_when_ominous");
    assert forall|j: int| 0 <= j < 9 implies #[trigger] spawner_keys()[j]@ != "normal_config"@ by {
        assert(spawner_keys()[j]@[0] != "normal_config"@[0]);
    }
}

/// The trial spawner after the forward change: its settings moved into
/// `normal_config` where there are any.
pub open spec fn settings_gathered(old: Map<Seq<char>, NbtValue>, new: Map<Seq<char>, NbtValue>) -> bool {
    let moved = old.restrict(setting_keys());
    &&& new.remove("normal_config"@) == old.remove_keys(setting_keys()).remove("normal_config"@)
    &&& if moved == Map::<Seq<char>, NbtValue>::empty() {
        lookup(new, "normal_config"@) == lookup(old, "normal_config"@)
    } else {
        map_of(new, "normal_config"@) matches Some(m) && m@ == moved
    }
}

/// What [`gather_settings`] makes of `data_in`.
pub open spec fn gather_settings_effect(data_in: NbtMap, data_out: NbtMap) -> bool {
    &&& settings_gathered(data_in@, data_out@)
}

/// Forward on a trial spawner.
pub fn gather_settings(data: &mut NbtMap)
    ensures
        settings_gathered(old(data)@, final(data)@),
{
    proof {
        lemma_normal_config_not_setting();
    }
    let keys = spawner_key_table();
    let mut normal_config = NbtMap::new();
    let ghost base = data@;
    let mut i: usize = 0;
    proof {
        assert(data@ =~= base.remove_keys(first_keys(0)));
        assert(normal_config@ =~= base.restrict(first_keys(0)));
    }
    while i < keys.len()
        invariant
            keys@ == spawner_keys(),
            i <= keys@.len(),
            data@ == base.remove_keys(first_keys(i as int)),
            normal_config@ == base.restrict(first_keys(i as int)),
        decreases keys@.len() - i,
    {
        let key = keys[i];
        let ghost before = data@;
        match data.take(key) {
            Some(v) => normal_config.set(key, v),
            None => {},
        }
        proof {
            assert(first_keys(i + 1) =~= first_keys(i as int).insert(key@));
            assert(data@ =~= base.remove_keys(first_keys(i + 1)));
            assert(normal_config@ =~= base.restrict(first_keys(i + 1)));
        }
        i = i + 1;
    }
    let nonempty = !normal_config.is_empty();
    let ghost moved = normal_config@;
    let ghost m1 = data@;
    if nonempty {
        data.set_map("normal_config", normal_config);
    }
    proof {
        assert(data@.remove("normal_config"@) =~= base.remove_keys(setting_keys()).remove("normal_config"@));
        if !nonempty {
            assert(m1.dom().contains("normal_config"@) == base.dom().contains("normal_config"@));
        }
    }
}

/// The trial spawner after the reverse change: a compound `normal_config`
/// scattered back to the top level.
pub open spec fn settings_scattered(old: Map<Seq<char>, NbtValue>, new: Map<Seq<char>, NbtValue>) -> bool {
    match lookup(old, "normal_config"@) {
        Some(NbtValue::Compound(m)) => new == old.remove("normal_config"@).union_prefer_right(m@),
        _ => new == old,
    }
}

/// What [`scatter_settings`] makes of `data_in`.
pub open spec fn scatter_settings_effect(data_in: NbtMap, data_out: NbtMap) -> bool {
    &&& settings_scattered(data_in@, data_out@)
}

/// Reverse on a trial spawner (lossless).
pub fn scatter_settings(data: &mut NbtMap)
    ensures
        settings_scattered(old(data)@, final(data)@),
{
    match data.take("normal_config") {
        Some(NbtValue::Compound(m)) => {
            data.absorb(m);
        },
        Some(other) => {
            data.set("normal_config", other);
            proof {
                assert(data@ =~= old(data)@);
            }
        },
        None => {
            proof {
                assert(data@ =~= old(data)@);
            }
        },
    }
}

/// Gathering a trial spawner's settings and scattering them back restores
/// it, where it had no `normal_config` before.
pub proof fn law_settings_round_trip(
    old: Map<Seq<char>, NbtValue>,
    mid: Map<Seq<char>, NbtValue>,
    new: Map<Seq<char>, NbtValue>,
)
    requires
        !old.dom().contains("normal_config"@),
        settings_gathered(old, mid),
        settings_scattered(mid, new),
    ensures
        new == old,
{
    lemma_normal_config_not_setting();
    let moved = old.restrict(setting_keys());
    if moved == Map::<Seq<char>, NbtValue>::empty() {
        assert(mid.remove("normal_config"@) =~= mid);
        assert forall|k: Seq<char>| setting_keys().contains(k) implies !old.dom().contains(k) by {
            if old.dom().contains(k) {
                assert(moved.dom().contains(k));
            }
        }
        assert(new =~= old);
    } else {
        assert(new =~= old);
    }
}

/// What the trial spawner walker makes of a trial spawner: both spawner
/// configurations, then the entity of `spawn_data`.
pub open spec fn trial_spawner_walked(regs: Seq<Registration>, d0: NbtMap, d1: NbtMap, r0: LossReport, r1: LossReport, from: i32, to: i32, fuel: nat) -> bool
    decreases fuel, 8int, 0int,
{
    exists|da: NbtMap, ra: LossReport, db: NbtMap, rb: LossReport|
        #![trigger state_pair(da, ra), state_pair(db, rb)]
        state_pair(da, ra) == (da, ra) && state_pair(db, rb) == (db, rb) && config_walked(regs, "normal_config"@, d0, da, r0, ra, from, to, fuel)
            && config_walked(regs, "ominous_config"@, da, db, ra, rb, from, to, fuel)
            && match map_of(db@, "spawn_data"@) {
                None => d1@ == db@ && r1 == rb,
                Some(s) => exists|s2: NbtMap| #![trigger compound_of(s2)]
                    at_path_converted(regs, TypeKey::Entity, "entity"@, s, s2, rb, r1, from, to, fuel)
                        && d1@ == db@.insert("spawn_data"@, compound_of(s2)),
            }
}

/// The trial spawner walker: the entities its configurations and its
/// `spawn_data` hold.
pub fn walk_trial_spawner(reg: &Registry, data: &mut NbtMap, from: i32, to: i32, report: &mut LossReport, fuel: u32)
    requires
        fuel > 0,
    ensures
        report_grows(*old(report), *final(report)),
        trial_spawner_walked(reg.entries@, *old(data), *final(data), *old(report), *final(report), from, to, fuel as nat),
    decreases fuel, 3int,
{
    let ghost regs = reg.entries@;
    let ghost r0 = *report;
    walk_config(reg, data, "normal_config", from, to, report, fuel);
    let ghost r1 = *report;
    let ghost da = *data;
    walk_config(reg, data, "ominous_config", from, to, report, fuel);
    let ghost r2 = *report;
    let ghost db = *data;
    proof {
        lemma_report_grows_trans(r0, r1, r2);
    }
    match data.take_map("spawn_data") {
        Some(mut spawn_data) => {
            let ghost mid = *data;
            let ghost s0 = spawn_data;
            convert(reg, TypeKey::Entity, &mut spawn_data, "entity", from, to, report, fuel);
            let ghost s1 = spawn_data;
            data.set_map("spawn_data", spawn_data);
            proof {
                lemma_replaced_at(db@, mid@, "spawn_data"@, NbtValue::Compound(s1));
                assert(compound_of(s1) == NbtValue::Compound(s1));
                assert(at_path_converted(regs, TypeKey::Entity, "entity"@, s0, s1, r2, *report, from, to, fuel as nat));
            }
        },
        None => {},
    }
    proof {
        lemma_report_grows_trans(r0, r2, *report);
        assert(config_walked(regs, "normal_config"@, *old(data), da, r0, r1, from, to, fuel as nat));
        assert(config_walked(regs, "ominous_config"@, da, db, r1, r2, from, to, fuel as nat));
        assert(state_pair(da, r1) == (da, r1));
        assert(state_pair(db, r2) == (db, r2));
    }
}

/// A spawn potential `a` of a trial spawner configuration converted into
/// `b`: the entity under its `data` converted.
pub open spec fn potential_converted(regs: Seq<Registration>, a: NbtValue, b: NbtValue, r0: LossReport, r1: LossReport, from: i32, to: i32, fuel: nat) -> bool
    decreases fuel, 3int, 0int,
{
    match a {
        NbtValue::Compound(m) => b matches NbtValue::Compound(m2) && match map_of(m@, "data"@) {
            None => m2@ == m@ && r1 == r0,
            Some(inner) => exists|inner2: NbtMap| #![trigger compound_of(inner2)]
                at_path_converted(regs, TypeKey::Entity, "entity"@, inner, inner2, r0, r1, from, to, fuel)
                    && m2@ == m@.insert("data"@, compound_of(inner2)),
        },
        _ => b == a && r1 == r0,
    }
}

/// The spawn potentials `l` converted in order into `l2`, the report
/// running through `rs`.
pub open spec fn potentials_converted(regs: Seq<Registration>, l: Seq<NbtValue>, l2: Seq<NbtValue>, rs: Seq<LossReport>, from: i32, to: i32, fuel: nat) -> bool
    decreases fuel, 4int, 0int,
{
    &&& l2.len() == l.len()
    &&& rs.len() == l.len() + 1
    &&& forall|i: int| 0 <= i < l.len() ==> #[trigger] potential_converted(regs, l[i], l2[i], rs[i], rs[i + 1], from, to, fuel)
}

/// The configuration `c2` is `c` with its spawn potentials `l` converted,
/// the report going from `r0` to `r1`.
pub open spec fn potentials_done(regs: Seq<Registration>, l: Seq<NbtValue>, c: NbtMap, c2: NbtMap, r0: LossReport, r1: LossReport, from: i32, to: i32, fuel: nat) -> bool
    decreases fuel, 5int, 0int,
{
    exists|l2: Seq<NbtValue>, rs: Seq<LossReport>| #![trigger l2.len(), rs.len()]
        l2.len() == l.len() && rs.len() == l.len() + 1 && rs[0] == r0 && rs[l.len() as int] == r1 && c2@ == c@.insert("spawn_potentials"@, c2@["spawn_potentials"@])
            && list_of(c2@, "spawn_potentials"@) == Some(l2) && potentials_converted(regs, l, l2, rs, from, to, fuel)
}

/// What walking the configuration at `key` makes of a trial spawner: the
/// entity of each of its spawn potentials converted, in order.
pub open spec fn config_walked(regs: Seq<Registration>, key: Seq<char>, d0: NbtMap, d1: NbtMap, r0: LossReport, r1: LossReport, from: i32, to: i32, fuel: nat) -> bool
    decreases fuel, 6int, 0int,
{
    match map_of(d0@, key) {
        None => d1@ == d0@ && r1 == r0,
        Some(c) => exists|c2: NbtMap| #![trigger compound_of(c2)]
            d1@ == d0@.insert(key, compound_of(c2)) && match list_of(c@, "spawn_potentials"@) {
                None => c2@ == c@ && r1 == r0,
                Some(l) => potentials_done(regs, l, c, c2, r0, r1, from, to, fuel),
            },
    }
}

/// Walk the spawner configuration at `key`: each spawn potential's entity.
fn walk_config(reg: &Registry, data: &mut NbtMap, key: &str, from: i32, to: i32, report: &mut LossReport, fuel: u32)
    requires
        fuel > 0,
    ensures
        report_grows(*old(report), *final(report)),
        config_walked(reg.entries@, key@, *old(data), *final(data), *old(report), *final(report), from, to, fuel as nat),
    decreases fuel, 2int,
{
    let ghost regs = reg.entries@;
    let ghost r0 = *report;
    match data.take_map(key) {
        Some(mut config) => {
            let ghost dmid = *data;
            let ghost c0 = config;
            match config.take_list("spawn_potentials") {
                Some(list) => {
                    let ghost cmid = config;
                    let ghost l0 = list@;
                    let mut rest = list;
                    let mut out: Vec<NbtValue> = Vec::new();
                    let ghost mut rs: Seq<LossReport> = seq![*report];
                    while rest.len() > 0
                        invariant
                            fuel > 0,
                            regs == reg.entries@,
                            report_grows(r0, *report),
                            out@.len() + rest@.len() == l0.len(),
                            rest@ == l0.subrange(out@.len() as int, l0.len() as int),
                            rs.len() == out@.len() + 1,
                            rs[0] == r0,
                            rs[out@.len() as int] == *report,
                            forall|i: int| 0 <= i < out@.len() ==> #[trigger] potential_converted(regs, l0[i], out@[i], rs[i], rs[i + 1], from, to, fuel as nat),
                        decreases rest@.len(),
                    {
                        let ghost k = out@.len() as int;
                        let el = rest.remove(0);
                        proof {
                            assert(el == l0[k]);
                            assert(rest@ =~= l0.subrange(k + 1, l0.len() as int));
                        }
                        let ghost r1 = *report;
                        let conv = match el {
                            NbtValue::Compound(mut e) => {
                                let ghost m0 = e;
                                match e.take_map("data") {
                                    Some(mut inner) => {
                                        let ghost emid = e;
                                        let ghost i0 = inner;
                                        convert(reg, TypeKey::Entity, &mut inner, "entity", from, to, report, fuel);
                                        let ghost i1 = inner;
                                        e.set_map("data", inner);
                                        proof {
                                            lemma_replaced_at(m0@, emid@, "data"@, NbtValue::Compound(i1));
                                            assert(compound_of(i1) == NbtValue::Compound(i1));
                                            assert(at_path_converted(regs, TypeKey::Entity, "entity"@, i0, i1, r1, *report, from, to, fuel as nat));
                                        }
                                    },
                                    None => {},
                                }
                                NbtValue::Compound(e)
                            },
                            other => other,
                        };
                        proof {
                            assert(potential_converted(regs, l0[k], conv, r1, *report, from, to, fuel as nat));
                            lemma_report_grows_trans(r0, r1, *report);
                        }
                        let ghost out0 = out@;
                        let ghost rs0 = rs;
                        out.push(conv);
                        proof {
                            rs = rs.push(*report);
                            assert forall|i: int| 0 <= i < out@.len() implies #[trigger] potential_converted(regs, l0[i], out@[i], rs[i], rs[i + 1], from, to, fuel as nat) by {
                                if i < k {
                                    assert(potential_converted(regs, l0[i], out0[i], rs0[i], rs0[i + 1], from, to, fuel as nat));
                                }
                            }
                        }
                    }
                    let ghost l2 = out@;
                    let ghost outv = NbtValue::List(out);
                    config.set_list("spawn_potentials", out);
                    proof {
                        lemma_replaced_at(c0@, cmid@, "spawn_potentials"@, outv);
                        assert(config@ == c0@.insert("spawn_potentials"@, outv));
                        assert(config@["spawn_potentials"@] == outv);
                        assert(list_of(config@, "spawn_potentials"@) == Some(l2));
                        assert(forall|i: int| #![trigger l0[i]] 0 <= i < l0.len() ==> potential_converted(regs, l0[i], l2[i], rs[i], rs[i + 1], from, to, fuel as nat));
                        assert(potentials_converted(regs, l0, l2, rs, from, to, fuel as nat));
                        assert(list_of(c0@, "spawn_potentials"@) == Some(l0));
                        assert(rs[0] == r0 && rs[l0.len() as int] == *report);
                assert(config@ == c0@.insert("spawn_potentials"@, config@["spawn_potentials"@]));
                assert(exists|l2: Seq<NbtValue>, rs: Seq<LossReport>| #![trigger potentials_converted(regs, l0, l2, rs, from, to, fuel as nat)]
                            rs[0] == r0 && rs[l0.len() as int] == *report && config@ == c0@.insert("spawn_potentials"@, config@["spawn_potentials"@])
                                && list_of(config@, "spawn_potentials"@) == Some(l2) && potentials_converted(regs, l0, l2, rs, from, to, fuel as nat));
                        assert(potentials_done(regs, l0, c0, config, r0, *report, from, to, fuel as nat));
                    }
                },
                None => {
                    proof {
                        assert(config@ == c0@);
                        assert(list_of(c0@, "spawn_potentials"@).is_none());
                    }
                },
            }
            let ghost c1 = config;
            data.set_map(key, config);
            proof {
                lemma_replaced_at(old(data)@, dmid@, key@, NbtValue::Compound(c1));
                assert(compound_of(c1) == NbtValue::Compound(c1));
                assert(map_of(old(data)@, key@) == Some(c0));
                assert(data@ == old(data)@.insert(key@, compound_of(c1)));
                assert(config_walked(regs, key@, *old(data), *data, r0, *report, from, to, fuel as nat));
            }
        },
        None => {},
    }
}

/// What this version registers.
pub open spec fn registrations() -> Seq<Registration> {
    seq![
        entry(TypeKey::ItemStack, VERSION, 0, Action::Convert(Conv::V3825PromoteItemName)),
        entry(TypeKey::ItemStack, VERSION, 0, Action::Revert(Conv::V3825DemoteItemName)),
        entry(TypeKey::TileEntity, VERSION, 0, Action::ConvertId("minecraft:banner", Conv::V3825NameOminousBanner)),
        entry(TypeKey::TileEntity, VERSION, 0, Action::RevertId("minecraft:banner", Conv::V3825UnnameOminousBanner)),
        entry(TypeKey::TileEntity, VERSION, 0, Action::Walk("minecraft:trial_spawner", Walker::Custom(CustomWalker::V3825TrialSpawner))),
        entry(TypeKey::TileEntity, VERSION, 0, Action::ConvertId("minecraft:trial_spawner", Conv::V3825GatherSettings)),
        entry(TypeKey::TileEntity, VERSION, 0, Action::RevertId("minecraft:trial_spawner", Conv::V3825ScatterSettings)),
        entry(TypeKey::Entity, VERSION, 0, Action::Walk("minecraft:ominous_item_spawner", Walker::Items(&["item"]))),
    ]
}

/// Register this version's converters and walkers.
pub fn register(reg: &mut RegistryBuilder)
    ensures
        final(reg).entries@ == old(reg).entries@ + registrations(),
{
    reg.add(TypeKey::ItemStack, VERSION, 0, Action::Convert(Conv::V3825PromoteItemName));
    reg.add(TypeKey::ItemStack, VERSION, 0, Action::Revert(Conv::V3825DemoteItemName));
    reg.add(TypeKey::TileEntity, VERSION, 0, Action::ConvertId("minecraft:banner", Conv::V3825NameOminousBanner));
    reg.add(TypeKey::TileEntity, VERSION, 0, Action::RevertId("minecraft:banner", Conv::V3825UnnameOminousBanner));
    reg.add(TypeKey::TileEntity, VERSION, 0, Action::Walk("minecraft:trial_spawner", Walker::Custom(CustomWalker::V3825TrialSpawner)));
    reg.add(TypeKey::TileEntity, VERSION, 0, Action::ConvertId("minecraft:trial_spawner", Conv::V3825GatherSettings));
    reg.add(TypeKey::TileEntity, VERSION, 0, Action::RevertId("minecraft:trial_spawner", Conv::V3825ScatterSettings));
    reg.add(TypeKey::Entity, VERSION, 0, Action::Walk("minecraft:ominous_item_spawner", items(&["item"])));
    proof {
        assert(final(reg).entries@ =~= old(reg).entries@ + registrations());
    }
}

} // verus!
