//! V806: potion item stacks always carry a `tag.Potion` string, water when
//! none was given.

use vstd::prelude::*;
use crate::nbt::{lemma_put_back, lookup, map_of, str_of, NbtMap, NbtValue};
use crate::loss::{one_more_with, report, LossKind, LossReport, Severity};
use crate::text::str_eq;
use super::super::registry::{entry, Action, Registration, RegistryBuilder, TypeKey};
use super::super::dispatch::Conv;

verus! {

/// This version.
pub const VERSION: i32 = 806;

/// The tag of an item stack: its compound `tag`, or nothing.
pub open spec fn tag_of(data: Map<Seq<char>, NbtValue>) -> Map<Seq<char>, NbtValue> {
    match map_of(data, "tag"@) {
        Some(t) => t@,
        None => Map::empty(),
    }
}

/// What [`default_potion`] makes of `data_in`.
pub open spec fn default_potion_effect(data_in: NbtMap, data_out: NbtMap) -> bool {
    &&& data_out@.remove("tag"@) == data_in@.remove("tag"@)
    &&& map_of(data_out@, "tag"@) matches Some(t2) && if lookup(tag_of(data_in@), "Potion"@) matches Some(NbtValue::String(_)) {
                t2@ == tag_of(data_in@)
            } else {
                t2@ == tag_of(data_in@).insert("Potion"@, t2@["Potion"@]) && str_of(t2@, "Potion"@) == Some("minecraft:water"@)
            }
}

/// Forward: make `tag` a compound (empty when it was none) and give it the
/// `Potion` `minecraft:water` unless it holds a string `Potion`.
pub fn default_potion(data: &mut NbtMap)
    ensures
        final(data)@.remove("tag"@) == old(data)@.remove("tag"@),
        map_of(final(data)@, "tag"@) matches Some(t2) && if lookup(tag_of(old(data)@), "Potion"@) matches Some(NbtValue::String(_)) {
            t2@ == tag_of(old(data)@)
        } else {
            t2@ == tag_of(old(data)@).insert("Potion"@, t2@["Potion"@]) && str_of(t2@, "Potion"@) == Some("minecraft:water"@)
        },
{
    if data.get_map("tag").is_none() {
        data.set_map("tag", NbtMap::new());
        proof {
            assert(data@.remove("tag"@) =~= old(data)@.remove("tag"@));
        }
    }
    let ghost d1 = data@;
    match data.take_map("tag") {
        Some(mut tag) => {
            let ghost t0 = tag@;
            let has_string_potion = match tag.get("Potion") {
                Some(NbtValue::String(_)) => true,
                _ => false,
            };
            if !has_string_potion {
                tag.set_string("Potion", "minecraft:water");
            }
            data.set_map("tag", tag);
            proof {
                assert(data@.remove("tag"@) =~= d1.remove("tag"@));
            }
        },
        None => {},
    }
}

/// What [`strip_default_potion`] makes of `data_in` and the report `rep_in`.
pub open spec fn strip_default_potion_effect(data_in: NbtMap, data_out: NbtMap, rep_in: LossReport, rep_out: LossReport) -> bool {
    &&& match map_of(data_in@, "tag"@) {
                Some(t) => {
                    let water = str_of(t@, "Potion"@) == Some("minecraft:water"@);
                    let t1 = if water { t@.remove("Potion"@) } else { t@ };
                    &&& if t1.dom().len() == 0 {
                        data_out@ == data_in@.remove("tag"@)
                    } else {
                        map_of(data_out@, "tag"@) matches Some(t2) && t2@ == t1
                            && data_out@.remove("tag"@) == data_in@.remove("tag"@)
                            && data_out@.dom() == data_in@.dom()
                    }
                    &&& if water {
                        one_more_with(rep_in.entries@, rep_out.entries@, VERSION, LossKind::RenameAmbiguous, Severity::Approximated,
                        "potion item: dropped defaulted tag.Potion=\"minecraft:water\" (cannot distinguish a forward-added default from an explicitly-set water bottle)"@)
                    } else {
                        rep_out.entries@ == rep_in.entries@
                    }
                },
                None => data_out@ == data_in@ && rep_out.entries@ == rep_in.entries@,
            }
}

/// Reverse: drop a `tag.Potion` of `minecraft:water` (approximated: an
/// explicit water bottle looks the same), then drop `tag` when it is empty.
pub fn strip_default_potion(data: &mut NbtMap, rep: &mut LossReport)
    ensures
        match map_of(old(data)@, "tag"@) {
            Some(t) => {
                let water = str_of(t@, "Potion"@) == Some("minecraft:water"@);
                let t1 = if water { t@.remove("Potion"@) } else { t@ };
                &&& if t1.dom().len() == 0 {
                    final(data)@ == old(data)@.remove("tag"@)
                } else {
                    map_of(final(data)@, "tag"@) matches Some(t2) && t2@ == t1
                        && final(data)@.remove("tag"@) == old(data)@.remove("tag"@)
                        && final(data)@.dom() == old(data)@.dom()
                }
                &&& if water {
                    one_more_with(old(rep).entries@, final(rep).entries@, VERSION, LossKind::RenameAmbiguous, Severity::Approximated,
                        "potion item: dropped defaulted tag.Potion=\"minecraft:water\" (cannot distinguish a forward-added default from an explicitly-set water bottle)"@)
                } else {
                    final(rep).entries@ == old(rep).entries@
                }
            },
            None => final(data)@ == old(data)@ && final(rep).entries@ == old(rep).entries@,
        },
{
    match data.take_map("tag") {
        Some(mut tag) => {
            let ghost mid = data@;
            let water = match tag.get_string("Potion") {
                Some(p) => str_eq(p, "minecraft:water"),
                None => false,
            };
            if water {
                tag.take("Potion");
                report(
                    rep,
                    VERSION,
                    LossKind::RenameAmbiguous,
                    Severity::Approximated,
                    "potion item: dropped defaulted tag.Potion=\"minecraft:water\" (cannot distinguish a forward-added default from an explicitly-set water bottle)",
                );
            }
            if tag.is_empty() {
                data.take("tag");
                proof {
                    assert(data@ =~= old(data)@.remove("tag"@));
                }
            } else {
                data.set_map("tag", tag);
                proof {
                    lemma_put_back(old(data)@, mid, "tag"@, NbtValue::Compound(tag));
                }
            }
        },
        None => {},
    }
}

/// The two converters of one potion item id.
pub open spec fn potion_registrations(id: &'static str) -> Seq<Registration> {
    seq![
        entry(TypeKey::ItemStack, VERSION, 0, Action::ConvertId(id, Conv::V806DefaultPotion)),
        entry(TypeKey::ItemStack, VERSION, 0, Action::RevertId(id, Conv::V806StripDefaultPotion)),
    ]
}

fn register_potion(reg: &mut RegistryBuilder, id: &'static str)
    ensures
        final(reg).entries@ == old(reg).entries@ + potion_registrations(id),
{
    reg.add(TypeKey::ItemStack, VERSION, 0, Action::ConvertId(id, Conv::V806DefaultPotion));
    reg.add(TypeKey::ItemStack, VERSION, 0, Action::RevertId(id, Conv::V806StripDefaultPotion));
    proof {
        assert(final(reg).entries@ =~= old(reg).entries@ + potion_registrations(id));
    }
}

/// What this version registers.
pub open spec fn registrations() -> Seq<Registration> {
    potion_registrations("minecraft:potion") + potion_registrations("minecraft:splash_potion")
        + potion_registrations("minecraft:lingering_potion") + potion_registrations("minecraft:tipped_arrow")
}

/// Register this version's converters.
pub fn register(reg: &mut RegistryBuilder)
    ensures
        final(reg).entries@ == old(reg).entries@ + registrations(),
{
    register_potion(reg, "minecraft:potion");
    register_potion(reg, "minecraft:splash_potion");
    register_potion(reg, "minecraft:lingering_potion");
    register_potion(reg, "minecraft:tipped_arrow");
    proof {
        assert(final(reg).entries@ =~= old(reg).entries@ + registrations());
    }
}

} // verus!
