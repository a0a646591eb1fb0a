//! V4054: an ominous banner (item name translating
//! `block.minecraft.ominous_banner`) gains `minecraft:rarity = uncommon` and
//! a canonical item name.

use vstd::prelude::*;
use crate::nbt::{lemma_put_back, str_of, within, NbtMap, NbtValue};
use crate::json::{create_translatable_component, json_translatable_text, retrieve_translation_string, translation_of};
use crate::loss::{one_more_with, report, LossEntry, LossKind, LossReport, Severity};
use crate::text::str_eq;
use super::super::registry::{entry, Action, Registration, RegistryBuilder, TypeKey};
use super::super::dispatch::Conv;

verus! {

/// This version.
pub const VERSION: i32 = 4054;

/// The components name an ominous banner.
pub open spec fn is_ominous(c: Map<Seq<char>, NbtValue>) -> bool {
    match str_of(c, "minecraft:item_name"@) {
        Some(s) => translation_of(s) == Some("block.minecraft.ominous_banner"@),
        None => false,
    }
}

/// Do the components name an ominous banner?
fn names_ominous(c: &NbtMap) -> (b: bool)
    ensures
        b == is_ominous(c@),
{
    match c.get_string("minecraft:item_name") {
        Some(s) => match retrieve_translation_string(s) {
            Some(t) => str_eq(t.as_str(), "block.minecraft.ominous_banner"),
            None => false,
        },
        None => false,
    }
}

/// The components after the forward change.
pub open spec fn rarity_added(c: Map<Seq<char>, NbtValue>, c2: Map<Seq<char>, NbtValue>) -> bool {
    if is_ominous(c) {
        &&& c2.remove("minecraft:rarity"@).remove("minecraft:item_name"@) == c.remove("minecraft:rarity"@).remove(
            "minecraft:item_name"@,
        )
        &&& str_of(c2, "minecraft:rarity"@) == Some("uncommon"@)
        &&& str_of(c2, "minecraft:item_name"@) == Some(json_translatable_text("block.minecraft.ominous_banner"@))
    } else {
        c2 == c
    }
}

/// The keys this version touches are distinct.
proof fn lemma_keys()
    ensures
        "minecraft:rarity"@ != "minecraft:item_name"@,
{
    reveal_strlit("minecraft:rarity");
    reveal_strlit("minecraft:item_name");
    assert("minecraft:rarity"@[10] != "minecraft:item_name"@[10]);
}

/// Forward on the components.
pub fn convert_components(c: &mut NbtMap)
    ensures
        rarity_added(old(c)@, final(c)@),
{
    if !names_ominous(c) {
        return ;
    }
    proof {
        lemma_keys();
    }
    c.set_string("minecraft:rarity", "uncommon");
    let ghost mid = c@;
    let name = create_translatable_component("block.minecraft.ominous_banner");
    c.set_string("minecraft:item_name", name.as_str());
    proof {
        assert(c@.remove("minecraft:rarity"@).remove("minecraft:item_name"@) =~= old(c)@.remove(
            "minecraft:rarity"@,
        ).remove("minecraft:item_name"@));
    }
}

/// The components after the reverse change: the `uncommon` rarity of an
/// ominous banner removed, and reported (it may have been authored).
pub open spec fn rarity_dropped(
    c: Map<Seq<char>, NbtValue>,
    c2: Map<Seq<char>, NbtValue>,
    r: Seq<LossEntry>,
    r2: Seq<LossEntry>,
) -> bool {
    if is_ominous(c) && str_of(c, "minecraft:rarity"@) == Some("uncommon"@) {
        c2 == c.remove("minecraft:rarity"@) && one_more_with(
            r,
            r2,
            VERSION,
            LossKind::FingerprintCollapse,
            Severity::Approximated,
            "ominous banner uncommon rarity may be forward-added or user-authored; removed it for the legacy preimage"@,
        )
    } else {
        c2 == c && r2 == r
    }
}

/// Reverse on the components.
pub fn reverse_convert_components(c: &mut NbtMap, rep: &mut LossReport)
    ensures
        rarity_dropped(old(c)@, final(c)@, old(rep).entries@, final(rep).entries@),
{
    if !names_ominous(c) {
        return ;
    }
    let uncommon = match c.get_string("minecraft:rarity") {
        Some(s) => str_eq(s, "uncommon"),
        None => false,
    };
    if uncommon {
        c.take("minecraft:rarity");
        report(
            rep,
            VERSION,
            LossKind::FingerprintCollapse,
            Severity::Approximated,
            "ominous banner uncommon rarity may be forward-added or user-authored; removed it for the legacy preimage",
        );
    }
}

/// What [`mark_ominous_banner`] makes of `data_in`.
pub open spec fn mark_ominous_banner_effect(data_in: NbtMap, data_out: NbtMap) -> bool {
    &&& within(data_in@, data_out@, "components"@, |c, c2| rarity_added(c, c2))
}

/// Forward on a banner block entity or a white banner item: its components.
pub fn mark_ominous_banner(data: &mut NbtMap)
    ensures
        within(old(data)@, final(data)@, "components"@, |c, c2| rarity_added(c, c2)),
{
    match data.take_map("components") {
        Some(mut c) => {
            let ghost mid = data@;
            convert_components(&mut c);
            data.set_map("components", c);
            proof {
                lemma_put_back(old(data)@, mid, "components"@, NbtValue::Compound(c));
            }
        },
        None => {},
    }
}

/// What [`unmark_ominous_banner`] makes of `data_in` and the report `rep_in`.
pub open spec fn unmark_ominous_banner_effect(data_in: NbtMap, data_out: NbtMap, rep_in: LossReport, rep_out: LossReport) -> bool {
    &&& within(
                data_in@,
                data_out@,
                "components"@,
                |c, c2| rarity_dropped(c, c2, rep_in.entries@, rep_out.entries@),
            )
    &&& crate::nbt::map_of(data_in@, "components"@) is None ==> rep_out.entries@ == rep_in.entries@
}

/// Reverse on a banner block entity or a white banner item.
pub fn unmark_ominous_banner(data: &mut NbtMap, rep: &mut LossReport)
    ensures
        within(
            old(data)@,
            final(data)@,
            "components"@,
            |c, c2| rarity_dropped(c, c2, old(rep).entries@, final(rep).entries@),
        ),
        crate::nbt::map_of(old(data)@, "components"@) is None ==> final(rep).entries@ == old(rep).entries@,
{
    match data.take_map("components") {
        Some(mut c) => {
            let ghost mid = data@;
            reverse_convert_components(&mut c, rep);
            data.set_map("components", c);
            proof {
                lemma_put_back(old(data)@, mid, "components"@, NbtValue::Compound(c));
            }
        },
        None => {},
    }
}

/// What this version registers.
pub open spec fn registrations() -> Seq<Registration> {
    seq![
        entry(TypeKey::TileEntity, VERSION, 0, Action::ConvertId("minecraft:banner", Conv::V4054MarkOminousBanner)),
        entry(TypeKey::TileEntity, VERSION, 0, Action::RevertId("minecraft:banner", Conv::V4054UnmarkOminousBanner)),
        entry(TypeKey::ItemStack, VERSION, 0, Action::ConvertId("minecraft:white_banner", Conv::V4054MarkOminousBanner)),
        entry(TypeKey::ItemStack, VERSION, 0, Action::RevertId("minecraft:white_banner", Conv::V4054UnmarkOminousBanner)),
    ]
}

/// Register this version's converters.
pub fn register(reg: &mut RegistryBuilder)
    ensures
        final(reg).entries@ == old(reg).entries@ + registrations(),
{
    reg.add(TypeKey::TileEntity, VERSION, 0, Action::ConvertId("minecraft:banner", Conv::V4054MarkOminousBanner));
    reg.add(TypeKey::TileEntity, VERSION, 0, Action::RevertId("minecraft:banner", Conv::V4054UnmarkOminousBanner));
    reg.add(TypeKey::ItemStack, VERSION, 0, Action::ConvertId("minecraft:white_banner", Conv::V4054MarkOminousBanner));
    reg.add(TypeKey::ItemStack, VERSION, 0, Action::RevertId("minecraft:white_banner", Conv::V4054UnmarkOminousBanner));
    proof {
        assert(final(reg).entries@ =~= old(reg).entries@ + registrations());
    }
}

} // verus!
