//! V4424: the `locator_bar_icon` of an entity gains an explicit
//! `style: minecraft:default`.

use vstd::prelude::*;
use crate::nbt::{lemma_put_back, map_of, str_of, NbtMap, NbtValue};
use crate::loss::{one_more_with, report, LossKind, LossReport, Severity};
use super::super::registry::{entry, Action, Registration, RegistryBuilder, TypeKey};
use super::super::dispatch::Conv;

verus! {

/// This version.
pub const VERSION: i32 = 4424;

/// What [`add_default_style`] makes of `data_in`.
pub open spec fn add_default_style_effect(data_in: NbtMap, data_out: NbtMap) -> bool {
    &&& match map_of(data_in@, "locator_bar_icon"@) {
                Some(icon) => map_of(data_out@, "locator_bar_icon"@) matches Some(i2)
                    && i2@ == icon@.insert("style"@, i2@["style"@])
                    && str_of(i2@, "style"@) == Some("minecraft:default"@)
                    && data_out@.remove("locator_bar_icon"@) == data_in@.remove("locator_bar_icon"@)
                    && data_out@.dom() == data_in@.dom(),
                None => data_out@ == data_in@,
            }
}

/// Forward: give a present `locator_bar_icon` compound the default style.
pub fn add_default_style(data: &mut NbtMap)
    ensures
        match map_of(old(data)@, "locator_bar_icon"@) {
            Some(icon) => map_of(final(data)@, "locator_bar_icon"@) matches Some(i2)
                && i2@ == icon@.insert("style"@, i2@["style"@])
                && str_of(i2@, "style"@) == Some("minecraft:default"@)
                && final(data)@.remove("locator_bar_icon"@) == old(data)@.remove("locator_bar_icon"@)
                && final(data)@.dom() == old(data)@.dom(),
            None => final(data)@ == old(data)@,
        },
{
    match data.take_map("locator_bar_icon") {
        Some(mut icon) => {
            let ghost mid = data@;
            icon.set_string("style", "minecraft:default");
            proof {

            }
            data.set_map("locator_bar_icon", icon);
            proof {
                lemma_put_back(old(data)@, mid, "locator_bar_icon"@, NbtValue::Compound(icon));
            }
        },
        None => {},
    }
}

/// What [`drop_style`] makes of `data_in` and the report `rep_in`.
pub open spec fn drop_style_effect(data_in: NbtMap, data_out: NbtMap, rep_in: LossReport, rep_out: LossReport) -> bool {
    &&& match map_of(data_in@, "locator_bar_icon"@) {
                Some(icon) => map_of(data_out@, "locator_bar_icon"@) matches Some(i2)
                    && i2@ == icon@.remove("style"@)
                    && data_out@.remove("locator_bar_icon"@) == data_in@.remove("locator_bar_icon"@)
                    && data_out@.dom() == data_in@.dom()
                    && if icon@.dom().contains("style"@) && str_of(icon@, "style"@) != Some("minecraft:default"@) {
                        one_more_with(rep_in.entries@, rep_out.entries@, VERSION, LossKind::UnsupportedInTarget, Severity::Loss,
            "locator_bar_icon.style is not supported before V4424; dropping non-default style"@)
                    } else {
                        rep_out.entries@ == rep_in.entries@
                    },
                None => data_out@ == data_in@ && rep_out.entries@ == rep_in.entries@,
            }
}

/// Reverse: drop the style of a present `locator_bar_icon`; a style other
/// than the default is a loss.
pub fn drop_style(data: &mut NbtMap, rep: &mut LossReport)
    ensures
        match map_of(old(data)@, "locator_bar_icon"@) {
            Some(icon) => map_of(final(data)@, "locator_bar_icon"@) matches Some(i2)
                && i2@ == icon@.remove("style"@)
                && final(data)@.remove("locator_bar_icon"@) == old(data)@.remove("locator_bar_icon"@)
                && final(data)@.dom() == old(data)@.dom()
                && if icon@.dom().contains("style"@) && str_of(icon@, "style"@) != Some("minecraft:default"@) {
                    one_more_with(old(rep).entries@, final(rep).entries@, VERSION, LossKind::UnsupportedInTarget, Severity::Loss,
            "locator_bar_icon.style is not supported before V4424; dropping non-default style"@)
                } else {
                    final(rep).entries@ == old(rep).entries@
                },
            None => final(data)@ == old(data)@ && final(rep).entries@ == old(rep).entries@,
        },
{
    match data.take_map("locator_bar_icon") {
        Some(mut icon) => {
            let ghost mid = data@;
            let is_default = match icon.get_string("style") {
                Some(s) => crate::text::str_eq(s, "minecraft:default"),
                None => false,
            };
            if is_default {
                icon.take("style");
            } else if icon.has_key("style") {
                report(
                    rep,
                    VERSION,
                    LossKind::UnsupportedInTarget,
                    Severity::Loss,
                    "locator_bar_icon.style is not supported before V4424; dropping non-default style",
                );
                icon.take("style");
            } else {
                proof {
                    assert(icon@ =~= icon@.remove("style"@));
                }
            }
            data.set_map("locator_bar_icon", icon);
            proof {
                lemma_put_back(old(data)@, mid, "locator_bar_icon"@, NbtValue::Compound(icon));
            }
        },
        None => {},
    }
}

/// What this version registers.
pub open spec fn registrations() -> Seq<Registration> {
    seq![
        entry(TypeKey::Entity, VERSION, 0, Action::Convert(Conv::V4424AddDefaultStyle)),
        entry(TypeKey::Entity, VERSION, 0, Action::Revert(Conv::V4424DropStyle)),
    ]
}

/// Register this version's converters.
pub fn register(reg: &mut RegistryBuilder)
    ensures
        final(reg).entries@ == old(reg).entries@ + registrations(),
{
    reg.add(TypeKey::Entity, VERSION, 0, Action::Convert(Conv::V4424AddDefaultStyle));
    reg.add(TypeKey::Entity, VERSION, 0, Action::Revert(Conv::V4424DropStyle));
    proof {
        assert(final(reg).entries@ =~= old(reg).entries@ + registrations());
    }
}

} // verus!
