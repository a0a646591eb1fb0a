//! V4290: the text component walker descends `extra`, `separator` and the
//! hover event's contents (a text component, an item, or an entity's type
//! and name).

use vstd::prelude::*;
use super::super::registry::{state_pair};
use crate::nbt::{lookup, map_of, str_of, NbtMap, NbtValue};
use crate::loss::LossReport;
use crate::text::str_eq;
use super::super::registry::{entry, report_grows, Action, Registration, Registry, RegistryBuilder, TypeKey, Walker};
use super::super::dispatch::CustomWalker;
use super::super::walker::{convert, convert_list, convert_value, lemma_replaced_at};
use super::super::registry::{at_path_converted, compound_of, list_converted, value_at_path_converted};

verus! {

/// This version.
pub const VERSION: i32 = 4290;

/// What the text component walker makes of a hover event `h`: by its
/// `action`, the shown text, item or entity converted.
pub open spec fn hover_converted(e: Seq<Registration>, h: NbtMap, h2: NbtMap, r0: LossReport, r1: LossReport, from: i32, to: i32, fuel: nat) -> bool
    decreases fuel, 4int, 0int,
{
    match str_of(h@, "action"@) {
        Some(a) => if a == "show_text"@ {
            at_path_converted(e, TypeKey::TextComponent, "contents"@, h, h2, r0, r1, from, to, fuel)
        } else if a == "show_item"@ {
            if lookup(h@, "contents"@) matches Some(NbtValue::String(_)) {
                value_at_path_converted(e, TypeKey::ItemName, "contents"@, h, h2, from, to) && r1 == r0
            } else {
                at_path_converted(e, TypeKey::ItemStack, "contents"@, h, h2, r0, r1, from, to, fuel)
            }
        } else if a == "show_entity"@ {
            exists|hm: NbtMap| #![trigger value_at_path_converted(e, TypeKey::EntityName, "type"@, h, hm, from, to)]
                value_at_path_converted(e, TypeKey::EntityName, "type"@, h, hm, from, to)
                    && at_path_converted(e, TypeKey::TextComponent, "name"@, hm, h2, r0, r1, from, to, fuel)
        } else {
            h2@ == h@ && r1 == r0
        },
        None => h2@ == h@ && r1 == r0,
    }
}

/// What the text component walker makes of a component: `extra` converted
/// as a list of components, `separator` as a component, then the hover
/// event.
pub open spec fn text_walked(e: Seq<Registration>, d0: NbtMap, d1: NbtMap, r0: LossReport, r1: LossReport, from: i32, to: i32, fuel: nat) -> bool
    decreases fuel, 8int, 0int,
{
    exists|da: NbtMap, ra: LossReport, db: NbtMap, rb: LossReport|
        #![trigger state_pair(da, ra), state_pair(db, rb)]
        state_pair(da, ra) == (da, ra) && state_pair(db, rb) == (db, rb) && list_converted(e, TypeKey::TextComponent, "extra"@, d0, da, r0, ra, from, to, fuel)
            && at_path_converted(e, TypeKey::TextComponent, "separator"@, da, db, ra, rb, from, to, fuel)
            && match map_of(db@, "hoverEvent"@) {
                None => d1@ == db@ && r1 == rb,
                Some(h) => exists|h2: NbtMap| #![trigger compound_of(h2)]
                    hover_converted(e, h, h2, rb, r1, from, to, fuel) && d1@ == db@.insert("hoverEvent"@, compound_of(h2)),
            }
}

/// The text component walker: `extra`, `separator`, and the hover event.
pub fn walk_text_component(reg: &Registry, root: &mut NbtMap, from: i32, to: i32, report: &mut LossReport, fuel: u32)
    requires
        fuel > 0,
    ensures
        report_grows(*old(report), *final(report)),
        text_walked(reg.entries@, *old(root), *final(root), *old(report), *final(report), from, to, fuel as nat),
    decreases fuel, 3int,
{
    let ghost e = reg.entries@;
    let ghost r0 = *report;
    convert_list(reg, TypeKey::TextComponent, root, "extra", from, to, report, fuel);
    let ghost r1 = *report;
    let ghost da = *root;
    convert(reg, TypeKey::TextComponent, root, "separator", from, to, report, fuel);
    let ghost r2 = *report;
    let ghost db = *root;
    proof {
        super::super::registry::lemma_report_grows_trans(r0, r1, r2);
        reveal_strlit("show_text");
        reveal_strlit("show_item");
        reveal_strlit("show_entity");
    }
    match root.take_map("hoverEvent") {
        Some(mut hover) => {
            let ghost mid = *root;
            let ghost h0 = hover;
            let action: u8 = match hover.get_string("action") {
                Some(a) => if str_eq(a, "show_text") {
                    1
                } else if str_eq(a, "show_item") {
                    2
                } else if str_eq(a, "show_entity") {
                    3
                } else {
                    0
                },
                None => 0,
            };
            if action == 1 {
                convert(reg, TypeKey::TextComponent, &mut hover, "contents", from, to, report, fuel);
            } else if action == 2 {
                let is_string = match hover.get("contents") {
                    Some(NbtValue::String(_)) => true,
                    _ => false,
                };
                if is_string {
                    convert_value(reg, TypeKey::ItemName, &mut hover, "contents", from, to);
                } else {
                    convert(reg, TypeKey::ItemStack, &mut hover, "contents", from, to, report, fuel);
                }
            } else if action == 3 {
                convert_value(reg, TypeKey::EntityName, &mut hover, "type", from, to);
                let ghost hm = hover;
                convert(reg, TypeKey::TextComponent, &mut hover, "name", from, to, report, fuel);
                proof {
                    assert(value_at_path_converted(e, TypeKey::EntityName, "type"@, h0, hm, from, to));
                }
            }
            proof {
                assert(hover_converted(e, h0, hover, r2, *report, from, to, fuel as nat));
            }
            let ghost h1 = hover;
            root.set_map("hoverEvent", hover);
            proof {
                lemma_replaced_at(db@, mid@, "hoverEvent"@, NbtValue::Compound(h1));
                assert(compound_of(h1) == NbtValue::Compound(h1));
                super::super::registry::lemma_report_grows_trans(r0, r2, *report);
            }
        },
        None => {},
    }
    proof {
        assert(list_converted(e, TypeKey::TextComponent, "extra"@, *old(root), da, r0, r1, from, to, fuel as nat));
        assert(at_path_converted(e, TypeKey::TextComponent, "separator"@, da, db, r1, r2, from, to, fuel as nat));
        assert(state_pair(da, r1) == (da, r1));
        assert(state_pair(db, r2) == (db, r2));
    }
}

/// What this version registers.
pub open spec fn registrations() -> Seq<Registration> {
    seq![entry(TypeKey::TextComponent, VERSION, 1, Action::WalkAll(Walker::Custom(CustomWalker::V4290TextComponent)))]
}

/// Register this version's walker.
pub fn register(reg: &mut RegistryBuilder)
    ensures
        final(reg).entries@ == old(reg).entries@ + registrations(),
{
    reg.add(TypeKey::TextComponent, VERSION, 1, Action::WalkAll(Walker::Custom(CustomWalker::V4290TextComponent)));
    proof {
        assert(final(reg).entries@ =~= old(reg).entries@ + registrations());
    }
}

} // verus!
