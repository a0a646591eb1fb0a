//! V4175: the equippable component's `model` becomes `asset_id`, and the
//! scalar `minecraft:custom_model_data` becomes `{floats: [<float>]}`.

use vstd::prelude::*;
use crate::nbt::{is_number, lemma_put_back, list_of, lookup, map_of, reads_f64, renamed, NbtMap, NbtValue};
use crate::float::{f64_to_f32_bits, narrows_to};
use crate::loss::{one_more_with, report, LossEntry, LossKind, LossReport, Severity};
use super::super::registry::{entry, Action, Registration, RegistryBuilder, TypeKey};
use super::super::dispatch::Conv;

verus! {

/// This version.
pub const VERSION: i32 = 4175;

/// The keys this version touches are distinct.
proof fn lemma_keys()
    ensures
        "minecraft:equippable"@ != "minecraft:custom_model_data"@,
{
    reveal_strlit("minecraft:equippable");
    reveal_strlit("minecraft:custom_model_data");
    assert("minecraft:equippable"@[10] != "minecraft:custom_model_data"@[10]);
}

/// The equippable component of `new` is that of `old` with `from` renamed
/// to `to` where it is a compound.
pub open spec fn equippable_renamed(
    old: Map<Seq<char>, NbtValue>,
    new: Map<Seq<char>, NbtValue>,
    from: Seq<char>,
    to: Seq<char>,
) -> bool {
    match lookup(old, "minecraft:equippable"@) {
        Some(NbtValue::Compound(e)) => map_of(new, "minecraft:equippable"@) matches Some(e2) && e2@ == renamed(
            e@,
            from,
            to,
        ),
        other => lookup(new, "minecraft:equippable"@) == other,
    }
}

/// Rename `from` to `to` in the equippable component.
fn rename_in_equippable(data: &mut NbtMap, from: &str, to: &str)
    ensures
        equippable_renamed(old(data)@, final(data)@, from@, to@),
        final(data)@.remove("minecraft:equippable"@) == old(data)@.remove("minecraft:equippable"@),
{
    match data.take_map("minecraft:equippable") {
        Some(mut e) => {
            let ghost mid = data@;
            e.rename_key(from, to);
            data.set_map("minecraft:equippable", e);
            proof {
                lemma_put_back(old(data)@, mid, "minecraft:equippable"@, NbtValue::Compound(e));
            }
        },
        None => {},
    }
}

/// The components after the forward change of the model data: a number
/// becomes `{floats: [<it narrowed to a float>]}`.
pub open spec fn model_data_wrapped(old: Map<Seq<char>, NbtValue>, new: Map<Seq<char>, NbtValue>) -> bool {
    match lookup(old, "minecraft:custom_model_data"@) {
        Some(v) => if is_number(v) {
            match map_of(new, "minecraft:custom_model_data"@) {
                Some(c) => c@.dom() == set!["floats"@] && match list_of(c@, "floats"@) {
                    Some(l) => l.len() == 1 && match l[0] {
                        NbtValue::Float(n) => exists|x: u64| #[trigger] reads_f64(v, x) && narrows_to(x, n),
                        _ => false,
                    },
                    None => false,
                },
                None => false,
            }
        } else {
            lookup(new, "minecraft:custom_model_data"@) == Some(v)
        },
        None => !new.dom().contains("minecraft:custom_model_data"@),
    }
}

/// What [`wrap_model_data`] makes of `data_in`.
pub open spec fn wrap_model_data_effect(data_in: NbtMap, data_out: NbtMap) -> bool {
    &&& equippable_renamed(data_in@, data_out@, "model"@, "asset_id"@)
    &&& model_data_wrapped(data_in@, data_out@)
    &&& data_out@.remove("minecraft:equippable"@).remove("minecraft:custom_model_data"@) == data_in@.remove(
                "minecraft:equippable"@,
            ).remove("minecraft:custom_model_data"@)
}

/// Forward on data components.
pub fn wrap_model_data(data: &mut NbtMap)
    ensures
        equippable_renamed(old(data)@, final(data)@, "model"@, "asset_id"@),
        model_data_wrapped(old(data)@, final(data)@),
        final(data)@.remove("minecraft:equippable"@).remove("minecraft:custom_model_data"@) == old(data)@.remove(
            "minecraft:equippable"@,
        ).remove("minecraft:custom_model_data"@),
{
    proof {
        lemma_keys();
    }
    rename_in_equippable(data, "model", "asset_id");
    let ghost m1 = data@;
    proof {
        assert(m1.remove("minecraft:equippable"@)["minecraft:custom_model_data"@] == m1["minecraft:custom_model_data"@]);
        assert(old(data)@.remove("minecraft:equippable"@)["minecraft:custom_model_data"@] == old(
            data,
        )@["minecraft:custom_model_data"@]);
        assert(m1.dom().contains("minecraft:custom_model_data"@) == old(data)@.dom().contains(
            "minecraft:custom_model_data"@,
        )) by {
            assert(m1.remove("minecraft:equippable"@).dom().contains("minecraft:custom_model_data"@) == m1.dom().contains(
                "minecraft:custom_model_data"@,
            ));
            assert(old(data)@.remove("minecraft:equippable"@).dom().contains("minecraft:custom_model_data"@) == old(
                data,
            )@.dom().contains("minecraft:custom_model_data"@));
        }
        assert(lookup(m1, "minecraft:custom_model_data"@) == lookup(old(data)@, "minecraft:custom_model_data"@));
    }
    match data.get_f64("minecraft:custom_model_data") {
        Some(x) => {
            let mut new_model_data = NbtMap::new();
            let n = f64_to_f32_bits(x);
            let floats = vec![NbtValue::Float(n)];
            new_model_data.set_list("floats", floats);
            proof {
                assert(new_model_data@.dom() =~= set!["floats"@]);
                assert(floats@ =~= seq![NbtValue::Float(n)]);
                assert(reads_f64(old(data)@["minecraft:custom_model_data"@], x));
            }
            data.set_map("minecraft:custom_model_data", new_model_data);
        },
        None => {},
    }
    proof {
        assert(data@.remove("minecraft:equippable"@).remove("minecraft:custom_model_data"@) =~= m1.remove(
            "minecraft:equippable"@,
        ).remove("minecraft:custom_model_data"@));
        assert(m1.remove("minecraft:equippable"@).remove("minecraft:custom_model_data"@) =~= old(data)@.remove(
            "minecraft:equippable"@,
        ).remove("minecraft:custom_model_data"@));
    }
}

/// The number the first element of the model data's floats reads as.
pub open spec fn first_float(c: Map<Seq<char>, NbtValue>) -> Option<NbtValue> {
    match list_of(c, "floats"@) {
        Some(l) => if l.len() > 0 && is_number(l[0]) {
            Some(l[0])
        } else {
            None
        },
        None => None,
    }
}

/// The model data object holds something other than exactly one float.
pub open spec fn model_data_extra(c: Map<Seq<char>, NbtValue>) -> bool {
    (match list_of(c, "floats"@) {
        Some(l) => l.len(),
        None => 0,
    }) != 1 || c.dom().len() != 1
}

/// The components after the reverse change of the model data: the first
/// float becomes the scalar again; `r2` is `r` with one loss where the
/// object held more or less than one float.
pub open spec fn model_data_unwrapped(
    old: Map<Seq<char>, NbtValue>,
    new: Map<Seq<char>, NbtValue>,
    r: Seq<LossEntry>,
    r2: Seq<LossEntry>,
) -> bool {
    match map_of(old, "minecraft:custom_model_data"@) {
        Some(c) => {
            &&& (if model_data_extra(c@) {
                one_more_with(r, r2, VERSION, LossKind::ComponentDropped, Severity::Loss,
                    "custom_model_data object had extra/missing floats or fields; legacy format stores only one scalar custom_model_data value"@)
            } else {
                r2 == r
            })
            &&& match first_float(c@) {
                Some(v) => lookup(new, "minecraft:custom_model_data"@) matches Some(NbtValue::Float(n)) && exists|
                    x: u64,
                | #[trigger] reads_f64(v, x) && narrows_to(x, n),
                None => lookup(new, "minecraft:custom_model_data"@) == lookup(old, "minecraft:custom_model_data"@),
            }
        },
        None => lookup(new, "minecraft:custom_model_data"@) == lookup(old, "minecraft:custom_model_data"@) && r2
            == r,
    }
}

/// What [`unwrap_model_data`] makes of `data_in` and the report `rep_in`.
pub open spec fn unwrap_model_data_effect(data_in: NbtMap, data_out: NbtMap, rep_in: LossReport, rep_out: LossReport) -> bool {
    &&& equippable_renamed(data_in@, data_out@, "asset_id"@, "model"@)
    &&& model_data_unwrapped(data_in@, data_out@, rep_in.entries@, rep_out.entries@)
    &&& data_out@.remove("minecraft:equippable"@).remove("minecraft:custom_model_data"@) == data_in@.remove(
                "minecraft:equippable"@,
            ).remove("minecraft:custom_model_data"@)
}

/// Reverse on data components.
pub fn unwrap_model_data(data: &mut NbtMap, rep: &mut LossReport)
    ensures
        equippable_renamed(old(data)@, final(data)@, "asset_id"@, "model"@),
        model_data_unwrapped(old(data)@, final(data)@, old(rep).entries@, final(rep).entries@),
        final(data)@.remove("minecraft:equippable"@).remove("minecraft:custom_model_data"@) == old(data)@.remove(
            "minecraft:equippable"@,
        ).remove("minecraft:custom_model_data"@),
{
    proof {
        lemma_keys();
    }
    rename_in_equippable(data, "asset_id", "model");
    let ghost m1 = data@;
    proof {
        assert(m1.remove("minecraft:equippable"@)["minecraft:custom_model_data"@] == m1["minecraft:custom_model_data"@]);
        assert(old(data)@.remove("minecraft:equippable"@)["minecraft:custom_model_data"@] == old(
            data,
        )@["minecraft:custom_model_data"@]);
        assert(m1.dom().contains("minecraft:custom_model_data"@) == old(data)@.dom().contains(
            "minecraft:custom_model_data"@,
        )) by {
            assert(m1.remove("minecraft:equippable"@).dom().contains("minecraft:custom_model_data"@) == m1.dom().contains(
                "minecraft:custom_model_data"@,
            ));
            assert(old(data)@.remove("minecraft:equippable"@).dom().contains("minecraft:custom_model_data"@) == old(
                data,
            )@.dom().contains("minecraft:custom_model_data"@));
        }
        assert(lookup(m1, "minecraft:custom_model_data"@) == lookup(old(data)@, "minecraft:custom_model_data"@));
    }
    let scalar: Option<u64> = match data.get_map("minecraft:custom_model_data") {
        Some(model_data) => {
            let (scalar, count) = match model_data.get_list("floats") {
                Some(floats) => {
                    let s = if floats.len() > 0 {
                        crate::nbt::value_as_f64(&floats[0])
                    } else {
                        None
                    };
                    (s, floats.len())
                },
                None => (None, 0),
            };
            if count != 1 || model_data.len() != 1 {
                report(
                    rep,
                    VERSION,
                    LossKind::ComponentDropped,
                    Severity::Loss,
                    "custom_model_data object had extra/missing floats or fields; legacy format stores only one scalar custom_model_data value",
                );
            }
            scalar
        },
        None => None,
    };
    match scalar {
        Some(x) => {
            data.set("minecraft:custom_model_data", NbtValue::Float(f64_to_f32_bits(x)));
        },
        None => {},
    }
    proof {
        assert(data@.remove("minecraft:equippable"@).remove("minecraft:custom_model_data"@) =~= m1.remove(
            "minecraft:equippable"@,
        ).remove("minecraft:custom_model_data"@));
        assert(m1.remove("minecraft:equippable"@).remove("minecraft:custom_model_data"@) =~= old(data)@.remove(
            "minecraft:equippable"@,
        ).remove("minecraft:custom_model_data"@));
    }
}

/// What this version registers.
pub open spec fn registrations() -> Seq<Registration> {
    seq![
        entry(TypeKey::DataComponents, VERSION, 0, Action::Convert(Conv::V4175WrapModelData)),
        entry(TypeKey::DataComponents, VERSION, 0, Action::Revert(Conv::V4175UnwrapModelData)),
    ]
}

/// Register this version's converters.
pub fn register(reg: &mut RegistryBuilder)
    ensures
        final(reg).entries@ == old(reg).entries@ + registrations(),
{
    reg.add(TypeKey::DataComponents, VERSION, 0, Action::Convert(Conv::V4175WrapModelData));
    reg.add(TypeKey::DataComponents, VERSION, 0, Action::Revert(Conv::V4175UnwrapModelData));
    proof {
        assert(final(reg).entries@ =~= old(reg).entries@ + registrations());
    }
}

} // verus!
