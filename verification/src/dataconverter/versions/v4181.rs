//! V4181: the furnace family's cooking fields are renamed, and the fuel's
//! remaining burn time is duplicated into a new total burn time field.

use vstd::prelude::*;
use crate::nbt::{copy_tag, lookup, renamed, tag_eq, tag_equal, tag_same, NbtMap, NbtValue};
use crate::loss::{one_more_with, report, LossEntry, LossKind, LossReport, Severity};
use super::super::registry::{entry, Action, Registration, RegistryBuilder, TypeKey};
use super::super::dispatch::Conv;

verus! {

/// This version.
pub const VERSION: i32 = 4181;

/// The three renames, old names to new.
pub open spec fn furnace_renamed(m: Map<Seq<char>, NbtValue>) -> Map<Seq<char>, NbtValue> {
    renamed(
        renamed(renamed(m, "CookTime"@, "cooking_time_spent"@), "CookTimeTotal"@, "cooking_total_time"@),
        "BurnTime"@,
        "lit_time_remaining"@,
    )
}

/// The three renames, new names back to old.
pub open spec fn furnace_unrenamed(m: Map<Seq<char>, NbtValue>) -> Map<Seq<char>, NbtValue> {
    renamed(
        renamed(renamed(m, "lit_time_remaining"@, "BurnTime"@), "cooking_total_time"@, "CookTimeTotal"@),
        "cooking_time_spent"@,
        "CookTime"@,
    )
}

/// Forward: `new` is `old` renamed, with `lit_total_time` a copy of the
/// (renamed) `lit_time_remaining` tag where there is one.
pub open spec fn furnace_converted(old: Map<Seq<char>, NbtValue>, new: Map<Seq<char>, NbtValue>) -> bool {
    let r = furnace_renamed(old);
    match lookup(r, "lit_time_remaining"@) {
        Some(v) => new.remove("lit_total_time"@) == r.remove("lit_total_time"@) && new.dom().contains(
            "lit_total_time"@,
        ) && tag_same(v, new["lit_total_time"@]),
        None => new == r,
    }
}

/// Reverse: the total burn time can be dropped without loss only where it
/// equals the remaining burn time.
pub open spec fn burn_times_differ(m: Map<Seq<char>, NbtValue>) -> bool {
    match lookup(m, "lit_total_time"@) {
        Some(total) => match lookup(m, "lit_time_remaining"@) {
            Some(remaining) => !tag_eq(remaining, total),
            None => true,
        },
        None => false,
    }
}

/// What [`convert_furnace`] makes of `data_in`.
pub open spec fn convert_furnace_effect(data_in: NbtMap, data_out: NbtMap) -> bool {
    &&& furnace_converted(data_in@, data_out@)
}

/// Forward on a furnace, smoker or blast furnace.
pub fn convert_furnace(data: &mut NbtMap)
    ensures
        furnace_converted(old(data)@, final(data)@),
{
    data.rename_key("CookTime", "cooking_time_spent");
    data.rename_key("CookTimeTotal", "cooking_total_time");
    data.rename_key("BurnTime", "lit_time_remaining");
    let ghost r = data@;
    let copy = match data.get("lit_time_remaining") {
        Some(v) => Some(copy_tag(v)),
        None => None,
    };
    match copy {
        Some(c) => {
            data.set("lit_total_time", c);
            proof {
                assert(data@.remove("lit_total_time"@) =~= r.remove("lit_total_time"@));
            }
        },
        None => {},
    }
}

/// What [`revert_furnace`] makes of `data_in` and the report `rep_in`.
pub open spec fn revert_furnace_effect(data_in: NbtMap, data_out: NbtMap, rep_in: LossReport, rep_out: LossReport) -> bool {
    &&& data_out@ == furnace_unrenamed(data_in@.remove("lit_total_time"@))
    &&& if burn_times_differ(data_in@) {
                one_more_with(rep_in.entries@, rep_out.entries@, VERSION, LossKind::FingerprintCollapse, Severity::Loss,
                    "furnace lit_total_time differed from lit_time_remaining; legacy BurnTime can store only one value"@)
            } else {
                rep_out.entries@ == rep_in.entries@
            }
}

/// Reverse on a furnace, smoker or blast furnace: drop the total burn time
/// (reporting it where it differed from the remaining one, which is all the
/// old format keeps) and rename the fields back.
pub fn revert_furnace(data: &mut NbtMap, rep: &mut LossReport)
    ensures
        final(data)@ == furnace_unrenamed(old(data)@.remove("lit_total_time"@)),
        if burn_times_differ(old(data)@) {
            one_more_with(old(rep).entries@, final(rep).entries@, VERSION, LossKind::FingerprintCollapse, Severity::Loss,
                "furnace lit_total_time differed from lit_time_remaining; legacy BurnTime can store only one value"@)
        } else {
            final(rep).entries@ == old(rep).entries@
        },
{
    let differs = match data.get("lit_total_time") {
        Some(total) => match data.get("lit_time_remaining") {
            Some(remaining) => !tag_equal(remaining, total),
            None => true,
        },
        None => false,
    };
    if differs {
        report(
            rep,
            VERSION,
            LossKind::FingerprintCollapse,
            Severity::Loss,
            "furnace lit_total_time differed from lit_time_remaining; legacy BurnTime can store only one value",
        );
    }
    data.take("lit_total_time");
    data.rename_key("lit_time_remaining", "BurnTime");
    data.rename_key("cooking_total_time", "CookTimeTotal");
    data.rename_key("cooking_time_spent", "CookTime");
}

/// The furnace family.
pub open spec fn furnace_ids() -> Seq<&'static str> {
    seq!["minecraft:furnace", "minecraft:smoker", "minecraft:blast_furnace"]
}

/// What this version registers.
pub open spec fn registrations() -> Seq<Registration> {
    seq![
        entry(TypeKey::TileEntity, VERSION, 0, Action::ConvertId("minecraft:furnace", Conv::V4181ConvertFurnace)),
        entry(TypeKey::TileEntity, VERSION, 0, Action::RevertId("minecraft:furnace", Conv::V4181RevertFurnace)),
        entry(TypeKey::TileEntity, VERSION, 0, Action::ConvertId("minecraft:smoker", Conv::V4181ConvertFurnace)),
        entry(TypeKey::TileEntity, VERSION, 0, Action::RevertId("minecraft:smoker", Conv::V4181RevertFurnace)),
        entry(TypeKey::TileEntity, VERSION, 0, Action::ConvertId("minecraft:blast_furnace", Conv::V4181ConvertFurnace)),
        entry(TypeKey::TileEntity, VERSION, 0, Action::RevertId("minecraft:blast_furnace", Conv::V4181RevertFurnace)),
    ]
}

/// Register this version's converters.
pub fn register(reg: &mut RegistryBuilder)
    ensures
        final(reg).entries@ == old(reg).entries@ + registrations(),
{
    reg.add(TypeKey::TileEntity, VERSION, 0, Action::ConvertId("minecraft:furnace", Conv::V4181ConvertFurnace));
    reg.add(TypeKey::TileEntity, VERSION, 0, Action::RevertId("minecraft:furnace", Conv::V4181RevertFurnace));
    reg.add(TypeKey::TileEntity, VERSION, 0, Action::ConvertId("minecraft:smoker", Conv::V4181ConvertFurnace));
    reg.add(TypeKey::TileEntity, VERSION, 0, Action::RevertId("minecraft:smoker", Conv::V4181RevertFurnace));
    reg.add(TypeKey::TileEntity, VERSION, 0, Action::ConvertId("minecraft:blast_furnace", Conv::V4181ConvertFurnace));
    reg.add(TypeKey::TileEntity, VERSION, 0, Action::RevertId("minecraft:blast_furnace", Conv::V4181RevertFurnace));
    proof {
        assert(final(reg).entries@ =~= old(reg).entries@ + registrations());
    }
}

/// `v` is a tag whose copy compares equal to it: neither floating nor a
/// container of other tags.
pub open spec fn plain_scalar(v: NbtValue) -> bool {
    !(v is Float || v is Double || v is List || v is Compound)
}

/// A furnace taken up and back down comes back as it was, with nothing
/// reported, where its burn time is a plain (non-floating) tag and none of
/// the new field names was in use before.
pub proof fn law_furnace_round_trip(
    old: Map<Seq<char>, NbtValue>,
    mid: Map<Seq<char>, NbtValue>,
    new: Map<Seq<char>, NbtValue>,
)
    requires
        furnace_converted(old, mid),
        new == furnace_unrenamed(mid.remove("lit_total_time"@)),
        !old.dom().contains("cooking_time_spent"@),
        !old.dom().contains("cooking_total_time"@),
        !old.dom().contains("lit_time_remaining"@),
        !old.dom().contains("lit_total_time"@),
        match lookup(old, "BurnTime"@) {
            Some(v) => plain_scalar(v),
            None => true,
        },
    ensures
        new == old,
        !burn_times_differ(mid),
{
    reveal_strlit("CookTime");
    reveal_strlit("CookTimeTotal");
    reveal_strlit("BurnTime");
    reveal_strlit("cooking_time_spent");
    reveal_strlit("cooking_total_time");
    reveal_strlit("lit_time_remaining");
    reveal_strlit("lit_total_time");
    assert("CookTime"@[0] != "BurnTime"@[0]);
    assert("cooking_time_spent"@[0] != "lit_time_remaining"@[0]);
    assert("cooking_total_time"@[0] != "lit_time_remaining"@[0]);
    assert("cooking_total_time"@[9] != "cooking_time_spent"@[9]);
    assert("lit_total_time"@.len() != "lit_time_remaining"@.len());
    assert("lit_total_time"@.len() != "cooking_time_spent"@.len());
    assert("lit_total_time"@.len() != "BurnTime"@.len());
    assert("CookTime"@.len() != "CookTimeTotal"@.len());
    let r = furnace_renamed(old);
    assert(!r.dom().contains("lit_total_time"@));
    match lookup(r, "lit_time_remaining"@) {
        Some(v) => {
            assert(mid.remove("lit_total_time"@) =~= r);
            assert(old.dom().contains("BurnTime"@));
            assert(v == old["BurnTime"@]);
            assert(tag_same(v, mid["lit_total_time"@]));
            assert(tag_eq(mid["lit_time_remaining"@], mid["lit_total_time"@]));
        },
        None => {
            assert(mid.remove("lit_total_time"@) =~= r);
        },
    }
    assert(furnace_unrenamed(r) =~= old);
}

} // verus!
