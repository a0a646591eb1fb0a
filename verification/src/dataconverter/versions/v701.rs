//! V701: a skeleton's `SkeletonType` becomes its id (`WitherSkeleton` for
//! 1, `Stray` for 2).

use vstd::prelude::*;
use crate::nbt::{int_of, is_str, NbtMap, NbtValue};
use super::super::registry::{entry, Action, Registration, RegistryBuilder, TypeKey};
use super::super::dispatch::Conv;

verus! {

/// This version.
pub const VERSION: i32 = 701;

/// The id a skeleton type becomes, if it changes.
pub open spec fn skeleton_id(t: i32) -> Option<Seq<char>> {
    if t == 1 {
        Some("WitherSkeleton"@)
    } else if t == 2 {
        Some("Stray"@)
    } else {
        None
    }
}

/// What [`split_skeleton`] makes of `data_in`.
pub open spec fn split_skeleton_effect(data_in: NbtMap, data_out: NbtMap) -> bool {
    &&& ({
                let t = match int_of(data_in@, "SkeletonType"@) {
                    Some(t) => t,
                    None => 0i32,
                };
                match skeleton_id(t) {
                    Some(id) => data_out@ == data_in@.remove("SkeletonType"@).insert("id"@, data_out@["id"@])
                        && is_str(data_out@["id"@], id),
                    None => data_out@ == data_in@.remove("SkeletonType"@),
                }
            })
}

/// Forward: `SkeletonType` (0 when missing) goes; types 1 and 2 set the id.
pub fn split_skeleton(data: &mut NbtMap)
    ensures
        ({
            let t = match int_of(old(data)@, "SkeletonType"@) {
                Some(t) => t,
                None => 0i32,
            };
            match skeleton_id(t) {
                Some(id) => final(data)@ == old(data)@.remove("SkeletonType"@).insert("id"@, final(data)@["id"@])
                    && is_str(final(data)@["id"@], id),
                None => final(data)@ == old(data)@.remove("SkeletonType"@),
            }
        }),
{
    let skeleton_type = match data.get_i32("SkeletonType") {
        Some(t) => t,
        None => 0,
    };
    data.take("SkeletonType");
    if skeleton_type == 1 {
        data.set_string("id", "WitherSkeleton");
    } else if skeleton_type == 2 {
        data.set_string("id", "Stray");
    }
}

/// Reverse: the id goes back to `Skeleton` with `SkeletonType` `t`
/// (lossless: the id carried the type).
fn merge_skeleton(data: &mut NbtMap, t: i32)
    ensures
        final(data)@ == old(data)@.insert("id"@, final(data)@["id"@]).insert("SkeletonType"@, NbtValue::Int(t)),
        is_str(final(data)@["id"@], "Skeleton"@),
{
    proof {
        reveal_strlit("id");
        reveal_strlit("SkeletonType");
        assert("id"@[0] != "SkeletonType"@[0]);
    }
    data.set_string("id", "Skeleton");
    data.set_i32("SkeletonType", t);
}

/// What [`merge_wither_skeleton`] makes of `data_in`.
pub open spec fn merge_wither_skeleton_effect(data_in: NbtMap, data_out: NbtMap) -> bool {
    &&& data_out@ == data_in@.insert("id"@, data_out@["id"@]).insert("SkeletonType"@, NbtValue::Int(1))
    &&& is_str(data_out@["id"@], "Skeleton"@)
}

/// Reverse, on `WitherSkeleton`.
pub fn merge_wither_skeleton(data: &mut NbtMap)
    ensures
        final(data)@ == old(data)@.insert("id"@, final(data)@["id"@]).insert("SkeletonType"@, NbtValue::Int(1)),
        is_str(final(data)@["id"@], "Skeleton"@),
{
    merge_skeleton(data, 1);
}

/// What [`merge_stray`] makes of `data_in`.
pub open spec fn merge_stray_effect(data_in: NbtMap, data_out: NbtMap) -> bool {
    &&& data_out@ == data_in@.insert("id"@, data_out@["id"@]).insert("SkeletonType"@, NbtValue::Int(2))
    &&& is_str(data_out@["id"@], "Skeleton"@)
}

/// Reverse, on `Stray`.
pub fn merge_stray(data: &mut NbtMap)
    ensures
        final(data)@ == old(data)@.insert("id"@, final(data)@["id"@]).insert("SkeletonType"@, NbtValue::Int(2)),
        is_str(final(data)@["id"@], "Skeleton"@),
{
    merge_skeleton(data, 2);
}

/// What [`restore_skeleton_type`] makes of `data_in`.
pub open spec fn restore_skeleton_type_effect(data_in: NbtMap, data_out: NbtMap) -> bool {
    &&& data_out@ == data_in@.insert("SkeletonType"@, NbtValue::Int(0))
}

/// Reverse, on `Skeleton`: `SkeletonType` 0 is restored.
pub fn restore_skeleton_type(data: &mut NbtMap)
    ensures
        final(data)@ == old(data)@.insert("SkeletonType"@, NbtValue::Int(0)),
{
    data.set_i32("SkeletonType", 0);
}

/// What this version registers.
pub open spec fn registrations() -> Seq<Registration> {
    seq![
        entry(TypeKey::Entity, VERSION, 0, Action::ConvertId("Skeleton", Conv::V701SplitSkeleton)),
        entry(TypeKey::Entity, VERSION, 0, Action::RevertId("WitherSkeleton", Conv::V701MergeWitherSkeleton)),
        entry(TypeKey::Entity, VERSION, 0, Action::RevertId("Stray", Conv::V701MergeStray)),
        entry(TypeKey::Entity, VERSION, 0, Action::RevertId("Skeleton", Conv::V701RestoreSkeletonType)),
    ]
}

/// Register this version's converters.
pub fn register(reg: &mut RegistryBuilder)
    ensures
        final(reg).entries@ == old(reg).entries@ + registrations(),
{
    reg.add(TypeKey::Entity, VERSION, 0, Action::ConvertId("Skeleton", Conv::V701SplitSkeleton));
    reg.add(TypeKey::Entity, VERSION, 0, Action::RevertId("WitherSkeleton", Conv::V701MergeWitherSkeleton));
    reg.add(TypeKey::Entity, VERSION, 0, Action::RevertId("Stray", Conv::V701MergeStray));
    reg.add(TypeKey::Entity, VERSION, 0, Action::RevertId("Skeleton", Conv::V701RestoreSkeletonType));
    proof {
        assert(final(reg).entries@ =~= old(reg).entries@ + registrations());
    }
}

} // verus!
