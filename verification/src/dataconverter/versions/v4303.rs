//! V4303: an entity's float `FallDistance` becomes the double
//! `fall_distance`.

use vstd::prelude::*;
use crate::nbt::{is_number, lookup, reads_f64, NbtMap, NbtValue};
use crate::float::{f32_to_f64_bits, f64_eq, f64_to_f32_bits, fits_f32, law_narrow_widen, law_widen_narrow, nan32, narrows_to};
use crate::loss::{one_more_with, report, LossEntry, LossKind, LossReport, Severity};
use super::super::registry::{entry, Action, Registration, RegistryBuilder, TypeKey};
use super::super::dispatch::Conv;

verus! {

/// This version.
pub const VERSION: i32 = 4303;

/// `x` is what reading `v` as a double gives: a number's value, else 0.
pub open spec fn read_or_zero(v: NbtValue, x: u64) -> bool {
    if is_number(v) {
        reads_f64(v, x)
    } else {
        x == 0
    }
}

/// The entity after the forward change: `FallDistance` read as a double
/// and moved to `fall_distance`.
pub open spec fn fall_widened(old: Map<Seq<char>, NbtValue>, new: Map<Seq<char>, NbtValue>) -> bool {
    match lookup(old, "FallDistance"@) {
        Some(v) => {
            &&& new.remove("fall_distance"@) == old.remove("FallDistance"@).remove("fall_distance"@)
            &&& lookup(new, "fall_distance"@) matches Some(NbtValue::Double(x)) && read_or_zero(v, x)
        },
        None => new == old,
    }
}

/// What [`widen_fall_distance`] makes of `data_in`.
pub open spec fn widen_fall_distance_effect(data_in: NbtMap, data_out: NbtMap) -> bool {
    &&& fall_widened(data_in@, data_out@)
}

/// Forward: `FallDistance` becomes the double `fall_distance`.
pub fn widen_fall_distance(data: &mut NbtMap)
    ensures
        fall_widened(old(data)@, final(data)@),
{
    if !data.has_key("FallDistance") {
        return ;
    }
    let fall_distance = match data.get_f64("FallDistance") {
        Some(x) => x,
        None => 0,
    };
    data.take("FallDistance");
    let ghost mid = data@;
    data.set_f64_bits("fall_distance", fall_distance);
    proof {
        assert(data@.remove("fall_distance"@) =~= mid.remove("fall_distance"@));
    }
}

/// The entity after the reverse change: `fall_distance` read as a double,
/// narrowed to a float and moved to `FallDistance`; `r2` is `r` with one
/// approximation where the double does not fit a float.
pub open spec fn fall_narrowed(
    old: Map<Seq<char>, NbtValue>,
    new: Map<Seq<char>, NbtValue>,
    r: Seq<LossEntry>,
    r2: Seq<LossEntry>,
) -> bool {
    match lookup(old, "fall_distance"@) {
        Some(v) => exists|x: u64|
            #[trigger] read_or_zero(v, x) && {
                &&& new.remove("FallDistance"@) == old.remove("fall_distance"@).remove("FallDistance"@)
                &&& lookup(new, "FallDistance"@) matches Some(NbtValue::Float(n)) && narrows_to(x, n)
                &&& if fits_f32(x) {
                    r2 == r
                } else {
                    one_more_with(r, r2, VERSION, LossKind::FingerprintCollapse, Severity::Approximated,
                "fall_distance double cannot be represented exactly as legacy FallDistance float"@)
                }
            },
        None => new == old && r2 == r,
    }
}

/// What [`narrow_fall_distance`] makes of `data_in` and the report `rep_in`.
pub open spec fn narrow_fall_distance_effect(data_in: NbtMap, data_out: NbtMap, rep_in: LossReport, rep_out: LossReport) -> bool {
    &&& fall_narrowed(data_in@, data_out@, rep_in.entries@, rep_out.entries@)
}

/// Reverse: `fall_distance` becomes the float `FallDistance`, reporting a
/// double that a float cannot hold.
pub fn narrow_fall_distance(data: &mut NbtMap, rep: &mut LossReport)
    ensures
        fall_narrowed(old(data)@, final(data)@, old(rep).entries@, final(rep).entries@),
{
    if !data.has_key("fall_distance") {
        return ;
    }
    let fall_distance = match data.get_f64("fall_distance") {
        Some(x) => x,
        None => 0,
    };
    data.take("fall_distance");
    let narrowed = f64_to_f32_bits(fall_distance);
    let back = f32_to_f64_bits(narrowed);
    proof {
        law_narrow_widen(fall_distance, narrowed, back);
    }
    if !f64_eq(back, fall_distance) {
        report(
            rep,
            VERSION,
            LossKind::FingerprintCollapse,
            Severity::Approximated,
            "fall_distance double cannot be represented exactly as legacy FallDistance float",
        );
    }
    let ghost mid = data@;
    data.set_f32_bits("FallDistance", narrowed);
    proof {
        assert(data@.remove("FallDistance"@) =~= mid.remove("FallDistance"@));
        assert(read_or_zero(old(data)@["fall_distance"@], fall_distance));
    }
}

/// A float fall distance widened on the way up and narrowed on the way
/// down comes back as it was, with nothing reported, for any value but a
/// NaN.
pub proof fn law_fall_distance_round_trip(
    old: Map<Seq<char>, NbtValue>,
    mid: Map<Seq<char>, NbtValue>,
    new: Map<Seq<char>, NbtValue>,
    r: Seq<LossEntry>,
    r2: Seq<LossEntry>,
)
    requires
        lookup(old, "FallDistance"@) matches Some(NbtValue::Float(f)) && !nan32(f),
        !old.dom().contains("fall_distance"@),
        fall_widened(old, mid),
        fall_narrowed(mid, new, r, r2),
    ensures
        new == old,
        r2 == r,
{
    let f = old["FallDistance"@]->Float_0;
    let w = mid["fall_distance"@]->Double_0;
    let x = choose|x: u64| #[trigger] read_or_zero(mid["fall_distance"@], x) && {
        &&& new.remove("FallDistance"@) == mid.remove("fall_distance"@).remove("FallDistance"@)
        &&& lookup(new, "FallDistance"@) matches Some(NbtValue::Float(n)) && narrows_to(x, n)
        &&& if fits_f32(x) {
            r2 == r
        } else {
            one_more_with(r, r2, VERSION, LossKind::FingerprintCollapse, Severity::Approximated,
                "fall_distance double cannot be represented exactly as legacy FallDistance float"@)
        }
    };
    assert(x == w);
    let n = new["FallDistance"@]->Float_0;
    law_widen_narrow(f, w, n);
    assert(mid.remove("fall_distance"@) =~= old.remove("FallDistance"@));
    assert(n == f);
    assert(new["FallDistance"@] == old["FallDistance"@]);
    assert(new.remove("FallDistance"@) =~= old.remove("FallDistance"@).remove("FallDistance"@));
    assert(new =~= old) by {
        assert forall|k: Seq<char>| #[trigger] new.dom().contains(k) == old.dom().contains(k) by {
            if k != "FallDistance"@ {
                assert(new.remove("FallDistance"@).dom().contains(k) == new.dom().contains(k));
                assert(old.remove("FallDistance"@).dom().contains(k) == old.dom().contains(k));
            }
        }
        assert forall|k: Seq<char>| #[trigger] new.dom().contains(k) implies new[k] == old[k] by {
            if k != "FallDistance"@ {
                assert(new.remove("FallDistance"@)[k] == new[k]);
                assert(old.remove("FallDistance"@)[k] == old[k]);
            }
        }
    }
}

/// What this version registers.
pub open spec fn registrations() -> Seq<Registration> {
    seq![
        entry(TypeKey::Entity, VERSION, 0, Action::Convert(Conv::V4303WidenFallDistance)),
        entry(TypeKey::Entity, VERSION, 0, Action::Revert(Conv::V4303NarrowFallDistance)),
    ]
}

/// Register this version's converters.
pub fn register(reg: &mut RegistryBuilder)
    ensures
        final(reg).entries@ == old(reg).entries@ + registrations(),
{
    reg.add(TypeKey::Entity, VERSION, 0, Action::Convert(Conv::V4303WidenFallDistance));
    reg.add(TypeKey::Entity, VERSION, 0, Action::Revert(Conv::V4303NarrowFallDistance));
    proof {
        assert(final(reg).entries@ =~= old(reg).entries@ + registrations());
    }
}

} // verus!
