//! V4535: the copper golem's numeric `weather_state` becomes a name.

use vstd::prelude::*;
use crate::text::{debug_quoted, push_debug};
use crate::nbt::{long_of, str_of, NbtMap, NbtValue};
use crate::loss::{one_more_with, report_loss, LossKind, LossReport, Severity};
use crate::text::str_eq;
use super::super::registry::{entry, Action, Registration, RegistryBuilder, TypeKey};
use super::super::dispatch::Conv;

verus! {

/// This version.
pub const VERSION: i32 = 4535;

/// The name of a numeric weather state.
pub open spec fn weather_name(n: i64) -> Seq<char> {
    if n == 1 {
        "exposed"@
    } else if n == 2 {
        "weathered"@
    } else if n == 3 {
        "oxidized"@
    } else {
        "unaffected"@
    }
}

/// The number of a named weather state; unknown names are `None`.
pub open spec fn weather_number(s: Seq<char>) -> Option<i32> {
    if s == "exposed"@ {
        Some(1i32)
    } else if s == "weathered"@ {
        Some(2i32)
    } else if s == "oxidized"@ {
        Some(3i32)
    } else if s == "unaffected"@ {
        Some(0i32)
    } else {
        None
    }
}

/// What [`name_weather_state`] makes of `data_in`.
pub open spec fn name_weather_state_effect(data_in: NbtMap, data_out: NbtMap) -> bool {
    &&& data_out@.remove("weather_state"@) == data_in@.remove("weather_state"@)
    &&& data_out@.dom().contains("weather_state"@)
    &&& str_of(data_out@, "weather_state"@) == Some(weather_name(match long_of(data_in@, "weather_state"@) {
                Some(n) => n,
                None => 0i64,
            }))
}

/// Forward: name the numeric `weather_state` (absent or unknown reads as 0).
pub fn name_weather_state(data: &mut NbtMap)
    ensures
        final(data)@.remove("weather_state"@) == old(data)@.remove("weather_state"@),
        final(data)@.dom().contains("weather_state"@),
        str_of(final(data)@, "weather_state"@) == Some(weather_name(match long_of(old(data)@, "weather_state"@) {
            Some(n) => n,
            None => 0i64,
        })),
{
    let n = match data.get_i64("weather_state") {
        Some(n) => n,
        None => 0,
    };
    let state = if n == 1 {
        "exposed"
    } else if n == 2 {
        "weathered"
    } else if n == 3 {
        "oxidized"
    } else {
        "unaffected"
    };
    data.set_string("weather_state", state);
}

/// What [`number_weather_state`] makes of `data_in` and the report `rep_in`.
pub open spec fn number_weather_state_effect(data_in: NbtMap, data_out: NbtMap, rep_in: LossReport, rep_out: LossReport) -> bool {
    &&& data_out@ == data_in@.insert("weather_state"@, NbtValue::Int(match str_of(data_in@, "weather_state"@) {
                Some(s) => match weather_number(s) {
                    Some(k) => k,
                    None => 0i32,
                },
                None => 0i32,
            }))
    &&& match str_of(data_in@, "weather_state"@) {
                Some(s) => if weather_number(s) is None {
                    one_more_with(rep_in.entries@, rep_out.entries@, VERSION, LossKind::UnsupportedInTarget, Severity::Loss,
                    "unknown copper_golem weather_state "@ + debug_quoted(s) + "; restoring legacy unaffected state"@)
                } else {
                    rep_out.entries@ == rep_in.entries@
                },
                None => rep_out.entries@ == rep_in.entries@,
            }
}

/// Reverse: number the named `weather_state`; a name that is not one of the
/// four is a loss and becomes 0, as does a state that is not a string.
pub fn number_weather_state(data: &mut NbtMap, rep: &mut LossReport)
    ensures
        final(data)@ == old(data)@.insert("weather_state"@, NbtValue::Int(match str_of(old(data)@, "weather_state"@) {
            Some(s) => match weather_number(s) {
                Some(k) => k,
                None => 0i32,
            },
            None => 0i32,
        })),
        match str_of(old(data)@, "weather_state"@) {
            Some(s) => if weather_number(s) is None {
                one_more_with(old(rep).entries@, final(rep).entries@, VERSION, LossKind::UnsupportedInTarget, Severity::Loss,
                    "unknown copper_golem weather_state "@ + debug_quoted(s) + "; restoring legacy unaffected state"@)
            } else {
                final(rep).entries@ == old(rep).entries@
            },
            None => final(rep).entries@ == old(rep).entries@,
        },
{
    let k = match data.get_string("weather_state") {
        Some(s) => {
            if str_eq(s, "exposed") {
                1
            } else if str_eq(s, "weathered") {
                2
            } else if str_eq(s, "oxidized") {
                3
            } else if str_eq(s, "unaffected") {
                0
            } else {
                let mut msg = String::from_str("unknown copper_golem weather_state ");
                push_debug(&mut msg, s);
                msg.append("; restoring legacy unaffected state");
                report_loss(rep, VERSION, LossKind::UnsupportedInTarget, Severity::Loss, msg);
                0
            }
        },
        None => 0,
    };
    data.set_i32("weather_state", k);
}

/// What this version registers.
pub open spec fn registrations() -> Seq<Registration> {
    seq![
        entry(TypeKey::Entity, VERSION, 0, Action::ConvertId("minecraft:copper_golem", Conv::V4535NameWeatherState)),
        entry(TypeKey::Entity, VERSION, 0, Action::RevertId("minecraft:copper_golem", Conv::V4535NumberWeatherState)),
    ]
}

/// Register this version's converters.
pub fn register(reg: &mut RegistryBuilder)
    ensures
        final(reg).entries@ == old(reg).entries@ + registrations(),
{
    reg.add(TypeKey::Entity, VERSION, 0, Action::ConvertId("minecraft:copper_golem", Conv::V4535NameWeatherState));
    reg.add(TypeKey::Entity, VERSION, 0, Action::RevertId("minecraft:copper_golem", Conv::V4535NumberWeatherState));
    proof {
        assert(final(reg).entries@ =~= old(reg).entries@ + registrations());
    }
}

} // verus!
