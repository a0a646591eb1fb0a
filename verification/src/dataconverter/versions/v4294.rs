//! V4294: the creaking heart's boolean `active` block property becomes the
//! `creaking_heart_state` property (`awake` or `uprooted`).

use vstd::prelude::*;
use crate::nbt::{lemma_put_back, map_of, str_of, NbtMap, NbtValue};
use crate::loss::{one_more_with, report, LossKind, LossReport, Severity};
use crate::text::str_eq;
use super::super::registry::{entry, Action, Registration, RegistryBuilder, TypeKey};
use super::super::dispatch::Conv;

verus! {

/// This version.
pub const VERSION: i32 = 4294;

/// The state a legacy `active` value becomes.
pub open spec fn state_for(active: Seq<char>) -> Seq<char> {
    if active == "true"@ { "awake"@ } else { "uprooted"@ }
}

/// The legacy `active` value a state becomes.
pub open spec fn active_for(state: Seq<char>) -> Seq<char> {
    if state == "awake"@ { "true"@ } else { "false"@ }
}

/// What [`convert_active`] makes of `data_in`.
pub open spec fn convert_active_effect(data_in: NbtMap, data_out: NbtMap) -> bool {
    &&& ({
                let applies = str_of(data_in@, "Name"@) == Some("minecraft:creaking_heart"@)
                    && map_of(data_in@, "Properties"@) is Some
                    && str_of(map_of(data_in@, "Properties"@).unwrap()@, "active"@) is Some;
                if applies {
                    let p = map_of(data_in@, "Properties"@).unwrap();
                    let a = str_of(p@, "active"@).unwrap();
                    map_of(data_out@, "Properties"@) matches Some(p2)
                        && p2@ == p@.remove("active"@).insert("creaking_heart_state"@, p2@["creaking_heart_state"@])
                        && str_of(p2@, "creaking_heart_state"@) == Some(state_for(a))
                        && data_out@.remove("Properties"@) == data_in@.remove("Properties"@)
                } else {
                    data_out@ == data_in@
                }
            })
}

/// Forward: on a creaking heart with a string `Properties.active`, replace
/// it by `creaking_heart_state`.
pub fn convert_active(data: &mut NbtMap)
    ensures
        ({
            let applies = str_of(old(data)@, "Name"@) == Some("minecraft:creaking_heart"@)
                && map_of(old(data)@, "Properties"@) is Some
                && str_of(map_of(old(data)@, "Properties"@).unwrap()@, "active"@) is Some;
            if applies {
                let p = map_of(old(data)@, "Properties"@).unwrap();
                let a = str_of(p@, "active"@).unwrap();
                map_of(final(data)@, "Properties"@) matches Some(p2)
                    && p2@ == p@.remove("active"@).insert("creaking_heart_state"@, p2@["creaking_heart_state"@])
                    && str_of(p2@, "creaking_heart_state"@) == Some(state_for(a))
                    && final(data)@.remove("Properties"@) == old(data)@.remove("Properties"@)
            } else {
                final(data)@ == old(data)@
            }
        }),
{
    let is_heart = match data.get_string("Name") {
        Some(n) => str_eq(n, "minecraft:creaking_heart"),
        None => false,
    };
    if !is_heart {
        return;
    }
    match data.take_map("Properties") {
        Some(mut p) => {
            let ghost mid = data@;
            let ghost p0 = p@;
            let awake = match p.get_string("active") {
                Some(a) => str_eq(a, "true"),
                None => {
                    data.set_map("Properties", p);
                    proof {
                        lemma_put_back(old(data)@, mid, "Properties"@, NbtValue::Compound(p));
                        assert(old(data)@.insert("Properties"@, NbtValue::Compound(p)) =~= old(data)@);
                    }
                    return;
                },
            };
            p.take("active");
            p.set_string("creaking_heart_state", if awake { "awake" } else { "uprooted" });
            data.set_map("Properties", p);
            proof {
                lemma_put_back(old(data)@, mid, "Properties"@, NbtValue::Compound(p));
            }
        },
        None => {},
    }
}

/// What [`revert_active`] makes of `data_in` and the report `rep_in`.
pub open spec fn revert_active_effect(data_in: NbtMap, data_out: NbtMap, rep_in: LossReport, rep_out: LossReport) -> bool {
    &&& ({
                let applies = str_of(data_in@, "Name"@) == Some("minecraft:creaking_heart"@)
                    && map_of(data_in@, "Properties"@) is Some
                    && str_of(map_of(data_in@, "Properties"@).unwrap()@, "creaking_heart_state"@) is Some;
                if applies {
                    let p = map_of(data_in@, "Properties"@).unwrap();
                    let st = str_of(p@, "creaking_heart_state"@).unwrap();
                    &&& map_of(data_out@, "Properties"@) matches Some(p2)
                        && p2@ == p@.remove("creaking_heart_state"@).insert("active"@, p2@["active"@])
                        && str_of(p2@, "active"@) == Some(active_for(st))
                    &&& data_out@.remove("Properties"@) == data_in@.remove("Properties"@)
                    &&& if st != "awake"@ {
                        one_more_with(rep_in.entries@, rep_out.entries@, VERSION, LossKind::FingerprintCollapse, Severity::Approximated,
                            "creaking_heart_state is not awake; legacy active value collapsed to false preimage"@)
                    } else {
                        rep_out.entries@ == rep_in.entries@
                    }
                } else {
                    data_out@ == data_in@ && rep_out.entries@ == rep_in.entries@
                }
            })
}

/// Reverse: on a creaking heart with a string
/// `Properties.creaking_heart_state`, restore `active`; any state but
/// `awake` collapses to `false`, reported as approximated.
pub fn revert_active(data: &mut NbtMap, rep: &mut LossReport)
    ensures
        ({
            let applies = str_of(old(data)@, "Name"@) == Some("minecraft:creaking_heart"@)
                && map_of(old(data)@, "Properties"@) is Some
                && str_of(map_of(old(data)@, "Properties"@).unwrap()@, "creaking_heart_state"@) is Some;
            if applies {
                let p = map_of(old(data)@, "Properties"@).unwrap();
                let st = str_of(p@, "creaking_heart_state"@).unwrap();
                &&& map_of(final(data)@, "Properties"@) matches Some(p2)
                    && p2@ == p@.remove("creaking_heart_state"@).insert("active"@, p2@["active"@])
                    && str_of(p2@, "active"@) == Some(active_for(st))
                &&& final(data)@.remove("Properties"@) == old(data)@.remove("Properties"@)
                &&& if st != "awake"@ {
                    one_more_with(old(rep).entries@, final(rep).entries@, VERSION, LossKind::FingerprintCollapse, Severity::Approximated,
                        "creaking_heart_state is not awake; legacy active value collapsed to false preimage"@)
                } else {
                    final(rep).entries@ == old(rep).entries@
                }
            } else {
                final(data)@ == old(data)@ && final(rep).entries@ == old(rep).entries@
            }
        }),
{
    let is_heart = match data.get_string("Name") {
        Some(n) => str_eq(n, "minecraft:creaking_heart"),
        None => false,
    };
    if !is_heart {
        return;
    }
    match data.take_map("Properties") {
        Some(mut p) => {
            let ghost mid = data@;
            let awake = match p.get_string("creaking_heart_state") {
                Some(s) => str_eq(s, "awake"),
                None => {
                    data.set_map("Properties", p);
                    proof {
                        lemma_put_back(old(data)@, mid, "Properties"@, NbtValue::Compound(p));
                        assert(old(data)@.insert("Properties"@, NbtValue::Compound(p)) =~= old(data)@);
                    }
                    return;
                },
            };
            p.take("creaking_heart_state");
            if !awake {
                report(
                    rep,
                    VERSION,
                    LossKind::FingerprintCollapse,
                    Severity::Approximated,
                    "creaking_heart_state is not awake; legacy active value collapsed to false preimage",
                );
            }
            p.set_string("active", if awake { "true" } else { "false" });
            data.set_map("Properties", p);
            proof {
                lemma_put_back(old(data)@, mid, "Properties"@, NbtValue::Compound(p));
            }
        },
        None => {},
    }
}

/// What this version registers.
pub open spec fn registrations() -> Seq<Registration> {
    seq![
        entry(TypeKey::BlockState, VERSION, 0, Action::Convert(Conv::V4294ConvertActive)),
        entry(TypeKey::BlockState, VERSION, 0, Action::Revert(Conv::V4294RevertActive)),
    ]
}

/// Register this version's converters.
pub fn register(reg: &mut RegistryBuilder)
    ensures
        final(reg).entries@ == old(reg).entries@ + registrations(),
{
    reg.add(TypeKey::BlockState, VERSION, 0, Action::Convert(Conv::V4294ConvertActive));
    reg.add(TypeKey::BlockState, VERSION, 0, Action::Revert(Conv::V4294RevertActive));
    proof {
        assert(final(reg).entries@ =~= old(reg).entries@ + registrations());
    }
}

} // verus!
