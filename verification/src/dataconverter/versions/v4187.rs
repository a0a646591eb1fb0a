//! V4187: the `minecraft:follow_range` attribute base of some mobs gets a
//! new default (villager, bee, allay and llama 48 to 16; piglin brute 16 to
//! 12; warden 16 to 24).

use vstd::prelude::*;
use crate::nbt::{lemma_put_back, lemma_reads_f64_unique, list_of, lookup, str_of, NbtMap, NbtValue};
use crate::float::{f64_eq, f64_equal, nan64};
use crate::loss::{all_said, lemma_all_said_more, lemma_all_said_none, gained, lemma_gained_none, lemma_gained_one_more, report, LossEntry, LossKind, LossReport, Severity};
use crate::text::str_eq;
use super::super::helpers::{correct_namespace_or_null, namespaced_or_null};
use super::super::registry::{entry, Action, Registration, RegistryBuilder, TypeKey};
use super::super::dispatch::Conv;
use super::v4055::{each_compound, list_within};
use super::v4303::read_or_zero;

verus! {

/// This version.
pub const VERSION: i32 = 4187;

/// 48 as binary64 bits.
pub const BASE_48: u64 = 0x4048_0000_0000_0000;

/// 16 as binary64 bits.
pub const BASE_16: u64 = 0x4030_0000_0000_0000;

/// 12 as binary64 bits.
pub const BASE_12: u64 = 0x4028_0000_0000_0000;

/// 24 as binary64 bits.
pub const BASE_24: u64 = 0x4038_0000_0000_0000;

/// `x` is the attribute's `base` read as a double (0 where missing or not
/// a number).
pub open spec fn base_read(m: Map<Seq<char>, NbtValue>, x: u64) -> bool {
    match lookup(m, "base"@) {
        Some(v) => read_or_zero(v, x),
        None => x == 0,
    }
}

/// The attribute's namespaced `id` is `id`.
pub open spec fn attribute_is(m: Map<Seq<char>, NbtValue>, id: Seq<char>) -> bool {
    let raw = match str_of(m, "id"@) {
        Some(s) => s,
        None => ""@,
    };
    (match namespaced_or_null(raw) {
        Some(c) => c,
        None => raw,
    }) == id
}

/// `m2` is attribute `m` with its base rewritten from `from` to `to` (and
/// written back as a double) where it is the attribute `id`.
pub open spec fn base_updated(
    m: Map<Seq<char>, NbtValue>,
    m2: Map<Seq<char>, NbtValue>,
    id: Seq<char>,
    from: u64,
    to: u64,
) -> bool {
    if attribute_is(m, id) {
        exists|x: u64|
            #[trigger] base_read(m, x) && m2 == m.insert(
                "base"@,
                NbtValue::Double(
                    if f64_equal(x, from) {
                        to
                    } else {
                        x
                    },
                ),
            )
    } else {
        m2 == m
    }
}

/// The attribute's base reads as a double equal to `from`.
pub open spec fn base_is(m: Map<Seq<char>, NbtValue>, from: u64) -> bool {
    exists|x: u64| #[trigger] base_read(m, x) && f64_equal(x, from)
}

/// Is the attribute's namespaced id `attribute_id`?
fn is_attribute(m: &NbtMap, attribute_id: &str) -> (b: bool)
    ensures
        b == attribute_is(m@, attribute_id@),
{
    let raw = match m.get_string("id") {
        Some(s) => s,
        None => "",
    };
    match correct_namespace_or_null(raw) {
        Some(c) => str_eq(c.as_str(), attribute_id),
        None => str_eq(raw, attribute_id),
    }
}

/// The attribute's base read as a double.
fn read_base(m: &NbtMap) -> (x: u64)
    ensures
        base_read(m@, x),
{
    match m.get_f64("base") {
        Some(x) => x,
        None => 0,
    }
}

/// Two readings of a base are the same bits, or both NaNs.
proof fn lemma_base_unique(m: Map<Seq<char>, NbtValue>, x: u64, y: u64)
    requires
        base_read(m, x),
        base_read(m, y),
    ensures
        x == y || (nan64(x) && nan64(y)),
{
    match lookup(m, "base"@) {
        Some(v) => {
            if crate::nbt::is_number(v) {
                lemma_reads_f64_unique(v, x, y);
            }
        },
        None => {},
    }
}

/// Rewrite the base of attribute `attribute_id` from `from` to `to`.
pub fn update_attribute_base(data: &mut NbtMap, attribute_id: &str, from: u64, to: u64)
    ensures
        list_within(
            old(data)@,
            final(data)@,
            "attributes"@,
            |l, l2| each_compound(l, l2, |m, m2| base_updated(m, m2, attribute_id@, from, to)),
        ),
{
    match data.take_list("attributes") {
        Some(list) => {
            let ghost mid = data@;
            let ghost l = list@;
            let mut rest = list;
            let mut out: Vec<NbtValue> = Vec::new();
            while rest.len() > 0
                invariant
                    out@.len() + rest@.len() == l.len(),
                    rest@ == l.subrange(out@.len() as int, l.len() as int),
                    forall|i: int|
                        0 <= i < out@.len() ==> match #[trigger] l[i] {
                            NbtValue::Compound(m) => out@[i] matches NbtValue::Compound(m2) && base_updated(
                                m@,
                                m2@,
                                attribute_id@,
                                from,
                                to,
                            ),
                            _ => out@[i] == l[i],
                        },
                decreases rest@.len(),
            {
                let ghost n = out@.len();
                let el = rest.remove(0);
                assert(el == l[n as int]);
                let conv = match el {
                    NbtValue::Compound(mut m) => {
                        if is_attribute(&m, attribute_id) {
                            let base = read_base(&m);
                            let updated = if f64_eq(base, from) {
                                to
                            } else {
                                base
                            };
                            m.set("base", NbtValue::Double(updated));
                        }
                        NbtValue::Compound(m)
                    },
                    other => other,
                };
                out.push(conv);
                assert(rest@ =~= l.subrange(out@.len() as int, l.len() as int));
            }
            data.set_list("attributes", out);
            proof {
                lemma_put_back(old(data)@, mid, "attributes"@, NbtValue::List(out));
            }
        },
        None => {},
    }
}

/// The number of compounds of `l` that are the attribute `id` with a base
/// of `from`.
pub open spec fn restored_count(l: Seq<NbtValue>, id: Seq<char>, from: u64) -> int
    decreases l.len(),
{
    if l.len() == 0 {
        0
    } else {
        restored_count(l.drop_last(), id, from) + (match l.last() {
            NbtValue::Compound(m) => if attribute_is(m@, id) && base_is(m@, from) {
                1int
            } else {
                0
            },
            _ => 0,
        })
    }
}

/// The list relation of the reverse: every attribute `id` whose base is
/// `from` gets `to` back, with one approximation reported for each.
pub open spec fn bases_restored(
    l: Seq<NbtValue>,
    l2: Seq<NbtValue>,
    id: Seq<char>,
    from: u64,
    to: u64,
    message: Seq<char>,
    r: Seq<LossEntry>,
    r2: Seq<LossEntry>,
) -> bool {
    &&& l2.len() == l.len()
    &&& forall|i: int|
        0 <= i < l.len() ==> match #[trigger] l[i] {
            NbtValue::Compound(m) => l2[i] matches NbtValue::Compound(m2) && if attribute_is(m@, id) && base_is(
                m@,
                from,
            ) {
                m2@ == m@.insert("base"@, NbtValue::Double(to))
            } else {
                m2@ == m@
            },
            _ => l2[i] == l[i],
        }
    &&& gained(r, r2, restored_count(l, id, from), VERSION, LossKind::FingerprintCollapse, Severity::Approximated)
    &&& all_said(r, r2, message)
}

/// Give the base of attribute `attribute_id` its old default `to` back
/// where it holds the new default `from`, reporting each such base: it may
/// have been authored so.
pub fn reverse_update_attribute_base(
    data: &mut NbtMap,
    attribute_id: &str,
    from: u64,
    to: u64,
    message: &str,
    rep: &mut LossReport,
)
    requires
        !nan64(from),
    ensures
        list_within(
            old(data)@,
            final(data)@,
            "attributes"@,
            |l, l2| bases_restored(l, l2, attribute_id@, from, to, message@, old(rep).entries@, final(rep).entries@),
        ),
        list_of(old(data)@, "attributes"@) is None ==> final(rep).entries@ == old(rep).entries@,
{
    match data.take_list("attributes") {
        Some(list) => {
            let ghost mid = data@;
            let ghost l = list@;
            let ghost r0 = rep.entries@;
            let mut rest = list;
            let mut out: Vec<NbtValue> = Vec::new();
            proof {
                lemma_gained_none(r0, VERSION, LossKind::FingerprintCollapse, Severity::Approximated);
                lemma_all_said_none(r0, message@);
                assert(l.subrange(0, 0) =~= Seq::<NbtValue>::empty());
            }
            while rest.len() > 0
                invariant
                    !nan64(from),
                    out@.len() + rest@.len() == l.len(),
                    rest@ == l.subrange(out@.len() as int, l.len() as int),
                    forall|i: int|
                        0 <= i < out@.len() ==> match #[trigger] l[i] {
                            NbtValue::Compound(m) => out@[i] matches NbtValue::Compound(m2) && if attribute_is(
                                m@,
                                attribute_id@,
                            ) && base_is(m@, from) {
                                m2@ == m@.insert("base"@, NbtValue::Double(to))
                            } else {
                                m2@ == m@
                            },
                            _ => out@[i] == l[i],
                        },
                    gained(
                        r0,
                        rep.entries@,
                        restored_count(l.subrange(0, out@.len() as int), attribute_id@, from),
                        VERSION,
                        LossKind::FingerprintCollapse,
                        Severity::Approximated,
                    ),
                    all_said(r0, rep.entries@, message@),
                    r0.len() <= rep.entries@.len(),
                decreases rest@.len(),
            {
                let ghost n = out@.len();
                let ghost r1 = rep.entries@;
                let el = rest.remove(0);
                assert(el == l[n as int]);
                let ghost hit = match l[n as int] {
                    NbtValue::Compound(m) => attribute_is(m@, attribute_id@) && base_is(m@, from),
                    _ => false,
                };
                let conv = match el {
                    NbtValue::Compound(mut m) => {
                        let ghost m0 = m@;
                        if is_attribute(&m, attribute_id) {
                            let base = read_base(&m);
                            proof {
                                if base_is(m0, from) {
                                    let y = choose|y: u64| #[trigger] base_read(m0, y) && f64_equal(y, from);
                                    lemma_base_unique(m0, base, y);
                                }
                            }
                            if f64_eq(base, from) {
                                m.set("base", NbtValue::Double(to));
                                report(rep, VERSION, LossKind::FingerprintCollapse, Severity::Approximated, message);
                            }
                        }
                        NbtValue::Compound(m)
                    },
                    other => other,
                };
                proof {
                    let pre = l.subrange(0, n as int);
                    let post = l.subrange(0, n as int + 1);
                    assert(post.drop_last() =~= pre);
                    assert(post.last() == l[n as int]);
                    if hit {
                        lemma_gained_one_more(r0, r1, rep.entries@, restored_count(pre, attribute_id@, from), VERSION, LossKind::FingerprintCollapse, Severity::Approximated);
                        lemma_all_said_more(r0, r1, rep.entries@, message@);
                    }
                }
                out.push(conv);
                assert(rest@ =~= l.subrange(out@.len() as int, l.len() as int));
            }
            proof {
                assert(l.subrange(0, l.len() as int) =~= l);
            }
            data.set_list("attributes", out);
            proof {
                lemma_put_back(old(data)@, mid, "attributes"@, NbtValue::List(out));
            }
        },
        None => {},
    }
}

/// What [`follow_range_48_to_16`] makes of `data_in`.
pub open spec fn follow_range_48_to_16_effect(data_in: NbtMap, data_out: NbtMap) -> bool {
    &&& list_within(
                data_in@,
                data_out@,
                "attributes"@,
                |l, l2| each_compound(l, l2, |m, m2| base_updated(m, m2, "minecraft:follow_range"@, BASE_48, BASE_16)),
            )
}

/// Forward on a villager, bee, allay or llama: follow range 48 becomes 16.
pub fn follow_range_48_to_16(data: &mut NbtMap)
    ensures
        list_within(
            old(data)@,
            final(data)@,
            "attributes"@,
            |l, l2| each_compound(l, l2, |m, m2| base_updated(m, m2, "minecraft:follow_range"@, BASE_48, BASE_16)),
        ),
{
    update_attribute_base(data, "minecraft:follow_range", BASE_48, BASE_16);
}

/// What [`follow_range_16_to_48`] makes of `data_in` and the report `rep_in`.
pub open spec fn follow_range_16_to_48_effect(data_in: NbtMap, data_out: NbtMap, rep_in: LossReport, rep_out: LossReport) -> bool {
    &&& list_within(
                data_in@,
                data_out@,
                "attributes"@,
                |l, l2| bases_restored(l, l2, "minecraft:follow_range"@, BASE_16, BASE_48, "follow_range base 16 may be a modern authored value or a V4187 default rewrite; restored legacy default 48"@, rep_in.entries@, rep_out.entries@),
            )
    &&& list_of(data_in@, "attributes"@) is None ==> rep_out.entries@ == rep_in.entries@
}

/// Reverse on a villager, bee, allay or llama: follow range 16 becomes 48.
pub fn follow_range_16_to_48(data: &mut NbtMap, rep: &mut LossReport)
    ensures
        list_within(
            old(data)@,
            final(data)@,
            "attributes"@,
            |l, l2| bases_restored(l, l2, "minecraft:follow_range"@, BASE_16, BASE_48, "follow_range base 16 may be a modern authored value or a V4187 default rewrite; restored legacy default 48"@, old(rep).entries@, final(rep).entries@),
        ),
        list_of(old(data)@, "attributes"@) is None ==> final(rep).entries@ == old(rep).entries@,
{
    proof {
        crate::float::lemma_fields64(0, 1027, 0);
    }
    reverse_update_attribute_base(
        data,
        "minecraft:follow_range",
        BASE_16,
        BASE_48,
        "follow_range base 16 may be a modern authored value or a V4187 default rewrite; restored legacy default 48",
        rep,
    );
}

/// What [`follow_range_16_to_12`] makes of `data_in`.
pub open spec fn follow_range_16_to_12_effect(data_in: NbtMap, data_out: NbtMap) -> bool {
    &&& list_within(
                data_in@,
                data_out@,
                "attributes"@,
                |l, l2| each_compound(l, l2, |m, m2| base_updated(m, m2, "minecraft:follow_range"@, BASE_16, BASE_12)),
            )
}

/// Forward on a piglin brute: follow range 16 becomes 12.
pub fn follow_range_16_to_12(data: &mut NbtMap)
    ensures
        list_within(
            old(data)@,
            final(data)@,
            "attributes"@,
            |l, l2| each_compound(l, l2, |m, m2| base_updated(m, m2, "minecraft:follow_range"@, BASE_16, BASE_12)),
        ),
{
    update_attribute_base(data, "minecraft:follow_range", BASE_16, BASE_12);
}

/// What [`follow_range_12_to_16`] makes of `data_in` and the report `rep_in`.
pub open spec fn follow_range_12_to_16_effect(data_in: NbtMap, data_out: NbtMap, rep_in: LossReport, rep_out: LossReport) -> bool {
    &&& list_within(
                data_in@,
                data_out@,
                "attributes"@,
                |l, l2| bases_restored(l, l2, "minecraft:follow_range"@, BASE_12, BASE_16, "follow_range base 12 may be a modern authored value or a V4187 default rewrite; restored legacy default 16"@, rep_in.entries@, rep_out.entries@),
            )
    &&& list_of(data_in@, "attributes"@) is None ==> rep_out.entries@ == rep_in.entries@
}

/// Reverse on a piglin brute: follow range 12 becomes 16.
pub fn follow_range_12_to_16(data: &mut NbtMap, rep: &mut LossReport)
    ensures
        list_within(
            old(data)@,
            final(data)@,
            "attributes"@,
            |l, l2| bases_restored(l, l2, "minecraft:follow_range"@, BASE_12, BASE_16, "follow_range base 12 may be a modern authored value or a V4187 default rewrite; restored legacy default 16"@, old(rep).entries@, final(rep).entries@),
        ),
        list_of(old(data)@, "attributes"@) is None ==> final(rep).entries@ == old(rep).entries@,
{
    proof {
        crate::float::lemma_fields64(0, 1026, 0x8_0000_0000_0000);
    }
    reverse_update_attribute_base(
        data,
        "minecraft:follow_range",
        BASE_12,
        BASE_16,
        "follow_range base 12 may be a modern authored value or a V4187 default rewrite; restored legacy default 16",
        rep,
    );
}

/// What [`follow_range_16_to_24`] makes of `data_in`.
pub open spec fn follow_range_16_to_24_effect(data_in: NbtMap, data_out: NbtMap) -> bool {
    &&& list_within(
                data_in@,
                data_out@,
                "attributes"@,
                |l, l2| each_compound(l, l2, |m, m2| base_updated(m, m2, "minecraft:follow_range"@, BASE_16, BASE_24)),
            )
}

/// Forward on a warden: follow range 16 becomes 24.
pub fn follow_range_16_to_24(data: &mut NbtMap)
    ensures
        list_within(
            old(data)@,
            final(data)@,
            "attributes"@,
            |l, l2| each_compound(l, l2, |m, m2| base_updated(m, m2, "minecraft:follow_range"@, BASE_16, BASE_24)),
        ),
{
    update_attribute_base(data, "minecraft:follow_range", BASE_16, BASE_24);
}

/// What [`follow_range_24_to_16`] makes of `data_in` and the report `rep_in`.
pub open spec fn follow_range_24_to_16_effect(data_in: NbtMap, data_out: NbtMap, rep_in: LossReport, rep_out: LossReport) -> bool {
    &&& list_within(
                data_in@,
                data_out@,
                "attributes"@,
                |l, l2| bases_restored(l, l2, "minecraft:follow_range"@, BASE_24, BASE_16, "follow_range base 24 may be a modern authored value or a V4187 default rewrite; restored legacy default 16"@, rep_in.entries@, rep_out.entries@),
            )
    &&& list_of(data_in@, "attributes"@) is None ==> rep_out.entries@ == rep_in.entries@
}

/// Reverse on a warden: follow range 24 becomes 16.
pub fn follow_range_24_to_16(data: &mut NbtMap, rep: &mut LossReport)
    ensures
        list_within(
            old(data)@,
            final(data)@,
            "attributes"@,
            |l, l2| bases_restored(l, l2, "minecraft:follow_range"@, BASE_24, BASE_16, "follow_range base 24 may be a modern authored value or a V4187 default rewrite; restored legacy default 16"@, old(rep).entries@, final(rep).entries@),
        ),
        list_of(old(data)@, "attributes"@) is None ==> final(rep).entries@ == old(rep).entries@,
{
    proof {
        crate::float::lemma_fields64(0, 1027, 0x8_0000_0000_0000);
    }
    reverse_update_attribute_base(
        data,
        "minecraft:follow_range",
        BASE_24,
        BASE_16,
        "follow_range base 24 may be a modern authored value or a V4187 default rewrite; restored legacy default 16",
        rep,
    );
}

/// What this version registers.
pub open spec fn registrations() -> Seq<Registration> {
    seq![
        entry(TypeKey::Entity, VERSION, 0, Action::ConvertId("minecraft:villager", Conv::V4187FollowRange48To16)),
        entry(TypeKey::Entity, VERSION, 0, Action::RevertId("minecraft:villager", Conv::V4187FollowRange16To48)),
        entry(TypeKey::Entity, VERSION, 0, Action::ConvertId("minecraft:bee", Conv::V4187FollowRange48To16)),
        entry(TypeKey::Entity, VERSION, 0, Action::RevertId("minecraft:bee", Conv::V4187FollowRange16To48)),
        entry(TypeKey::Entity, VERSION, 0, Action::ConvertId("minecraft:allay", Conv::V4187FollowRange48To16)),
        entry(TypeKey::Entity, VERSION, 0, Action::RevertId("minecraft:allay", Conv::V4187FollowRange16To48)),
        entry(TypeKey::Entity, VERSION, 0, Action::ConvertId("minecraft:llama", Conv::V4187FollowRange48To16)),
        entry(TypeKey::Entity, VERSION, 0, Action::RevertId("minecraft:llama", Conv::V4187FollowRange16To48)),
        entry(TypeKey::Entity, VERSION, 0, Action::ConvertId("minecraft:piglin_brute", Conv::V4187FollowRange16To12)),
        entry(TypeKey::Entity, VERSION, 0, Action::RevertId("minecraft:piglin_brute", Conv::V4187FollowRange12To16)),
        entry(TypeKey::Entity, VERSION, 0, Action::ConvertId("minecraft:warden", Conv::V4187FollowRange16To24)),
        entry(TypeKey::Entity, VERSION, 0, Action::RevertId("minecraft:warden", Conv::V4187FollowRange24To16)),
    ]
}

/// Register this version's converters.
pub fn register(reg: &mut RegistryBuilder)
    ensures
        final(reg).entries@ == old(reg).entries@ + registrations(),
{
    reg.add(TypeKey::Entity, VERSION, 0, Action::ConvertId("minecraft:villager", Conv::V4187FollowRange48To16));
    reg.add(TypeKey::Entity, VERSION, 0, Action::RevertId("minecraft:villager", Conv::V4187FollowRange16To48));
    reg.add(TypeKey::Entity, VERSION, 0, Action::ConvertId("minecraft:bee", Conv::V4187FollowRange48To16));
    reg.add(TypeKey::Entity, VERSION, 0, Action::RevertId("minecraft:bee", Conv::V4187FollowRange16To48));
    reg.add(TypeKey::Entity, VERSION, 0, Action::ConvertId("minecraft:allay", Conv::V4187FollowRange48To16));
    reg.add(TypeKey::Entity, VERSION, 0, Action::RevertId("minecraft:allay", Conv::V4187FollowRange16To48));
    reg.add(TypeKey::Entity, VERSION, 0, Action::ConvertId("minecraft:llama", Conv::V4187FollowRange48To16));
    reg.add(TypeKey::Entity, VERSION, 0, Action::RevertId("minecraft:llama", Conv::V4187FollowRange16To48));
    reg.add(TypeKey::Entity, VERSION, 0, Action::ConvertId("minecraft:piglin_brute", Conv::V4187FollowRange16To12));
    reg.add(TypeKey::Entity, VERSION, 0, Action::RevertId("minecraft:piglin_brute", Conv::V4187FollowRange12To16));
    reg.add(TypeKey::Entity, VERSION, 0, Action::ConvertId("minecraft:warden", Conv::V4187FollowRange16To24));
    reg.add(TypeKey::Entity, VERSION, 0, Action::RevertId("minecraft:warden", Conv::V4187FollowRange24To16));
    proof {
        assert(final(reg).entries@ =~= old(reg).entries@ + registrations());
    }
}

} // verus!
