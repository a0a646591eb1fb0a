//! V3945: attribute modifiers move from the old `{uuid: int[4], name,
//! amount}` shape to `{id, amount, ...}`, the legacy UUID and name pairs
//! resolving to stable ids; entity attributes lose their capitalised field
//! names and the integer operation becomes a name; a jukebox's playback
//! bookkeeping collapses into one relative tick count.

use vstd::prelude::*;
use crate::text::{digit_char, str_eq};
use crate::nbt::{
    int_of, is_number, is_str, list_of, long_of, long_value, lemma_put_back, lookup, map_of, reads_f64, renamed, str_of, within,
    NbtMap, NbtValue,
};
use super::v4055::{each_compound, list_within};
use crate::float_add::{canonical, canonical_nan, f64_add, f64_sum};
use crate::loss::{
    appended_at, lemma_appended_chain, lemma_appended_none, lemma_appended_one, one_more_with, report, report_loss, LossEntry,
    LossKind, LossReport, Severity,
};
use crate::text::{starts_with, strip_prefix};
use super::v4314::holds_ints;
use super::super::registry::{entry, Action, Registration, RegistryBuilder, TypeKey};
use super::super::dispatch::Conv;

verus! {

/// This version.
pub const VERSION: i32 = 3945;

/// Legacy modifier UUIDs (canonical lowercase text) and the ids they
/// resolve to.
pub open spec fn uuid_ids() -> Seq<(&'static str, &'static str)> {
    seq![
        ("736565d2-e1a7-403d-a3f8-1aeb3e302542", "minecraft:creative_mode_block_range"),
        ("98491ef6-97b1-4584-ae82-71a8cc85cf73", "minecraft:creative_mode_entity_range"),
        ("91aeaa56-376b-4498-935b-2f7f68070635", "minecraft:effect.speed"),
        ("7107de5e-7ce8-4030-940e-514c1f160890", "minecraft:effect.slowness"),
        ("af8b6e3f-3328-4c0a-aa36-5ba2bb9dbef3", "minecraft:effect.haste"),
        ("55fced67-e92a-486e-9800-b47f202c4386", "minecraft:effect.mining_fatigue"),
        ("648d7064-6a60-4f59-8abe-c2c23a6dd7a9", "minecraft:effect.strength"),
        ("c0105bf3-aef8-46b0-9ebc-92943757ccbe", "minecraft:effect.jump_boost"),
        ("22653b89-116e-49dc-9b6b-9971489b5be5", "minecraft:effect.weakness"),
        ("5d6f0ba2-1186-46ac-b896-c61c5cee99cc", "minecraft:effect.health_boost"),
        ("eae29cf0-701e-4ed6-883a-96f798f3dab5", "minecraft:effect.absorption"),
        ("03c3c89d-7037-4b42-869f-b146bcb64d2e", "minecraft:effect.luck"),
        ("cc5af142-2bd2-4215-b636-2605aed11727", "minecraft:effect.unluck"),
        ("6555be74-63b3-41f1-a245-77833b3c2562", "minecraft:evil"),
        ("1eaf83ff-7207-4596-b37a-d7a07b3ec4ce", "minecraft:powder_snow"),
        ("662a6b8d-da3e-4c1c-8813-96ea6097278d", "minecraft:sprinting"),
        ("020e0dfb-87ae-4653-9556-831010e291a0", "minecraft:attacking"),
        ("766bfa64-11f3-11ea-8d71-362b9e155667", "minecraft:baby"),
        ("7e0292f2-9434-48d5-a29f-9583af7df27f", "minecraft:covered"),
        ("9e362924-01de-4ddd-a2b2-d0f7a405a174", "minecraft:suffocating"),
        ("5cd17e52-a79a-43d3-a529-90fde04b181e", "minecraft:drinking"),
        ("b9766b59-9566-4402-bc1f-2ee2a276d836", "minecraft:baby"),
        ("49455a49-7ec5-45ba-b886-3b90b23a1718", "minecraft:attacking"),
        ("845db27c-c624-495f-8c9f-6020a9a58b6b", "minecraft:armor.boots"),
        ("d8499b04-0e66-4726-ab29-64469d734e0d", "minecraft:armor.leggings"),
        ("9f3d476d-c118-4544-8365-64846904b48e", "minecraft:armor.chestplate"),
        ("2ad3f246-fee1-4e67-b886-69fd380bb150", "minecraft:armor.helmet"),
        ("c1c72771-8b8e-ba4a-ace0-81a93c8928b2", "minecraft:armor.body"),
        ("b572ecd2-ac0c-4071-abde-9594af072a37", "minecraft:enchantment.fire_protection"),
        ("40a9968f-5c66-4e2f-b7f4-2ec2f4b3e450", "minecraft:enchantment.blast_protection"),
        ("07a65791-f64d-4e79-86c7-f83932f007ec", "minecraft:enchantment.respiration"),
        ("60b1b7db-fffd-4ad0-817c-d6c6a93d8a45", "minecraft:enchantment.aqua_affinity"),
        ("11dc269a-4476-46c0-aff3-9e17d7eb6801", "minecraft:enchantment.depth_strider"),
        ("87f46a96-686f-4796-b035-22e16ee9e038", "minecraft:enchantment.soul_speed"),
        ("b9716dbd-50df-4080-850e-70347d24e687", "minecraft:enchantment.soul_speed"),
        ("92437d00-c3a7-4f2e-8f6c-1f21585d5dd0", "minecraft:enchantment.swift_sneak"),
        ("5d3d087b-debe-4037-b53e-d84f3ff51f17", "minecraft:enchantment.sweeping_edge"),
        ("3ceb37c0-db62-46b5-bd02-785457b01d96", "minecraft:enchantment.efficiency"),
        ("cb3f55d3-645c-4f38-a497-9c13a33db5cf", "minecraft:base_attack_damage"),
        ("fa233e1c-4180-4865-b01b-bcce9785aca3", "minecraft:base_attack_speed"),
    ]
}

/// Legacy modifier names and the ids they resolve to.
pub open spec fn name_ids() -> Seq<(&'static str, &'static str)> {
    seq![
        ("Random spawn bonus", "minecraft:random_spawn_bonus"),
        ("Random zombie-spawn bonus", "minecraft:zombie_random_spawn_bonus"),
        ("Leader zombie bonus", "minecraft:leader_zombie_bonus"),
        ("Zombie reinforcement callee charge", "minecraft:reinforcement_callee_charge"),
        ("Zombie reinforcement caller charge", "minecraft:reinforcement_caller_charge"),
    ]
}

/// The UUID table.
pub fn uuid_table() -> (t: &'static [(&'static str, &'static str)])
    ensures
        t@ == uuid_ids(),
{
    &[
        ("736565d2-e1a7-403d-a3f8-1aeb3e302542", "minecraft:creative_mode_block_range"),
        ("98491ef6-97b1-4584-ae82-71a8cc85cf73", "minecraft:creative_mode_entity_range"),
        ("91aeaa56-376b-4498-935b-2f7f68070635", "minecraft:effect.speed"),
        ("7107de5e-7ce8-4030-940e-514c1f160890", "minecraft:effect.slowness"),
        ("af8b6e3f-3328-4c0a-aa36-5ba2bb9dbef3", "minecraft:effect.haste"),
        ("55fced67-e92a-486e-9800-b47f202c4386", "minecraft:effect.mining_fatigue"),
        ("648d7064-6a60-4f59-8abe-c2c23a6dd7a9", "minecraft:effect.strength"),
        ("c0105bf3-aef8-46b0-9ebc-92943757ccbe", "minecraft:effect.jump_boost"),
        ("22653b89-116e-49dc-9b6b-9971489b5be5", "minecraft:effect.weakness"),
        ("5d6f0ba2-1186-46ac-b896-c61c5cee99cc", "minecraft:effect.health_boost"),
        ("eae29cf0-701e-4ed6-883a-96f798f3dab5", "minecraft:effect.absorption"),
        ("03c3c89d-7037-4b42-869f-b146bcb64d2e", "minecraft:effect.luck"),
        ("cc5af142-2bd2-4215-b636-2605aed11727", "minecraft:effect.unluck"),
        ("6555be74-63b3-41f1-a245-77833b3c2562", "minecraft:evil"),
        ("1eaf83ff-7207-4596-b37a-d7a07b3ec4ce", "minecraft:powder_snow"),
        ("662a6b8d-da3e-4c1c-8813-96ea6097278d", "minecraft:sprinting"),
        ("020e0dfb-87ae-4653-9556-831010e291a0", "minecraft:attacking"),
        ("766bfa64-11f3-11ea-8d71-362b9e155667", "minecraft:baby"),
        ("7e0292f2-9434-48d5-a29f-9583af7df27f", "minecraft:covered"),
        ("9e362924-01de-4ddd-a2b2-d0f7a405a174", "minecraft:suffocating"),
        ("5cd17e52-a79a-43d3-a529-90fde04b181e", "minecraft:drinking"),
        ("b9766b59-9566-4402-bc1f-2ee2a276d836", "minecraft:baby"),
        ("49455a49-7ec5-45ba-b886-3b90b23a1718", "minecraft:attacking"),
        ("845db27c-c624-495f-8c9f-6020a9a58b6b", "minecraft:armor.boots"),
        ("d8499b04-0e66-4726-ab29-64469d734e0d", "minecraft:armor.leggings"),
        ("9f3d476d-c118-4544-8365-64846904b48e", "minecraft:armor.chestplate"),
        ("2ad3f246-fee1-4e67-b886-69fd380bb150", "minecraft:armor.helmet"),
        ("c1c72771-8b8e-ba4a-ace0-81a93c8928b2", "minecraft:armor.body"),
        ("b572ecd2-ac0c-4071-abde-9594af072a37", "minecraft:enchantment.fire_protection"),
        ("40a9968f-5c66-4e2f-b7f4-2ec2f4b3e450", "minecraft:enchantment.blast_protection"),
        ("07a65791-f64d-4e79-86c7-f83932f007ec", "minecraft:enchantment.respiration"),
        ("60b1b7db-fffd-4ad0-817c-d6c6a93d8a45", "minecraft:enchantment.aqua_affinity"),
        ("11dc269a-4476-46c0-aff3-9e17d7eb6801", "minecraft:enchantment.depth_strider"),
        ("87f46a96-686f-4796-b035-22e16ee9e038", "minecraft:enchantment.soul_speed"),
        ("b9716dbd-50df-4080-850e-70347d24e687", "minecraft:enchantment.soul_speed"),
        ("92437d00-c3a7-4f2e-8f6c-1f21585d5dd0", "minecraft:enchantment.swift_sneak"),
        ("5d3d087b-debe-4037-b53e-d84f3ff51f17", "minecraft:enchantment.sweeping_edge"),
        ("3ceb37c0-db62-46b5-bd02-785457b01d96", "minecraft:enchantment.efficiency"),
        ("cb3f55d3-645c-4f38-a497-9c13a33db5cf", "minecraft:base_attack_damage"),
        ("fa233e1c-4180-4865-b01b-bcce9785aca3", "minecraft:base_attack_speed"),
    ]
}

/// The name table.
pub fn name_table() -> (t: &'static [(&'static str, &'static str)])
    ensures
        t@ == name_ids(),
{
    &[
        ("Random spawn bonus", "minecraft:random_spawn_bonus"),
        ("Random zombie-spawn bonus", "minecraft:zombie_random_spawn_bonus"),
        ("Leader zombie bonus", "minecraft:leader_zombie_bonus"),
        ("Zombie reinforcement callee charge", "minecraft:reinforcement_callee_charge"),
        ("Zombie reinforcement caller charge", "minecraft:reinforcement_caller_charge"),
    ]
}

/// The partner of the first pair of `t` whose first member reads `k`.
pub open spec fn first_by_key(t: Seq<(&'static str, &'static str)>, k: Seq<char>) -> Option<&'static str>
    decreases t.len(),
{
    if t.len() == 0 {
        None
    } else if t[0].0@ == k {
        Some(t[0].1)
    } else {
        first_by_key(t.drop_first(), k)
    }
}

/// The partner of the first pair of `t` whose second member reads `v`.
pub open spec fn first_by_value(t: Seq<(&'static str, &'static str)>, v: Seq<char>) -> Option<&'static str>
    decreases t.len(),
{
    if t.len() == 0 {
        None
    } else if t[0].1@ == v {
        Some(t[0].0)
    } else {
        first_by_value(t.drop_first(), v)
    }
}

/// How many pairs of `t` have second member `v`.
pub open spec fn count_by_value(t: Seq<(&'static str, &'static str)>, v: Seq<char>) -> nat
    decreases t.len(),
{
    if t.len() == 0 {
        0
    } else {
        (if t[0].1@ == v { 1nat } else { 0nat }) + count_by_value(t.drop_first(), v)
    }
}

/// Look `k` up among the first members of `t`.
pub fn lookup_key(t: &[(&'static str, &'static str)], k: &str) -> (r: Option<&'static str>)
    ensures
        r == first_by_key(t@, k@),
{
    let mut i: usize = 0;
    proof {
        assert(t@.skip(0) =~= t@);
    }
    while i < t.len()
        invariant
            i <= t@.len(),
            first_by_key(t@, k@) == first_by_key(t@.skip(i as int), k@),
        decreases t@.len() - i,
    {
        proof {
            assert(t@.skip(i as int)[0] == t@[i as int]);
            assert(t@.skip(i as int).drop_first() =~= t@.skip(i + 1));
        }
        if str_eq(t[i].0, k) {
            return Some(t[i].1);
        }
        i = i + 1;
    }
    None
}

/// Look `v` up among the second members of `t`, with how many pairs have it.
pub fn lookup_value(t: &[(&'static str, &'static str)], v: &str) -> (r: (Option<&'static str>, usize))
    ensures
        r.0 == first_by_value(t@, v@),
        r.1 == count_by_value(t@, v@),
{
    let mut found: Option<&'static str> = None;
    let mut count: usize = 0;
    let mut i: usize = 0;
    proof {
        assert(t@.skip(0) =~= t@);
    }
    while i < t.len()
        invariant
            i <= t@.len(),
            count <= i,
            found is None ==> first_by_value(t@, v@) == first_by_value(t@.skip(i as int), v@),
            found is Some ==> first_by_value(t@, v@) == found,
            count_by_value(t@, v@) == count + count_by_value(t@.skip(i as int), v@),
            (found is None) == (count == 0),
        decreases t@.len() - i,
    {
        proof {
            assert(t@.skip(i as int)[0] == t@[i as int]);
            assert(t@.skip(i as int).drop_first() =~= t@.skip(i + 1));
        }
        if str_eq(t[i].1, v) {
            if found.is_none() {
                found = Some(t[i].0);
            }
            count = count + 1;
        }
        i = i + 1;
    }
    (found, count)
}

/// The legacy integer operation as a name.
pub open spec fn operation_name(op: i32) -> &'static str {
    if op == 0 {
        "add_value"
    } else if op == 1 {
        "add_multiplied_base"
    } else if op == 2 {
        "add_multiplied_total"
    } else {
        "invalid"
    }
}

/// The legacy integer operation as a name.
pub fn operation_str(op: i32) -> (s: &'static str)
    ensures
        s == operation_name(op),
{
    if op == 0 {
        "add_value"
    } else if op == 1 {
        "add_multiplied_base"
    } else if op == 2 {
        "add_multiplied_total"
    } else {
        "invalid"
    }
}

/// The legacy integer of an operation name, where it has one.
pub open spec fn operation_number(op: Seq<char>) -> Option<i32> {
    if op == "add_value"@ {
        Some(0)
    } else if op == "add_multiplied_base"@ {
        Some(1)
    } else if op == "add_multiplied_total"@ {
        Some(2)
    } else {
        None
    }
}

/// The legacy integer of an operation name; one without (`invalid`, or
/// anything unknown) becomes `add_value` (0), reported.
pub fn operation_int(op: &str, rep: &mut LossReport) -> (r: i32)
    ensures
        match operation_number(op@) {
            Some(n) => r == n && final(rep).entries@ == old(rep).entries@,
            None => r == 0 && one_more_with(old(rep).entries@, final(rep).entries@, VERSION, LossKind::Other, Severity::Approximated,
                "unknown attribute modifier operation '"@ + op@ + "' cannot be represented before V3945; used add_value"@),
        },
{
    if str_eq(op, "add_value") {
        0
    } else if str_eq(op, "add_multiplied_base") {
        1
    } else if str_eq(op, "add_multiplied_total") {
        2
    } else {
        let mut message = String::new();
        message.append("unknown attribute modifier operation '");
        message.append(op);
        message.append("' cannot be represented before V3945; used add_value");
        report_loss(rep, VERSION, LossKind::Other, Severity::Approximated, message);
        0
    }
}

/// A lowercase hexadecimal digit.
pub open spec fn hex_digit(d: int) -> char {
    if d < 10 {
        digit_char(d)
    } else if d == 10 {
        'a'
    } else if d == 11 {
        'b'
    } else if d == 12 {
        'c'
    } else if d == 13 {
        'd'
    } else if d == 14 {
        'e'
    } else {
        'f'
    }
}

/// The last `w` lowercase hexadecimal digits of `v`, zero-padded.
pub open spec fn hex_text(v: nat, w: nat) -> Seq<char>
    decreases w,
{
    if w == 0 {
        Seq::empty()
    } else {
        hex_text(v / 16, (w - 1) as nat).push(hex_digit((v % 16) as int))
    }
}

fn hex_str(d: u64) -> (s: &'static str)
    requires
        d < 16,
    ensures
        s@ == seq![hex_digit(d as int)],
{
    let s = if d == 0 { "0" } else if d == 1 { "1" } else if d == 2 { "2" } else if d == 3 { "3" } else if d == 4 { "4" }
    else if d == 5 { "5" } else if d == 6 { "6" } else if d == 7 { "7" } else if d == 8 { "8" } else if d == 9 { "9" }
    else if d == 10 { "a" } else if d == 11 { "b" } else if d == 12 { "c" } else if d == 13 { "d" } else if d == 14 { "e" }
    else { "f" };
    proof {
        reveal_strlit("0");
        reveal_strlit("1");
        reveal_strlit("2");
        reveal_strlit("3");
        reveal_strlit("4");
        reveal_strlit("5");
        reveal_strlit("6");
        reveal_strlit("7");
        reveal_strlit("8");
        reveal_strlit("9");
        reveal_strlit("a");
        reveal_strlit("b");
        reveal_strlit("c");
        reveal_strlit("d");
        reveal_strlit("e");
        reveal_strlit("f");
        assert(s@ =~= seq![hex_digit(d as int)]);
    }
    s
}

/// Append the last `w` hexadecimal digits of `v`.
fn push_hex(out: &mut String, v: u64, w: u64)
    ensures
        final(out)@ == old(out)@ + hex_text(v as nat, w as nat),
    decreases w,
{
    if w == 0 {
        proof {
            assert(old(out)@ + hex_text(v as nat, 0) =~= old(out)@);
        }
        return;
    }
    push_hex(out, v / 16, w - 1);
    let ghost mid = out@;
    out.append(hex_str(v % 16));
    proof {
        assert(out@ =~= old(out)@ + hex_text(v as nat, w as nat));
    }
}

/// `java.util.UUID.toString` of the four words of a legacy `int[4]` UUID:
/// 8-4-4-4-12 lowercase hexadecimal digits.
pub open spec fn uuid_text(w0: u32, w1: u32, w2: u32, w3: u32) -> Seq<char> {
    hex_text(w0 as nat, 8) + seq!['-'] + hex_text(w1 as nat / 65536, 4) + seq!['-'] + hex_text(w1 as nat % 65536, 4)
        + seq!['-'] + hex_text(w2 as nat / 65536, 4) + seq!['-'] + hex_text((w2 as nat % 65536) * 4294967296 + w3 as nat, 12)
}

/// The canonical text of a legacy `int[4]` UUID, or nothing for an array of
/// another length.
pub open spec fn uuid_of_ints(a: Seq<i32>) -> Option<Seq<char>> {
    if a.len() == 4 {
        Some(uuid_text(a[0] as u32, a[1] as u32, a[2] as u32, a[3] as u32))
    } else {
        None
    }
}

/// `makeUUID`: the canonical text of a legacy `int[4]` UUID.
pub fn make_uuid(arr: &[i32]) -> (r: Option<String>)
    ensures
        match r {
            Some(s) => uuid_of_ints(arr@) == Some(s@),
            None => uuid_of_ints(arr@) is None,
        },
{
    if arr.len() != 4 {
        return None;
    }
    let w0 = arr[0] as u32;
    let w1 = arr[1] as u32;
    let w2 = arr[2] as u32;
    let w3 = arr[3] as u32;
    let mut s = String::new();
    push_hex(&mut s, w0 as u64, 8);
    s.append("-");
    push_hex(&mut s, (w1 / 65536) as u64, 4);
    s.append("-");
    push_hex(&mut s, (w1 % 65536) as u64, 4);
    s.append("-");
    push_hex(&mut s, (w2 / 65536) as u64, 4);
    s.append("-");
    push_hex(&mut s, ((w2 % 65536) as u64) * 4294967296 + w3 as u64, 12);
    proof {
        reveal_strlit("-");
        assert(s@ =~= uuid_text(w0, w1, w2, w3));
    }
    Some(s)
}

/// The value of a hexadecimal digit, either case.
pub open spec fn hex_value_of(c: char) -> Option<nat> {
    if '0' <= c && c <= '9' {
        Some((c as int - '0' as int) as nat)
    } else if 'a' <= c && c <= 'f' {
        Some((c as int - 'a' as int + 10) as nat)
    } else if 'A' <= c && c <= 'F' {
        Some((c as int - 'A' as int + 10) as nat)
    } else {
        None
    }
}

/// Every character of `s` is a hexadecimal digit.
pub open spec fn all_hex(s: Seq<char>) -> bool {
    forall|i: int| 0 <= i < s.len() ==> (#[trigger] hex_value_of(s[i])) is Some
}

/// The number the hexadecimal digits of `s` stand for.
pub open spec fn hex_number(s: Seq<char>) -> nat
    decreases s.len(),
{
    if s.len() == 0 {
        0
    } else {
        hex_number(s.drop_last()) * 16 + match hex_value_of(s.last()) {
            Some(d) => d,
            None => 0,
        }
    }
}

/// `s` without its dashes.
pub open spec fn undashed(s: Seq<char>) -> Seq<char>
    decreases s.len(),
{
    if s.len() == 0 {
        s
    } else if s.last() == '-' {
        undashed(s.drop_last())
    } else {
        undashed(s.drop_last()).push(s.last())
    }
}

/// The legacy `int[4]` of a UUID text: its 32 hexadecimal digits (dashes
/// anywhere are ignored) as four 32-bit words; nothing for anything else.
pub open spec fn ints_of_uuid(s: Seq<char>) -> Option<Seq<i32>> {
    let h = undashed(s);
    if h.len() == 32 && all_hex(h) {
        Some(
            seq![
                hex_number(h.subrange(0, 8)) as u32 as i32,
                hex_number(h.subrange(8, 16)) as u32 as i32,
                hex_number(h.subrange(16, 24)) as u32 as i32,
                hex_number(h.subrange(24, 32)) as u32 as i32,
            ],
        )
    } else {
        None
    }
}

fn hex_char_value(c: char) -> (r: Option<u32>)
    ensures
        match hex_value_of(c) {
            Some(d) => r == Some(d as u32),
            None => r is None,
        },
{
    if '0' <= c && c <= '9' {
        Some((c as u32) - ('0' as u32))
    } else if 'a' <= c && c <= 'f' {
        Some((c as u32) - ('a' as u32) + 10)
    } else if 'A' <= c && c <= 'F' {
        Some((c as u32) - ('A' as u32) + 10)
    } else {
        None
    }
}

proof fn lemma_hex_number_bound(s: Seq<char>)
    requires
        all_hex(s),
    ensures
        hex_number(s) < vstd::arithmetic::power::pow(16, s.len()),
    decreases s.len(),
{
    vstd::arithmetic::power::lemma_pow0(16);
    if s.len() > 0 {
        assert(all_hex(s.drop_last())) by {
            assert forall|i: int| 0 <= i < s.drop_last().len() implies (#[trigger] hex_value_of(s.drop_last()[i])) is Some by {
                assert(hex_value_of(s[i]) is Some);
            }
        }
        lemma_hex_number_bound(s.drop_last());
        assert(hex_value_of(s[s.len() - 1]) is Some);
        vstd::arithmetic::power::lemma_pow_adds(16, (s.len() - 1) as nat, 1);
        vstd::arithmetic::power::lemma_pow1(16);
        let d = hex_value_of(s.last())->0;
        assert(d < 16);
        let p = vstd::arithmetic::power::pow(16, (s.len() - 1) as nat);
        assert(hex_number(s.drop_last()) * 16 + d < p * 16) by (nonlinear_arith)
            requires
                hex_number(s.drop_last()) < p,
                d < 16,
        ;
    }
}

/// The value of 8 hexadecimal digits `h[from .. from + 8]`.
fn word_of(h: &Vec<char>, from: usize) -> (r: u32)
    requires
        h@.len() == 32,
        from <= 24,
        all_hex(h@),
    ensures
        r == hex_number(h@.subrange(from as int, from + 8)),
{
    let mut v: u32 = 0;
    let mut i: usize = 0;
    while i < 8
        invariant
            h@.len() == 32,
            from <= 24,
            all_hex(h@),
            i <= 8,
            v == hex_number(h@.subrange(from as int, from + i)),
        decreases 8 - i,
    {
        let c = h[from + i];
        proof {
            assert(hex_value_of(h@[from + i]) is Some);
            let sub = h@.subrange(from as int, from + i);
            assert(all_hex(sub)) by {
                assert forall|j: int| 0 <= j < sub.len() implies (#[trigger] hex_value_of(sub[j])) is Some by {
                    assert(hex_value_of(h@[from + j]) is Some);
                }
            }
            lemma_hex_number_bound(sub);
            vstd::arithmetic::power::lemma_pow_increases(16, i as nat, 7);
            assert(vstd::arithmetic::power::pow(16, 7) == 0x1000_0000) by {
                vstd::arithmetic::power::lemma_pow_adds(16, 1, 6);
                reveal_with_fuel(vstd::arithmetic::power::pow, 8);
            }
        }
        let d = match hex_char_value(c) {
            Some(d) => d,
            None => 0,
        };
        proof {
            let next = h@.subrange(from as int, from + i + 1);
            assert(next.drop_last() =~= h@.subrange(from as int, from + i));
            assert(next.last() == c);
        }
        v = v * 16 + d;
        i = i + 1;
    }
    v
}

/// The legacy `int[4]` of a UUID text (inverse of [`make_uuid`]).
pub fn uuid_string_to_ints(s: &str) -> (r: Option<Vec<i32>>)
    ensures
        match r {
            Some(v) => ints_of_uuid(s@) == Some(v@),
            None => ints_of_uuid(s@) is None,
        },
{
    let n = s.unicode_len();
    let mut h: Vec<char> = Vec::new();
    let mut i: usize = 0;
    proof {
        assert(s@.take(0) =~= Seq::<char>::empty());
    }
    while i < n
        invariant
            n == s@.len(),
            i <= n,
            h@ == undashed(s@.take(i as int)),
        decreases n - i,
    {
        let c = s.get_char(i);
        proof {
            assert(s@.take(i + 1).drop_last() =~= s@.take(i as int));
            assert(s@.take(i + 1).last() == c);
        }
        if c != '-' {
            h.push(c);
        }
        i = i + 1;
    }
    proof {
        assert(s@.take(n as int) =~= s@);
    }
    if h.len() != 32 {
        return None;
    }
    let mut j: usize = 0;
    while j < 32
        invariant
            h@.len() == 32,
            h@ == undashed(s@),
            j <= 32,
            forall|k: int| 0 <= k < j ==> (#[trigger] hex_value_of(h@[k])) is Some,
        decreases 32 - j,
    {
        if hex_char_value(h[j]).is_none() {
            proof {
                assert(hex_value_of(h@[j as int]) is None);
            }
            return None;
        }
        j = j + 1;
    }
    let w0 = word_of(&h, 0);
    let w1 = word_of(&h, 8);
    let w2 = word_of(&h, 16);
    let w3 = word_of(&h, 24);
    let v: Vec<i32> = vec![
        #[verifier::truncate] (w0 as i32),
        #[verifier::truncate] (w1 as i32),
        #[verifier::truncate] (w2 as i32),
        #[verifier::truncate] (w3 as i32),
    ];
    proof {
        assert(all_hex(h@));
        assert(v@ =~= seq![w0 as i32, w1 as i32, w2 as i32, w3 as i32]);
    }
    Some(v)
}

/// The UUID text of a legacy modifier, from its `int[4]` uuid.
pub open spec fn modifier_uuid(m: Map<Seq<char>, NbtValue>) -> Option<Seq<char>> {
    match lookup(m, "uuid"@) {
        Some(NbtValue::IntArray(a)) => uuid_of_ints(a@),
        _ => None,
    }
}

/// The name of a legacy modifier (empty when it has none).
pub open spec fn modifier_name(m: Map<Seq<char>, NbtValue>) -> Seq<char> {
    match str_of(m, "name"@) {
        Some(n) => n,
        None => Seq::empty(),
    }
}

/// How a legacy modifier resolves: `(0, id)` through a known UUID, else
/// `(1, id)` through a known name, else `(2, "minecraft:<uuid>")` (or
/// `minecraft:unknown` without a UUID).
pub open spec fn resolution(m: Map<Seq<char>, NbtValue>) -> (int, Seq<char>) {
    let u = modifier_uuid(m);
    let by_uuid = match u {
        Some(t) => first_by_key(uuid_ids(), t),
        None => None,
    };
    match by_uuid {
        Some(id) => (0, id@),
        None => match first_by_key(name_ids(), modifier_name(m)) {
            Some(id) => (1, id@),
            None => (2, "minecraft:"@ + match u {
                Some(t) => t,
                None => "unknown"@,
            }),
        },
    }
}

/// Resolve a legacy modifier.
fn resolve(m: &NbtMap) -> (r: (u8, String))
    ensures
        r.0 as int == resolution(m@).0,
        r.1@ == resolution(m@).1,
{
    let uuid: Option<String> = match m.get("uuid") {
        Some(NbtValue::IntArray(a)) => make_uuid(a.as_slice()),
        _ => None,
    };
    let name: &str = match m.get_string("name") {
        Some(n) => n,
        None => "",
    };
    proof {
        reveal_strlit("");
        assert(modifier_name(m@) == name@);
        if uuid is Some {
            assert(modifier_uuid(m@) == Some(uuid->0@));
        } else {
            assert(modifier_uuid(m@) is None);
        }
    }
    let by_uuid = match &uuid {
        Some(u) => lookup_key(uuid_table(), u.as_str()),
        None => None,
    };
    match by_uuid {
        Some(id) => (0, id.to_owned()),
        None => match lookup_key(name_table(), name) {
            Some(id) => (1, id.to_owned()),
            None => {
                let mut s = String::new();
                s.append("minecraft:");
                match &uuid {
                    Some(u) => s.append(u.as_str()),
                    None => s.append("unknown"),
                }
                proof {
                    assert(s@ =~= resolution(m@).1);
                }
                (2, s)
            },
        },
    }
}

/// An output slot of the remap: its id, the index of the modifier it was
/// made from, how that one resolved, and the later name-resolved
/// modifiers whose amounts were added into it.
pub type Slot = (Seq<char>, int, int, Seq<int>);

pub open spec fn has_slot(plan: Seq<Slot>, id: Seq<char>) -> bool {
    exists|k: int| 0 <= k < plan.len() && (#[trigger] plan[k]).0 == id
}

pub open spec fn slot_of(plan: Seq<Slot>, id: Seq<char>) -> int {
    choose|k: int| 0 <= k < plan.len() && (#[trigger] plan[k]).0 == id
}

/// The compound of an element (empty for anything else).
pub open spec fn compound_view(v: NbtValue) -> Map<Seq<char>, NbtValue> {
    match v {
        NbtValue::Compound(m) => m@,
        _ => Map::empty(),
    }
}

/// One modifier taken into the remap (`LinkedHashMap` semantics): a
/// UUID-resolved or unknown modifier puts its id in place of any earlier
/// one, keeping the position; a name-resolved one adds its amount into an
/// earlier slot of its id, or opens a slot.
pub open spec fn plan_step(plan: Seq<Slot>, l: Seq<NbtValue>, i: int) -> Seq<Slot> {
    match l[i] {
        NbtValue::Compound(m) => {
            let (kind, id) = resolution(m@);
            if has_slot(plan, id) {
                let k = slot_of(plan, id);
                if kind == 1 {
                    plan.update(k, (plan[k].0, plan[k].1, plan[k].2, plan[k].3.push(i)))
                } else {
                    plan.update(k, (id, i, kind, Seq::empty()))
                }
            } else {
                plan.push((id, i, kind, Seq::empty()))
            }
        },
        _ => plan,
    }
}

/// The slots after the first `n` modifiers.
pub open spec fn plan_upto(l: Seq<NbtValue>, n: int) -> Seq<Slot>
    decreases n,
{
    if n <= 0 {
        Seq::empty()
    } else {
        plan_step(plan_upto(l, n - 1), l, n - 1)
    }
}

/// A modifier's amount read as binary64 bits (`+0` where it has none).
pub open spec fn read_amount(m: Map<Seq<char>, NbtValue>) -> u64 {
    match lookup(m, "amount"@) {
        Some(v) => if is_number(v) {
            canonical(choose|x: u64| reads_f64(v, x))
        } else {
            0
        },
        None => 0,
    }
}

/// `start` with the amounts of the modifiers at `adds` added in, in order.
pub open spec fn amount_total(l: Seq<NbtValue>, start: u64, adds: Seq<int>) -> u64
    decreases adds.len(),
{
    if adds.len() == 0 {
        start
    } else {
        f64_sum(amount_total(l, start, adds.drop_last()), read_amount(compound_view(l[adds.last()])))
    }
}

/// What a slot starts from: its modifier, without `uuid` and `name` unless
/// it resolved to neither.
pub open spec fn slot_base(l: Seq<NbtValue>, s: Slot) -> Map<Seq<char>, NbtValue> {
    if s.2 == 2 {
        compound_view(l[s.1])
    } else {
        compound_view(l[s.1]).remove("uuid"@).remove("name"@)
    }
}

/// `c` is what slot `s` comes out as: its base with the id set, and the
/// amounts of later same-named modifiers added in.
pub open spec fn slot_realized(l: Seq<NbtValue>, s: Slot, c: Map<Seq<char>, NbtValue>) -> bool {
    let base = slot_base(l, s);
    &&& c.dom().contains("id"@)
    &&& is_str(c["id"@], s.0)
    &&& c.remove("id"@).remove("amount"@) == base.remove("id"@).remove("amount"@)
    &&& if s.3.len() == 0 {
        lookup(c, "amount"@) == lookup(base, "amount"@)
    } else {
        lookup(c, "amount"@) == Some(NbtValue::Double(amount_total(l, read_amount(base), s.3)))
    }
}

/// `out` is the remap of the legacy modifiers `l`.
pub open spec fn remapped(l: Seq<NbtValue>, out: Seq<NbtValue>) -> bool {
    let plan = plan_upto(l, l.len() as int);
    &&& out.len() == plan.len()
    &&& forall|j: int| 0 <= j < out.len() ==> (#[trigger] out[j] matches NbtValue::Compound(c) && slot_realized(l, plan[j], c@))
}

/// A modifier's amount read as binary64 bits, NaNs made quiet.
fn amount_of(m: &NbtMap) -> (r: u64)
    ensures
        r == read_amount(m@),
{
    match m.get_f64("amount") {
        Some(x) => {
            proof {
                let v = m@["amount"@];
                let y = choose|y: u64| reads_f64(v, y);
                assert(reads_f64(v, y));
                crate::nbt::lemma_reads_f64_unique(v, x, y);
            }
            canonical_nan(x)
        },
        None => 0,
    }
}

/// The first slot holding `id`.
fn find_slot(ret: &Vec<(String, NbtMap)>, id: &str) -> (r: Option<usize>)
    ensures
        match r {
            Some(k) => k < ret@.len() && ret@[k as int].0@ == id@,
            None => forall|k: int| 0 <= k < ret@.len() ==> (#[trigger] ret@[k]).0@ != id@,
        },
{
    let mut i: usize = 0;
    while i < ret.len()
        invariant
            i <= ret@.len(),
            forall|k: int| 0 <= k < i ==> (#[trigger] ret@[k]).0@ != id@,
        decreases ret@.len() - i,
    {
        if str_eq(ret[i].0.as_str(), id) {
            return Some(i);
        }
        i = i + 1;
    }
    None
}

/// `remapModifiers`: resolve each legacy modifier's UUID or name to its
/// id and collapse the list, keeping first-seen order; same-named
/// modifiers add up their amounts.
pub fn remap_modifiers(list: Vec<NbtValue>) -> (out: Vec<NbtValue>)
    ensures
        remapped(list@, out@),
{
    let ghost l = list@;
    let total = list.len();
    assert(l.len() == total);
    let mut rest = list;
    let mut ret: Vec<(String, NbtMap)> = Vec::new();
    let mut i: usize = 0;
    while rest.len() > 0
        invariant
            l.len() <= usize::MAX,
            i + rest@.len() == l.len(),
            rest@ == l.subrange(i as int, l.len() as int),
            ret@.len() == plan_upto(l, i as int).len(),
            forall|j: int, k: int|
                0 <= j < ret@.len() && 0 <= k < ret@.len() && j != k ==> (#[trigger] ret@[j]).0@ != (#[trigger] ret@[k]).0@,
            forall|j: int|
                0 <= j < ret@.len() ==> (#[trigger] ret@[j]).0@ == plan_upto(l, i as int)[j].0 && slot_realized(
                    l,
                    plan_upto(l, i as int)[j],
                    ret@[j].1@,
                ),
            forall|j: int|
                0 <= j < ret@.len() && (#[trigger] plan_upto(l, i as int)[j]).3.len() > 0 ==> amount_total(
                    l,
                    read_amount(slot_base(l, plan_upto(l, i as int)[j])),
                    plan_upto(l, i as int)[j].3,
                ) == canonical(
                    amount_total(
                        l,
                        read_amount(slot_base(l, plan_upto(l, i as int)[j])),
                        plan_upto(l, i as int)[j].3,
                    ),
                ),
        decreases rest@.len(),
    {
        let ghost plan = plan_upto(l, i as int);
        let ghost old_ret = ret@;
        proof {
            reveal_strlit("id");
            reveal_strlit("amount");
            assert("id"@[0] != "amount"@[0]);
        }
        let el = rest.remove(0);
        proof {
            assert(el == l[i as int]);
            assert(plan_upto(l, i + 1) == plan_step(plan, l, i as int));
        }
        match el {
            NbtValue::Compound(mut m) => {
                let ghost mv = m@;
                let (kind, id) = resolve(&m);
                let found = find_slot(&ret, id.as_str());
                proof {
                    match found {
                        Some(k) => {
                            assert(plan[k as int].0 == id@);
                            assert(has_slot(plan, id@));
                            let c = slot_of(plan, id@);
                            assert(plan[c].0 == id@);
                            assert(ret@[c].0@ == id@);
                            assert(c == k as int);
                        },
                        None => {
                            assert(!has_slot(plan, id@)) by {
                                if has_slot(plan, id@) {
                                    let c = slot_of(plan, id@);
                                    assert(ret@[c].0@ == plan[c].0);
                                }
                            }
                        },
                    }
                }
                if kind == 1 && found.is_some() {
                    let k = found.unwrap();
                    let (key, mut existing) = ret.remove(k);
                    let a0 = amount_of(&existing);
                    let a1 = amount_of(&m);
                    let sum = f64_add(a0, a1);
                    let ghost ex0 = existing@;
                    existing.set_f64_bits("amount", sum);
                    ret.insert(k, (key, existing));
                    proof {
                        let s = plan[k as int];
                        let s2 = (s.0, s.1, s.2, s.3.push(i as int));
                        let base = slot_base(l, s);
                        assert(slot_base(l, s2) == base);
                        assert(ret@ == old_ret.update(k as int, ret@[k as int]));
                        assert(s2.3.drop_last() =~= s.3);
                        assert(a0 == amount_total(l, read_amount(base), s.3)) by {
                            if s.3.len() > 0 {
                                let t = amount_total(l, read_amount(base), s.3);
                                assert(lookup(ex0, "amount"@) == Some(NbtValue::Double(t)));
                                assert(reads_f64(NbtValue::Double(t), t));
                                let y = choose|y: u64| reads_f64(NbtValue::Double(t), y);
                                assert(y == t);
                                assert(t == f64_sum(amount_total(l, read_amount(base), s.3.drop_last()), read_amount(compound_view(l[s.3.last()]))));
                                assert(t == canonical(t));
                            } else {
                                assert(read_amount(ex0) == read_amount(base)) by {
                                    assert(lookup(ex0, "amount"@) == lookup(base, "amount"@));
                                }
                            }
                        }
                        assert(compound_view(l[i as int]) == mv);
                        assert(sum == amount_total(l, read_amount(base), s2.3));
                        assert(ret@[k as int].1@.remove("id"@).remove("amount"@) =~= ex0.remove("id"@).remove("amount"@));
                        assert(slot_realized(l, s2, ret@[k as int].1@));
                        assert(plan_upto(l, i + 1) == plan.update(k as int, s2));
                    }
                } else {
                    if kind != 2 {
                        m.take("uuid");
                        m.take("name");
                    }
                    let ghost mid = m@;
                    m.set_string("id", id.as_str());
                    let ghost s2: Slot = (id@, i as int, kind as int, Seq::empty());
                    proof {
                        assert(compound_view(l[i as int]) == mv);
                        assert(slot_base(l, s2) == mid);
                        assert(m@.remove("id"@).remove("amount"@) =~= mid.remove("id"@).remove("amount"@));
                        assert(lookup(m@, "amount"@) == lookup(mid, "amount"@));
                        assert(slot_realized(l, s2, m@));
                    }
                    match found {
                        Some(k) => {
                            ret.remove(k);
                            ret.insert(k, (id, m));
                            proof {
                                assert(plan_upto(l, i + 1) == plan.update(k as int, s2));
                                assert(ret@ == old_ret.update(k as int, ret@[k as int]));
                            }
                        },
                        None => {
                            ret.push((id, m));
                            proof {
                                assert(plan_upto(l, i + 1) == plan.push(s2));
                            }
                        },
                    }
                }
            },
            _ => {
                proof {
                    assert(plan_upto(l, i + 1) == plan);
                }
            },
        }
        i = i + 1;
        proof {
            assert(rest@ =~= l.subrange(i as int, l.len() as int));
        }
    }
    let mut out: Vec<NbtValue> = Vec::new();
    let ghost plan = plan_upto(l, l.len() as int);
    let ghost r0 = ret@;
    let mut rest2 = ret;
    while rest2.len() > 0
        invariant
            out@.len() + rest2@.len() == r0.len(),
            rest2@ == r0.subrange(out@.len() as int, r0.len() as int),
            r0.len() == plan.len(),
            forall|j: int| 0 <= j < r0.len() ==> slot_realized(l, plan[j], (#[trigger] r0[j]).1@),
            forall|j: int|
                0 <= j < out@.len() ==> (#[trigger] out@[j] matches NbtValue::Compound(c) && slot_realized(l, plan[j], c@)),
        decreases rest2@.len(),
    {
        let ghost n = out@.len();
        let (_, mm) = rest2.remove(0);
        proof {
            assert(mm == r0[n as int].1);
        }
        out.push(NbtValue::Compound(mm));
        proof {
            assert(rest2@ =~= r0.subrange(out@.len() as int, r0.len() as int));
        }
    }
    proof {
        assert(i == l.len());
    }
    out
}

/// Forward on one legacy modifier: the capitalised fields renamed, the
/// integer operation (0 where absent) written as its name.
pub open spec fn modifier_normalized(m: Map<Seq<char>, NbtValue>, m2: Map<Seq<char>, NbtValue>) -> bool {
    let r = renamed(renamed(renamed(m, "UUID"@, "uuid"@), "Name"@, "name"@), "Amount"@, "amount"@);
    let op = match int_of(r, "Operation"@) {
        Some(x) => x,
        None => 0,
    };
    &&& m2.dom().contains("operation"@)
    &&& is_str(m2["operation"@], operation_name(op)@)
    &&& m2.remove("operation"@) == r.remove("Operation"@).remove("operation"@)
}

fn normalize_modifier(m: &mut NbtMap)
    ensures
        modifier_normalized(old(m)@, final(m)@),
{
    m.rename_key("UUID", "uuid");
    m.rename_key("Name", "name");
    m.rename_key("Amount", "amount");
    let op = match m.get_i32("Operation") {
        Some(x) => x,
        None => 0,
    };
    m.take("Operation");
    let ghost mid = m@;
    m.set_string("operation", operation_str(op));
    proof {
        assert(m@.remove("operation"@) =~= mid.remove("operation"@));
    }
}

/// Each compound of `l` normalized in `norm`, everything else kept.
pub open spec fn all_normalized(l: Seq<NbtValue>, norm: Seq<NbtValue>) -> bool {
    each_compound(l, norm, |x, y| modifier_normalized(x, y))
}

/// `ml2` is the modifier list `ml` normalized, then remapped.
pub open spec fn normalized_and_remapped(ml: Seq<NbtValue>, ml2: Seq<NbtValue>) -> bool {
    exists|norm: Seq<NbtValue>| #[trigger] all_normalized(ml, norm) && remapped(norm, ml2)
}

/// Forward on one attribute: its fields renamed, and where it has a
/// modifier list, each modifier normalized and the list remapped.
pub open spec fn attribute_converted(a: Map<Seq<char>, NbtValue>, a2: Map<Seq<char>, NbtValue>) -> bool {
    let r = renamed(renamed(renamed(a, "Name"@, "id"@), "Base"@, "base"@), "Modifiers"@, "modifiers"@);
    match list_of(r, "modifiers"@) {
        Some(ml) => list_of(a2, "modifiers"@) matches Some(ml2) && a2.remove("modifiers"@) == r.remove("modifiers"@)
            && a2.dom() == r.dom() && normalized_and_remapped(ml, ml2),
        None => a2 == r,
    }
}

fn convert_attribute(a: &mut NbtMap)
    ensures
        attribute_converted(old(a)@, final(a)@),
{
    a.rename_key("Name", "id");
    a.rename_key("Base", "base");
    a.rename_key("Modifiers", "modifiers");
    let ghost r = a@;
    match a.take_list("modifiers") {
        Some(list) => {
            let ghost mid = a@;
            let ghost l = list@;
            let mut rest = list;
            let mut norm: Vec<NbtValue> = Vec::new();
            while rest.len() > 0
                invariant
                    norm@.len() + rest@.len() == l.len(),
                    rest@ == l.subrange(norm@.len() as int, l.len() as int),
                    forall|i: int|
                        0 <= i < norm@.len() ==> match #[trigger] l[i] {
                            NbtValue::Compound(m) => norm@[i] matches NbtValue::Compound(m2) && modifier_normalized(m@, m2@),
                            _ => norm@[i] == l[i],
                        },
                decreases rest@.len(),
            {
                let ghost n = norm@.len();
                let el = rest.remove(0);
                assert(el == l[n as int]);
                let conv = match el {
                    NbtValue::Compound(mut m) => {
                        normalize_modifier(&mut m);
                        NbtValue::Compound(m)
                    },
                    other => other,
                };
                norm.push(conv);
                assert(rest@ =~= l.subrange(norm@.len() as int, l.len() as int));
            }
            let ghost nv = norm@;
            let out = remap_modifiers(norm);
            a.set_list("modifiers", out);
            proof {
                lemma_put_back(r, mid, "modifiers"@, NbtValue::List(out));
                assert(normalized_and_remapped(l, out@)) by {
                    assert(all_normalized(l, nv) && remapped(nv, out@));
                }
            }
        },
        None => {},
    }
}

/// What [`convert_entity_attributes`] makes of `data_in`.
pub open spec fn convert_entity_attributes_effect(data_in: NbtMap, data_out: NbtMap) -> bool {
    &&& list_within(
                renamed(data_in@, "Attributes"@, "attributes"@),
                data_out@,
                "attributes"@,
                |l, l2| each_compound(l, l2, |a, a2| attribute_converted(a, a2)),
            )
}

/// Forward on an entity: `Attributes` becomes `attributes` and each
/// attribute is converted.
pub fn convert_entity_attributes(data: &mut NbtMap)
    ensures
        list_within(
            renamed(old(data)@, "Attributes"@, "attributes"@),
            final(data)@,
            "attributes"@,
            |l, l2| each_compound(l, l2, |a, a2| attribute_converted(a, a2)),
        ),
{
    data.rename_key("Attributes", "attributes");
    let ghost r = data@;
    match data.take_list("attributes") {
        Some(list) => {
            let ghost mid = data@;
            let ghost l = list@;
            let mut rest = list;
            let mut out: Vec<NbtValue> = Vec::new();
            while rest.len() > 0
                invariant
                    out@.len() + rest@.len() == l.len(),
                    rest@ == l.subrange(out@.len() as int, l.len() as int),
                    forall|i: int|
                        0 <= i < out@.len() ==> match #[trigger] l[i] {
                            NbtValue::Compound(m) => out@[i] matches NbtValue::Compound(m2) && attribute_converted(m@, m2@),
                            _ => out@[i] == l[i],
                        },
                decreases rest@.len(),
            {
                let ghost n = out@.len();
                let el = rest.remove(0);
                assert(el == l[n as int]);
                let conv = match el {
                    NbtValue::Compound(mut m) => {
                        convert_attribute(&mut m);
                        NbtValue::Compound(m)
                    },
                    other => other,
                };
                out.push(conv);
                assert(rest@ =~= l.subrange(out@.len() as int, l.len() as int));
            }
            data.set_list("attributes", out);
            proof {
                lemma_put_back(r, mid, "attributes"@, NbtValue::List(out));
            }
        },
        None => {},
    }
}

/// What [`convert_item_modifiers`] makes of `data_in`.
pub open spec fn convert_item_modifiers_effect(data_in: NbtMap, data_out: NbtMap) -> bool {
    &&& within(
                data_in@,
                data_out@,
                "components"@,
                |c, c2| within(c, c2, "minecraft:attribute_modifiers"@, |a, a2| list_within(a, a2, "modifiers"@, |l, l2| remapped(l, l2))),
            )
}

/// Forward on an item stack: the attribute modifiers component's list is
/// remapped.
pub fn convert_item_modifiers(data: &mut NbtMap)
    ensures
        within(
            old(data)@,
            final(data)@,
            "components"@,
            |c, c2| within(c, c2, "minecraft:attribute_modifiers"@, |a, a2| list_within(a, a2, "modifiers"@, |l, l2| remapped(l, l2))),
        ),
{
    match data.take_map("components") {
        Some(mut c) => {
            let ghost mid = data@;
            let ghost c0 = c@;
            match c.take_map("minecraft:attribute_modifiers") {
                Some(mut a) => {
                    let ghost cmid = c@;
                    let ghost a0 = a@;
                    match a.take_list("modifiers") {
                        Some(list) => {
                            let ghost amid = a@;
                            let out = remap_modifiers(list);
                            a.set_list("modifiers", out);
                            proof {
                                lemma_put_back(a0, amid, "modifiers"@, NbtValue::List(out));
                            }
                        },
                        None => {},
                    }
                    c.set_map("minecraft:attribute_modifiers", a);
                    proof {
                        lemma_put_back(c0, cmid, "minecraft:attribute_modifiers"@, NbtValue::Compound(a));
                    }
                },
                None => {},
            }
            data.set_map("components", c);
            proof {
                lemma_put_back(old(data)@, mid, "components"@, NbtValue::Compound(c));
            }
        },
        None => {},
    }
}

/// The integral reading of `k`, or 0.
pub open spec fn long_or_zero(m: Map<Seq<char>, NbtValue>, k: Seq<char>) -> i64 {
    match long_of(m, k) {
        Some(x) => x,
        None => 0,
    }
}

/// Forward on a jukebox: `IsPlaying`, `TickCount` and `RecordStartTick`
/// collapse into `ticks_since_song_started` (their difference, kept only
/// when positive; the difference wraps as 64-bit arithmetic does).
pub open spec fn jukebox_collapsed(old: Map<Seq<char>, NbtValue>, new: Map<Seq<char>, NbtValue>) -> bool {
    let playing_for = vstd::wrapping::i64_specs::wrapping_sub(
        long_or_zero(old, "TickCount"@),
        long_or_zero(old, "RecordStartTick"@),
    );
    let base = old.remove("IsPlaying"@).remove("TickCount"@).remove("RecordStartTick"@);
    if playing_for > 0 {
        new == base.insert("ticks_since_song_started"@, NbtValue::Long(playing_for))
    } else {
        new == base
    }
}

/// What [`collapse_jukebox`] makes of `data_in`.
pub open spec fn collapse_jukebox_effect(data_in: NbtMap, data_out: NbtMap) -> bool {
    &&& jukebox_collapsed(data_in@, data_out@)
}

pub fn collapse_jukebox(data: &mut NbtMap)
    ensures
        jukebox_collapsed(old(data)@, final(data)@),
{
    let tick = match data.get_i64("TickCount") {
        Some(x) => x,
        None => 0,
    };
    let start = match data.get_i64("RecordStartTick") {
        Some(x) => x,
        None => 0,
    };
    let playing_for = tick.wrapping_sub(start);
    data.take("IsPlaying");
    data.take("TickCount");
    data.take("RecordStartTick");
    if playing_for > 0 {
        data.set_i64("ticks_since_song_started", playing_for);
    }
}

/// Reverse on one modifier's id: a UUID-resolved id becomes its canonical
/// legacy `int[4]` uuid (the name was dropped going up), a name-resolved id
/// its name, and an unknown `minecraft:<uuid>` id gives its uuid back when
/// the modifier lost it.
pub open spec fn unremapped(m: Map<Seq<char>, NbtValue>, m2: Map<Seq<char>, NbtValue>) -> bool {
    match str_of(m, "id"@) {
        None => m2 == m,
        Some(id) => match first_by_value(uuid_ids(), id) {
            Some(uuid) => {
                let base = m.remove("id"@);
                match ints_of_uuid(uuid@) {
                    Some(w) => m2.remove("uuid"@) == base.remove("uuid"@) && holds_ints(m2, "uuid"@, w),
                    None => m2 == base,
                }
            },
            None => match first_by_value(name_ids(), id) {
                Some(name) => m2.dom().contains("name"@) && is_str(m2["name"@], name@) && m2.remove("name"@) == m.remove(
                    "id"@,
                ).remove("name"@),
                None => if starts_with(id, "minecraft:"@) {
                    let rest = id.subrange(10, id.len() as int);
                    let base = m.remove("id"@);
                    let has_ints = lookup(m, "uuid"@) matches Some(NbtValue::IntArray(_));
                    if !has_ints && rest != "unknown"@ && ints_of_uuid(rest) is Some {
                        m2.remove("uuid"@) == base.remove("uuid"@) && holds_ints(m2, "uuid"@, ints_of_uuid(rest)->0)
                    } else {
                        m2 == base
                    }
                } else {
                    m2 == m
                },
            },
        },
    }
}

/// What undoing a modifier's id reports: a dropped name (and, for ids
/// that several UUIDs resolved to, the choice of the first), or a lost uuid
/// and merge for a name-resolved id.
pub open spec fn unremap_tags(m: Map<Seq<char>, NbtValue>) -> Seq<(LossKind, Severity, Seq<char>)> {
    match str_of(m, "id"@) {
        None => Seq::empty(),
        Some(id) => if first_by_value(uuid_ids(), id) is Some {
            if count_by_value(uuid_ids(), id) > 1 {
                seq![(LossKind::RenameAmbiguous, Severity::Loss, "attribute modifier name dropped when id was resolved from uuid; cannot restore"@), (LossKind::FingerprintCollapse, Severity::Approximated, "attribute modifier id had multiple legacy uuid preimages; chose canonical one"@)]
            } else {
                seq![(LossKind::RenameAmbiguous, Severity::Loss, "attribute modifier name dropped when id was resolved from uuid; cannot restore"@)]
            }
        } else if first_by_value(name_ids(), id) is Some {
            seq![(LossKind::FingerprintCollapse, Severity::Loss, "name-resolved attribute modifier lost its uuid and any duplicate-merge split"@)]
        } else {
            Seq::empty()
        },
    }
}

/// Reverse of the remap for one modifier, in place.
pub fn unremap_modifier(m: &mut NbtMap, rep: &mut LossReport)
    ensures
        unremapped(old(m)@, final(m)@),
        appended_at(old(rep).entries@, final(rep).entries@, VERSION, unremap_tags(old(m)@)),
{
    let ghost m0 = m@;
    let ghost r0 = rep.entries@;
    let id: String = match m.get_string("id") {
        Some(s) => s.to_owned(),
        None => {
            proof {
                lemma_appended_none(r0, VERSION);
            }
            return;
        },
    };
    let (uuid, count) = lookup_value(uuid_table(), id.as_str());
    match uuid {
        Some(u) => {
            m.take("id");
            let ghost base = m@;
            match uuid_string_to_ints(u) {
                Some(arr) => {
                    m.set("uuid", NbtValue::IntArray(arr));
                    proof {
                        assert(m@.remove("uuid"@) =~= base.remove("uuid"@));
                    }
                },
                None => {},
            }
            report(
                rep,
                VERSION,
                LossKind::RenameAmbiguous,
                Severity::Loss,
                "attribute modifier name dropped when id was resolved from uuid; cannot restore",
            );
            let ghost r1 = rep.entries@;
            proof {
                lemma_appended_one(r0, r1, VERSION, LossKind::RenameAmbiguous, Severity::Loss, "attribute modifier name dropped when id was resolved from uuid; cannot restore"@);
            }
            if count > 1 {
                report(
                    rep,
                    VERSION,
                    LossKind::FingerprintCollapse,
                    Severity::Approximated,
                    "attribute modifier id had multiple legacy uuid preimages; chose canonical one",
                );
                proof {
                    lemma_appended_one(r1, rep.entries@, VERSION, LossKind::FingerprintCollapse, Severity::Approximated, "attribute modifier id had multiple legacy uuid preimages; chose canonical one"@);
                    lemma_appended_chain(
                        r0,
                        r1,
                        rep.entries@,
                        VERSION,
                        seq![(LossKind::RenameAmbiguous, Severity::Loss, "attribute modifier name dropped when id was resolved from uuid; cannot restore"@)],
                        seq![(LossKind::FingerprintCollapse, Severity::Approximated, "attribute modifier id had multiple legacy uuid preimages; chose canonical one"@)],
                    );
                    assert(seq![(LossKind::RenameAmbiguous, Severity::Loss, "attribute modifier name dropped when id was resolved from uuid; cannot restore"@)] + seq![
                        (LossKind::FingerprintCollapse, Severity::Approximated, "attribute modifier id had multiple legacy uuid preimages; chose canonical one"@),
                    ] =~= unremap_tags(m0));
                }
            }
            return;
        },
        None => {},
    }
    let (name, _) = lookup_value(name_table(), id.as_str());
    match name {
        Some(n) => {
            m.take("id");
            let ghost mid = m@;
            m.set_string("name", n);
            proof {
                assert(m@.remove("name"@) =~= mid.remove("name"@));
            }
            report(
                rep,
                VERSION,
                LossKind::FingerprintCollapse,
                Severity::Loss,
                "name-resolved attribute modifier lost its uuid and any duplicate-merge split",
            );
            proof {
                lemma_appended_one(r0, rep.entries@, VERSION, LossKind::FingerprintCollapse, Severity::Loss, "name-resolved attribute modifier lost its uuid and any duplicate-merge split"@);
            }
            return;
        },
        None => {},
    }
    proof {
        lemma_appended_none(r0, VERSION);
        reveal_strlit("minecraft:");
    }
    match strip_prefix(id.as_str(), "minecraft:") {
        Some(rest) => {
            let has_ints = match m.get("uuid") {
                Some(NbtValue::IntArray(_)) => true,
                _ => false,
            };
            m.take("id");
            let ghost base = m@;
            if !has_ints && !str_eq(rest, "unknown") {
                match uuid_string_to_ints(rest) {
                    Some(arr) => {
                        m.set("uuid", NbtValue::IntArray(arr));
                        proof {
                            assert(m@.remove("uuid"@) =~= base.remove("uuid"@));
                        }
                    },
                    None => {},
                }
            }
        },
        None => {},
    }
}

/// Undoing a modifier's id leaves every other key alone.
proof fn lemma_unremap_keeps(m: Map<Seq<char>, NbtValue>, m2: Map<Seq<char>, NbtValue>, k: Seq<char>)
    requires
        unremapped(m, m2),
        k != "id"@,
        k != "uuid"@,
        k != "name"@,
    ensures
        lookup(m2, k) == lookup(m, k),
{
    match str_of(m, "id"@) {
        None => {},
        Some(id) => match first_by_value(uuid_ids(), id) {
            Some(uuid) => {
                let base = m.remove("id"@);
                match ints_of_uuid(uuid@) {
                    Some(w) => {
                        assert(m2.remove("uuid"@).dom().contains(k) == base.remove("uuid"@).dom().contains(k));
                        if m2.dom().contains(k) {
                            assert(m2.remove("uuid"@)[k] == m2[k]);
                        }
                    },
                    None => {},
                }
            },
            None => match first_by_value(name_ids(), id) {
                Some(name) => {
                    assert(m2.remove("name"@).dom().contains(k) == m.remove("id"@).remove("name"@).dom().contains(k));
                    if m2.dom().contains(k) {
                        assert(m2.remove("name"@)[k] == m2[k]);
                    }
                },
                None => {
                    if m2.remove("uuid"@).dom().contains(k) || m.remove("id"@).remove("uuid"@).dom().contains(k) {
                        if m2.dom().contains(k) {
                            assert(m2.remove("uuid"@)[k] == m2[k]);
                        }
                    }
                },
            },
        },
    }
}

/// The legacy integer operation of a modifier's operation name, 0 where
/// it has none or no integer.
pub open spec fn op_number_or_zero(m: Map<Seq<char>, NbtValue>) -> i32 {
    match str_of(m, "operation"@) {
        Some(o) => match operation_number(o) {
            Some(n) => n,
            None => 0,
        },
        None => 0,
    }
}

/// What restoring the operation reports: an operation name without an
/// integer.
pub open spec fn op_tags(m: Map<Seq<char>, NbtValue>) -> Seq<(LossKind, Severity, Seq<char>)> {
    match str_of(m, "operation"@) {
        Some(o) => if operation_number(o) is None {
            seq![
                (
                    LossKind::Other,
                    Severity::Approximated,
                    "unknown attribute modifier operation '"@ + o + "' cannot be represented before V3945; used add_value"@,
                ),
            ]
        } else {
            Seq::empty()
        },
        None => Seq::empty(),
    }
}

/// The operation back as an integer and the fields renamed back.
pub open spec fn op_restored(mid: Map<Seq<char>, NbtValue>, m2: Map<Seq<char>, NbtValue>) -> bool {
    m2 == renamed(
        renamed(
            renamed(mid.remove("operation"@).insert("Operation"@, NbtValue::Int(op_number_or_zero(mid))), "amount"@, "Amount"@),
            "name"@,
            "Name"@,
        ),
        "uuid"@,
        "UUID"@,
    )
}

/// Reverse on one entity attribute modifier: its id undone, then its
/// operation and field names restored.
pub open spec fn modifier_restored(m: Map<Seq<char>, NbtValue>, m2: Map<Seq<char>, NbtValue>) -> bool {
    exists|mid: Map<Seq<char>, NbtValue>| #[trigger] unremapped(m, mid) && op_restored(mid, m2)
}

/// What restoring one entity attribute modifier reports.
pub open spec fn modifier_tags(m: Map<Seq<char>, NbtValue>) -> Seq<(LossKind, Severity, Seq<char>)> {
    unremap_tags(m) + op_tags(m)
}

fn restore_modifier(m: &mut NbtMap, rep: &mut LossReport)
    ensures
        modifier_restored(old(m)@, final(m)@),
        appended_at(old(rep).entries@, final(rep).entries@, VERSION, modifier_tags(old(m)@)),
{
    let ghost m0 = m@;
    let ghost r0 = rep.entries@;
    unremap_modifier(m, rep);
    let ghost mid = m@;
    let ghost r1 = rep.entries@;
    proof {
        reveal_strlit("operation");
        reveal_strlit("id");
        reveal_strlit("uuid");
        reveal_strlit("name");
        assert("operation"@ != "id"@ && "operation"@ != "uuid"@ && "operation"@ != "name"@) by {
            assert("operation"@.len() != "id"@.len());
            assert("operation"@.len() != "uuid"@.len());
            assert("operation"@.len() != "name"@.len());
        }
        lemma_unremap_keeps(m0, mid, "operation"@);
        assert(str_of(mid, "operation"@) == str_of(m0, "operation"@));
    }
    let op = match m.get_string("operation") {
        Some(o) => operation_int(o, rep),
        None => 0,
    };
    proof {
        if str_of(mid, "operation"@) is Some && operation_number(str_of(mid, "operation"@)->0) is None {
            lemma_appended_one(
                r1,
                rep.entries@,
                VERSION,
                LossKind::Other,
                Severity::Approximated,
                "unknown attribute modifier operation '"@ + str_of(mid, "operation"@)->0
                    + "' cannot be represented before V3945; used add_value"@,
            );
        } else {
            lemma_appended_none(r1, VERSION);
        }
        lemma_appended_chain(r0, r1, rep.entries@, VERSION, unremap_tags(m0), op_tags(m0));
    }
    m.take("operation");
    m.set_i32("Operation", op);
    m.rename_key("amount", "Amount");
    m.rename_key("name", "Name");
    m.rename_key("uuid", "UUID");
    proof {
        assert(unremapped(m0, mid) && op_restored(mid, m@));
    }
}

/// The reports of restoring the first `n` elements' modifiers.
pub open spec fn modifiers_tags(l: Seq<NbtValue>) -> Seq<(LossKind, Severity, Seq<char>)>
    decreases l.len(),
{
    if l.len() == 0 {
        Seq::empty()
    } else {
        modifiers_tags(l.drop_last()) + match l.last() {
            NbtValue::Compound(m) => modifier_tags(m@),
            _ => Seq::empty(),
        }
    }
}

/// Each compound of `l` restored in `l2`.
pub open spec fn modifiers_restored(l: Seq<NbtValue>, l2: Seq<NbtValue>) -> bool {
    each_compound(l, l2, |x, y| modifier_restored(x, y))
}

/// `am` is `a` with the modifier list restored.
pub open spec fn modifiers_within(a: Map<Seq<char>, NbtValue>, am: Map<Seq<char>, NbtValue>) -> bool {
    list_within(a, am, "modifiers"@, |l, l2| modifiers_restored(l, l2))
}

/// Reverse on one entity attribute: its modifiers restored and its field
/// names restored.
pub open spec fn attr_restored(a: Map<Seq<char>, NbtValue>, a2: Map<Seq<char>, NbtValue>) -> bool {
    exists|am: Map<Seq<char>, NbtValue>| #[trigger] modifiers_within(a, am) && a2 == renamed(
        renamed(renamed(am, "modifiers"@, "Modifiers"@), "base"@, "Base"@),
        "id"@,
        "Name"@,
    )
}

/// What restoring one entity attribute reports.
pub open spec fn attr_tags(a: Map<Seq<char>, NbtValue>) -> Seq<(LossKind, Severity, Seq<char>)> {
    match list_of(a, "modifiers"@) {
        Some(l) => modifiers_tags(l),
        None => Seq::empty(),
    }
}

/// The reports of restoring each attribute of `l`.
pub open spec fn attrs_tags(l: Seq<NbtValue>) -> Seq<(LossKind, Severity, Seq<char>)>
    decreases l.len(),
{
    if l.len() == 0 {
        Seq::empty()
    } else {
        attrs_tags(l.drop_last()) + match l.last() {
            NbtValue::Compound(a) => attr_tags(a@),
            _ => Seq::empty(),
        }
    }
}

/// Restore each compound of the list at `key` of `root` with `f`'s
/// relation, reporting as `tags` says.
fn restore_modifier_list(a: &mut NbtMap, rep: &mut LossReport)
    ensures
        modifiers_within(old(a)@, final(a)@),
        appended_at(old(rep).entries@, final(rep).entries@, VERSION, attr_tags(old(a)@)),
{
    let ghost r0 = rep.entries@;
    match a.take_list("modifiers") {
        Some(list) => {
            let ghost mid = a@;
            let ghost l = list@;
            let mut rest = list;
            let mut out: Vec<NbtValue> = Vec::new();
            proof {
                lemma_appended_none(r0, VERSION);
                assert(l.subrange(0, 0) =~= Seq::<NbtValue>::empty());
            }
            while rest.len() > 0
                invariant
                    out@.len() + rest@.len() == l.len(),
                    rest@ == l.subrange(out@.len() as int, l.len() as int),
                    forall|i: int|
                        0 <= i < out@.len() ==> match #[trigger] l[i] {
                            NbtValue::Compound(m) => out@[i] matches NbtValue::Compound(m2) && modifier_restored(m@, m2@),
                            _ => out@[i] == l[i],
                        },
                    appended_at(r0, rep.entries@, VERSION, modifiers_tags(l.subrange(0, out@.len() as int))),
                decreases rest@.len(),
            {
                let ghost n = out@.len();
                let ghost r1 = rep.entries@;
                let el = rest.remove(0);
                assert(el == l[n as int]);
                let conv = match el {
                    NbtValue::Compound(mut m) => {
                        restore_modifier(&mut m, rep);
                        NbtValue::Compound(m)
                    },
                    other => {
                        proof {
                            lemma_appended_none(r1, VERSION);
                        }
                        other
                    },
                };
                proof {
                    let pre = l.subrange(0, n as int);
                    let post = l.subrange(0, n as int + 1);
                    assert(post.drop_last() =~= pre);
                    assert(post.last() == l[n as int]);
                    let t = match l[n as int] {
                        NbtValue::Compound(m) => modifier_tags(m@),
                        _ => Seq::empty(),
                    };
                    lemma_appended_chain(r0, r1, rep.entries@, VERSION, modifiers_tags(pre), t);
                }
                out.push(conv);
                assert(rest@ =~= l.subrange(out@.len() as int, l.len() as int));
            }
            proof {
                assert(l.subrange(0, l.len() as int) =~= l);
            }
            a.set_list("modifiers", out);
            proof {
                lemma_put_back(old(a)@, mid, "modifiers"@, NbtValue::List(out));
                assert(modifiers_restored(l, out@));
            }
        },
        None => {
            proof {
                lemma_appended_none(r0, VERSION);
            }
        },
    }
}

fn restore_attribute(a: &mut NbtMap, rep: &mut LossReport)
    ensures
        attr_restored(old(a)@, final(a)@),
        appended_at(old(rep).entries@, final(rep).entries@, VERSION, attr_tags(old(a)@)),
{
    restore_modifier_list(a, rep);
    let ghost am = a@;
    a.rename_key("modifiers", "Modifiers");
    a.rename_key("base", "Base");
    a.rename_key("id", "Name");
    proof {
        assert(modifiers_within(old(a)@, am));
    }
}

/// Each compound of `l` an attribute restored in `l2`.
pub open spec fn attrs_restored(l: Seq<NbtValue>, l2: Seq<NbtValue>) -> bool {
    each_compound(l, l2, |x, y| attr_restored(x, y))
}

/// `dm` is `d` with the attribute list restored.
pub open spec fn attrs_within(d: Map<Seq<char>, NbtValue>, dm: Map<Seq<char>, NbtValue>) -> bool {
    list_within(d, dm, "attributes"@, |l, l2| attrs_restored(l, l2))
}

/// Reverse on an entity: each attribute restored, then `attributes` back to
/// `Attributes`.
pub open spec fn entity_restored(d: Map<Seq<char>, NbtValue>, d2: Map<Seq<char>, NbtValue>) -> bool {
    exists|dm: Map<Seq<char>, NbtValue>| #[trigger] attrs_within(d, dm) && d2 == renamed(dm, "attributes"@, "Attributes"@)
}

/// What restoring an entity's attributes reports.
pub open spec fn entity_tags(d: Map<Seq<char>, NbtValue>) -> Seq<(LossKind, Severity, Seq<char>)> {
    match list_of(d, "attributes"@) {
        Some(l) => attrs_tags(l),
        None => Seq::empty(),
    }
}

/// What [`restore_entity_attributes`] makes of `data_in` and the report `rep_in`.
pub open spec fn restore_entity_attributes_effect(data_in: NbtMap, data_out: NbtMap, rep_in: LossReport, rep_out: LossReport) -> bool {
    &&& entity_restored(data_in@, data_out@)
    &&& appended_at(rep_in.entries@, rep_out.entries@, VERSION, entity_tags(data_in@))
}

/// Reverse on an entity's attributes.
pub fn restore_entity_attributes(data: &mut NbtMap, rep: &mut LossReport)
    ensures
        entity_restored(old(data)@, final(data)@),
        appended_at(old(rep).entries@, final(rep).entries@, VERSION, entity_tags(old(data)@)),
{
    let ghost r0 = rep.entries@;
    match data.take_list("attributes") {
        Some(list) => {
            let ghost mid = data@;
            let ghost l = list@;
            let mut rest = list;
            let mut out: Vec<NbtValue> = Vec::new();
            proof {
                lemma_appended_none(r0, VERSION);
                assert(l.subrange(0, 0) =~= Seq::<NbtValue>::empty());
            }
            while rest.len() > 0
                invariant
                    out@.len() + rest@.len() == l.len(),
                    rest@ == l.subrange(out@.len() as int, l.len() as int),
                    forall|i: int|
                        0 <= i < out@.len() ==> match #[trigger] l[i] {
                            NbtValue::Compound(m) => out@[i] matches NbtValue::Compound(m2) && attr_restored(m@, m2@),
                            _ => out@[i] == l[i],
                        },
                    appended_at(r0, rep.entries@, VERSION, attrs_tags(l.subrange(0, out@.len() as int))),
                decreases rest@.len(),
            {
                let ghost n = out@.len();
                let ghost r1 = rep.entries@;
                let el = rest.remove(0);
                assert(el == l[n as int]);
                let conv = match el {
                    NbtValue::Compound(mut m) => {
                        restore_attribute(&mut m, rep);
                        NbtValue::Compound(m)
                    },
                    other => {
                        proof {
                            lemma_appended_none(r1, VERSION);
                        }
                        other
                    },
                };
                proof {
                    let pre = l.subrange(0, n as int);
                    let post = l.subrange(0, n as int + 1);
                    assert(post.drop_last() =~= pre);
                    assert(post.last() == l[n as int]);
                    let t = match l[n as int] {
                        NbtValue::Compound(m) => attr_tags(m@),
                        _ => Seq::empty(),
                    };
                    lemma_appended_chain(r0, r1, rep.entries@, VERSION, attrs_tags(pre), t);
                }
                out.push(conv);
                assert(rest@ =~= l.subrange(out@.len() as int, l.len() as int));
            }
            proof {
                assert(l.subrange(0, l.len() as int) =~= l);
            }
            data.set_list("attributes", out);
            proof {
                lemma_put_back(old(data)@, mid, "attributes"@, NbtValue::List(out));
                assert(attrs_restored(l, out@));
            }
        },
        None => {
            proof {
                lemma_appended_none(r0, VERSION);
            }
        },
    }
    let ghost dm = data@;
    data.rename_key("attributes", "Attributes");
    proof {
        assert(attrs_within(old(data)@, dm));
    }
}

/// The reports of undoing the ids of the modifiers of `l`.
pub open spec fn unremap_list_tags(l: Seq<NbtValue>) -> Seq<(LossKind, Severity, Seq<char>)>
    decreases l.len(),
{
    if l.len() == 0 {
        Seq::empty()
    } else {
        unremap_list_tags(l.drop_last()) + match l.last() {
            NbtValue::Compound(m) => unremap_tags(m@),
            _ => Seq::empty(),
        }
    }
}

/// Each compound of `l` with its id undone in `l2`.
pub open spec fn all_unremapped(l: Seq<NbtValue>, l2: Seq<NbtValue>) -> bool {
    each_compound(l, l2, |x, y| unremapped(x, y))
}

/// What undoing an item's modifier ids reports.
pub open spec fn item_tags(d: Map<Seq<char>, NbtValue>) -> Seq<(LossKind, Severity, Seq<char>)> {
    match map_of(d, "components"@) {
        Some(c) => match map_of(c@, "minecraft:attribute_modifiers"@) {
            Some(a) => match list_of(a@, "modifiers"@) {
                Some(l) => unremap_list_tags(l),
                None => Seq::empty(),
            },
            None => Seq::empty(),
        },
        None => Seq::empty(),
    }
}

fn unremap_list(a: &mut NbtMap, rep: &mut LossReport)
    ensures
        list_within(old(a)@, final(a)@, "modifiers"@, |l, l2| all_unremapped(l, l2)),
        appended_at(
            old(rep).entries@,
            final(rep).entries@,
            VERSION,
            match list_of(old(a)@, "modifiers"@) {
                Some(l) => unremap_list_tags(l),
                None => Seq::empty(),
            },
        ),
{
    let ghost r0 = rep.entries@;
    match a.take_list("modifiers") {
        Some(list) => {
            let ghost mid = a@;
            let ghost l = list@;
            let mut rest = list;
            let mut out: Vec<NbtValue> = Vec::new();
            proof {
                lemma_appended_none(r0, VERSION);
                assert(l.subrange(0, 0) =~= Seq::<NbtValue>::empty());
            }
            while rest.len() > 0
                invariant
                    out@.len() + rest@.len() == l.len(),
                    rest@ == l.subrange(out@.len() as int, l.len() as int),
                    forall|i: int|
                        0 <= i < out@.len() ==> match #[trigger] l[i] {
                            NbtValue::Compound(m) => out@[i] matches NbtValue::Compound(m2) && unremapped(m@, m2@),
                            _ => out@[i] == l[i],
                        },
                    appended_at(r0, rep.entries@, VERSION, unremap_list_tags(l.subrange(0, out@.len() as int))),
                decreases rest@.len(),
            {
                let ghost n = out@.len();
                let ghost r1 = rep.entries@;
                let el = rest.remove(0);
                assert(el == l[n as int]);
                let conv = match el {
                    NbtValue::Compound(mut m) => {
                        unremap_modifier(&mut m, rep);
                        NbtValue::Compound(m)
                    },
                    other => {
                        proof {
                            lemma_appended_none(r1, VERSION);
                        }
                        other
                    },
                };
                proof {
                    let pre = l.subrange(0, n as int);
                    let post = l.subrange(0, n as int + 1);
                    assert(post.drop_last() =~= pre);
                    assert(post.last() == l[n as int]);
                    let t = match l[n as int] {
                        NbtValue::Compound(m) => unremap_tags(m@),
                        _ => Seq::empty(),
                    };
                    lemma_appended_chain(r0, r1, rep.entries@, VERSION, unremap_list_tags(pre), t);
                }
                out.push(conv);
                assert(rest@ =~= l.subrange(out@.len() as int, l.len() as int));
            }
            proof {
                assert(l.subrange(0, l.len() as int) =~= l);
            }
            a.set_list("modifiers", out);
            proof {
                lemma_put_back(old(a)@, mid, "modifiers"@, NbtValue::List(out));
                assert(all_unremapped(l, out@));
            }
        },
        None => {
            proof {
                lemma_appended_none(r0, VERSION);
            }
        },
    }
}

/// What [`restore_item_modifiers`] makes of `data_in` and the report `rep_in`.
pub open spec fn restore_item_modifiers_effect(data_in: NbtMap, data_out: NbtMap, rep_in: LossReport, rep_out: LossReport) -> bool {
    &&& within(
                data_in@,
                data_out@,
                "components"@,
                |c, c2| within(c, c2, "minecraft:attribute_modifiers"@, |a, a2| list_within(a, a2, "modifiers"@, |l, l2| all_unremapped(l, l2))),
            )
    &&& appended_at(rep_in.entries@, rep_out.entries@, VERSION, item_tags(data_in@))
}

/// Reverse on an item stack: every modifier of the attribute modifiers
/// component gets its legacy uuid or name back.
pub fn restore_item_modifiers(data: &mut NbtMap, rep: &mut LossReport)
    ensures
        within(
            old(data)@,
            final(data)@,
            "components"@,
            |c, c2| within(c, c2, "minecraft:attribute_modifiers"@, |a, a2| list_within(a, a2, "modifiers"@, |l, l2| all_unremapped(l, l2))),
        ),
        appended_at(old(rep).entries@, final(rep).entries@, VERSION, item_tags(old(data)@)),
{
    let ghost r0 = rep.entries@;
    match data.take_map("components") {
        Some(mut c) => {
            let ghost mid = data@;
            let ghost c0 = c@;
            match c.take_map("minecraft:attribute_modifiers") {
                Some(mut a) => {
                    let ghost cmid = c@;
                    unremap_list(&mut a, rep);
                    c.set_map("minecraft:attribute_modifiers", a);
                    proof {
                        lemma_put_back(c0, cmid, "minecraft:attribute_modifiers"@, NbtValue::Compound(a));
                    }
                },
                None => {
                    proof {
                        lemma_appended_none(r0, VERSION);
                    }
                },
            }
            data.set_map("components", c);
            proof {
                lemma_put_back(old(data)@, mid, "components"@, NbtValue::Compound(c));
            }
        },
        None => {
            proof {
                lemma_appended_none(r0, VERSION);
            }
        },
    }
}

/// Reverse on a jukebox: with `ticks_since_song_started` (read as an
/// integer, 0 otherwise, and floored at 0) the record plays from tick 0 up
/// to it; without, playback stopped at tick 0. Both are approximations and
/// reported.
pub open spec fn jukebox_expanded(
    old: Map<Seq<char>, NbtValue>,
    new: Map<Seq<char>, NbtValue>,
    r0: Seq<LossEntry>,
    r1: Seq<LossEntry>,
) -> bool {
    let base = old.remove("ticks_since_song_started"@);
    match lookup(old, "ticks_since_song_started"@) {
        Some(v) => {
            let e = match long_value(v) {
                Some(x) => if x > 0 { x } else { 0 },
                None => 0,
            };
            &&& new == base.insert("IsPlaying"@, NbtValue::Byte(1)).insert("RecordStartTick"@, NbtValue::Long(0)).insert(
                "TickCount"@,
                NbtValue::Long(e),
            )
            &&& one_more_with(r0, r1, VERSION, LossKind::Other, Severity::Approximated,
                "jukebox absolute TickCount/RecordStartTick reconstructed from relative offset (origin 0)"@)
        },
        None => {
            &&& new == base.insert("IsPlaying"@, NbtValue::Byte(0)).insert("RecordStartTick"@, NbtValue::Long(0)).insert(
                "TickCount"@,
                NbtValue::Long(0),
            )
            &&& one_more_with(r0, r1, VERSION, LossKind::FingerprintCollapse, Severity::Approximated,
                "jukebox without ticks_since_song_started cannot distinguish an idle record from an empty jukebox; reconstructed stopped playback at tick 0"@)
        },
    }
}

/// What [`expand_jukebox`] makes of `data_in` and the report `rep_in`.
pub open spec fn expand_jukebox_effect(data_in: NbtMap, data_out: NbtMap, rep_in: LossReport, rep_out: LossReport) -> bool {
    &&& jukebox_expanded(data_in@, data_out@, rep_in.entries@, rep_out.entries@)
}

pub fn expand_jukebox(data: &mut NbtMap, rep: &mut LossReport)
    ensures
        jukebox_expanded(old(data)@, final(data)@, old(rep).entries@, final(rep).entries@),
{
    match data.take("ticks_since_song_started") {
        Some(v) => {
            let elapsed: i64 = match crate::nbt::value_as_i64(&v) {
                Some(x) => if x > 0 { x } else { 0 },
                None => 0,
            };
            data.set_bool("IsPlaying", true);
            data.set_i64("RecordStartTick", 0);
            data.set_i64("TickCount", elapsed);
            report(
                rep,
                VERSION,
                LossKind::Other,
                Severity::Approximated,
                "jukebox absolute TickCount/RecordStartTick reconstructed from relative offset (origin 0)",
            );
        },
        None => {
            data.set_bool("IsPlaying", false);
            data.set_i64("RecordStartTick", 0);
            data.set_i64("TickCount", 0);
            report(
                rep,
                VERSION,
                LossKind::FingerprintCollapse,
                Severity::Approximated,
                "jukebox without ticks_since_song_started cannot distinguish an idle record from an empty jukebox; reconstructed stopped playback at tick 0",
            );
        },
    }
}

/// What this version registers.
pub open spec fn registrations() -> Seq<Registration> {
    seq![
        entry(TypeKey::ItemStack, VERSION, 0, Action::Convert(Conv::V3945ConvertItemModifiers)),
        entry(TypeKey::ItemStack, VERSION, 0, Action::Revert(Conv::V3945RestoreItemModifiers)),
        entry(TypeKey::Entity, VERSION, 0, Action::Convert(Conv::V3945ConvertEntityAttributes)),
        entry(TypeKey::Entity, VERSION, 0, Action::Revert(Conv::V3945RestoreEntityAttributes)),
        entry(TypeKey::TileEntity, VERSION, 0, Action::ConvertId("minecraft:jukebox", Conv::V3945CollapseJukebox)),
        entry(TypeKey::TileEntity, VERSION, 0, Action::RevertId("minecraft:jukebox", Conv::V3945ExpandJukebox)),
    ]
}

/// Register this version's converters.
pub fn register(reg: &mut RegistryBuilder)
    ensures
        final(reg).entries@ == old(reg).entries@ + registrations(),
{
    reg.add(TypeKey::ItemStack, VERSION, 0, Action::Convert(Conv::V3945ConvertItemModifiers));
    reg.add(TypeKey::ItemStack, VERSION, 0, Action::Revert(Conv::V3945RestoreItemModifiers));
    reg.add(TypeKey::Entity, VERSION, 0, Action::Convert(Conv::V3945ConvertEntityAttributes));
    reg.add(TypeKey::Entity, VERSION, 0, Action::Revert(Conv::V3945RestoreEntityAttributes));
    reg.add(TypeKey::TileEntity, VERSION, 0, Action::ConvertId("minecraft:jukebox", Conv::V3945CollapseJukebox));
    reg.add(TypeKey::TileEntity, VERSION, 0, Action::RevertId("minecraft:jukebox", Conv::V3945ExpandJukebox));
    proof {
        assert(final(reg).entries@ =~= old(reg).entries@ + registrations());
    }
}

/// `16^w`.
pub open spec fn hex_scale(w: nat) -> nat {
    vstd::arithmetic::power::pow(16, w) as nat
}

proof fn lemma_hex_scale(w: nat)
    ensures
        hex_scale(w) == vstd::arithmetic::power::pow(16, w),
        hex_scale(w) > 0,
{
    vstd::arithmetic::power::lemma_pow_positive(16, w);
}

proof fn lemma_hex_text_len(v: nat, w: nat)
    ensures
        hex_text(v, w).len() == w,
    decreases w,
{
    if w > 0 {
        lemma_hex_text_len(v / 16, (w - 1) as nat);
    }
}

proof fn lemma_hex_digit_value(d: int)
    requires
        0 <= d < 16,
    ensures
        hex_value_of(hex_digit(d)) == Some(d as nat),
        hex_digit(d) != '-',
{
}

proof fn lemma_hex_text_digits(v: nat, w: nat)
    ensures
        all_hex(hex_text(v, w)),
        undashed(hex_text(v, w)) == hex_text(v, w),
        hex_number(hex_text(v, w)) == v % hex_scale(w),
    decreases w,
{
    vstd::arithmetic::power::lemma_pow0(16);
    lemma_hex_scale(0);
    let t = hex_text(v, w);
    if w == 0 {
        assert(t =~= Seq::<char>::empty());
    } else {
        let p = hex_text(v / 16, (w - 1) as nat);
        lemma_hex_text_digits(v / 16, (w - 1) as nat);
        let d = (v % 16) as int;
        lemma_hex_digit_value(d);
        assert(t == p.push(hex_digit(d)));
        assert(t.drop_last() =~= p);
        assert(all_hex(t)) by {
            assert forall|i: int| 0 <= i < t.len() implies (#[trigger] hex_value_of(t[i])) is Some by {
                if i < p.len() {
                    assert(t[i] == p[i]);
                    assert(hex_value_of(p[i]) is Some);
                }
            }
        }
        let q = hex_scale((w - 1) as nat);
        vstd::arithmetic::power::lemma_pow_positive(16, (w - 1) as nat);
        lemma_hex_scale((w - 1) as nat);
        lemma_hex_scale(w);
        vstd::arithmetic::power::lemma_pow_adds(16, (w - 1) as nat, 1);
        vstd::arithmetic::power::lemma_pow1(16);
        assert(((w - 1) + 1) as nat == w);
        assert(hex_number(t) == (v / 16) % q * 16 + v % 16);
        assert((v / 16) % q * 16 + v % 16 == v % (q * 16)) by {
            vstd::arithmetic::div_mod::lemma_breakdown(v as int, 16, q as int);
        }
    }
}

proof fn lemma_undashed_concat(x: Seq<char>, y: Seq<char>)
    ensures
        undashed(x + y) == undashed(x) + undashed(y),
    decreases y.len(),
{
    if y.len() == 0 {
        assert(x + y =~= x);
        assert(undashed(x) + undashed(y) =~= undashed(x));
    } else {
        assert((x + y).drop_last() =~= x + y.drop_last());
        assert((x + y).last() == y.last());
        lemma_undashed_concat(x, y.drop_last());
        if y.last() == '-' {
        } else {
            assert(undashed(x) + undashed(y.drop_last()).push(y.last()) =~= (undashed(x) + undashed(y.drop_last())).push(
                y.last(),
            ));
        }
    }
}

proof fn lemma_hex_number_concat(x: Seq<char>, y: Seq<char>)
    ensures
        hex_number(x + y) == hex_number(x) * hex_scale(y.len()) + hex_number(y),
    decreases y.len(),
{
    vstd::arithmetic::power::lemma_pow0(16);
    lemma_hex_scale(0);
    if y.len() == 0 {
        assert(x + y =~= x);
    } else {
        assert((x + y).drop_last() =~= x + y.drop_last());
        assert((x + y).last() == y.last());
        lemma_hex_number_concat(x, y.drop_last());
        let q = hex_scale((y.len() - 1) as nat);
        lemma_hex_scale((y.len() - 1) as nat);
        lemma_hex_scale(y.len());
        vstd::arithmetic::power::lemma_pow_adds(16, (y.len() - 1) as nat, 1);
        vstd::arithmetic::power::lemma_pow1(16);
        assert(((y.len() - 1) + 1) as nat == y.len());
        let d: nat = match hex_value_of(y.last()) {
            Some(d) => d,
            None => 0,
        };
        assert((hex_number(x) * q + hex_number(y.drop_last())) * 16 + d == hex_number(x) * (q * 16) + (
        hex_number(y.drop_last()) * 16 + d)) by (nonlinear_arith);
    }
}

proof fn lemma_hex_text_split(v: nat, a: nat, b: nat)
    ensures
        hex_text(v, a + b) == hex_text(v / hex_scale(b), a) + hex_text(
            v % hex_scale(b),
            b,
        ),
    decreases b,
{
    vstd::arithmetic::power::lemma_pow0(16);
    lemma_hex_scale(0);
    if b == 0 {
        assert(v % 1 == 0);
        assert(hex_text(0, 0) =~= Seq::<char>::empty());
        assert(hex_text(v, a) + Seq::<char>::empty() =~= hex_text(v, a));
    } else {
        let q = hex_scale((b - 1) as nat);
        vstd::arithmetic::power::lemma_pow_positive(16, (b - 1) as nat);
        lemma_hex_scale((b - 1) as nat);
        lemma_hex_scale(b);
        vstd::arithmetic::power::lemma_pow_adds(16, 1, (b - 1) as nat);
        vstd::arithmetic::power::lemma_pow1(16);
        assert((1 + (b - 1)) as nat == b);
        lemma_hex_text_split(v / 16, a, (b - 1) as nat);
        assert((a + b - 1) as nat == a + (b - 1) as nat);
        assert(hex_text(v, a + b) == hex_text(v / 16, (a + b - 1) as nat).push(hex_digit((v % 16) as int)));
        assert(v / 16 / q == v / (16 * q)) by {
            vstd::arithmetic::div_mod::lemma_div_denominator(v as int, 16, q as int);
        }
        assert((v % (16 * q)) / 16 == (v / 16) % q && (v % (16 * q)) % 16 == v % 16) by {
            vstd::arithmetic::div_mod::lemma_breakdown(v as int, 16, q as int);
            vstd::arithmetic::div_mod::lemma_fundamental_div_mod((v % (16 * q)) as int, 16);
            let r = v % (16 * q);
            assert(r == 16 * ((v / 16) % q) + v % 16);
            vstd::arithmetic::div_mod::lemma_fundamental_div_mod_converse(r as int, 16, ((v / 16) % q) as int, (v % 16) as int);
        }
        assert(hex_text(v % (16 * q), b) == hex_text((v % (16 * q)) / 16, (b - 1) as nat).push(hex_digit(((v % (16 * q)) % 16) as int)));
        assert(hex_text(v, a + b) =~= hex_text(v / (16 * q), a) + hex_text(v % (16 * q), b));
    }
}

/// Reading back the text of a legacy `int[4]` UUID gives the same four
/// ints: parsing is the exact inverse of printing.
pub proof fn law_uuid_round_trip(w0: i32, w1: i32, w2: i32, w3: i32)
    ensures
        ints_of_uuid(uuid_text(w0 as u32, w1 as u32, w2 as u32, w3 as u32)) == Some(seq![w0, w1, w2, w3]),
{
    let u0 = (#[verifier::truncate] (w0 as u32)) as nat;
    let u1 = (#[verifier::truncate] (w1 as u32)) as nat;
    let u2 = (#[verifier::truncate] (w2 as u32)) as nat;
    let u3 = (#[verifier::truncate] (w3 as u32)) as nat;
    let low = (u2 % 65536) * 4294967296 + u3;
    let a = hex_text(u0, 8);
    let b = hex_text(u1 / 65536, 4);
    let c = hex_text(u1 % 65536, 4);
    let d = hex_text(u2 / 65536, 4);
    let e = hex_text(low, 12);
    let dash = seq!['-'];
    let t = uuid_text(w0 as u32, w1 as u32, w2 as u32, w3 as u32);
    assert(t == a + dash + b + dash + c + dash + d + dash + e);
    assert(undashed(dash) =~= Seq::<char>::empty()) by {
        assert(dash.len() == 1 && dash.last() == '-');
        assert(dash.drop_last() =~= Seq::<char>::empty());
        assert(undashed(dash.drop_last()) == dash.drop_last());
    }
    lemma_hex_text_digits(u0, 8);
    lemma_hex_text_digits(u1 / 65536, 4);
    lemma_hex_text_digits(u1 % 65536, 4);
    lemma_hex_text_digits(u2 / 65536, 4);
    lemma_hex_text_digits(low, 12);
    lemma_undashed_concat(a, dash);
    lemma_undashed_concat(a + dash, b);
    lemma_undashed_concat(a + dash + b, dash);
    lemma_undashed_concat(a + dash + b + dash, c);
    lemma_undashed_concat(a + dash + b + dash + c, dash);
    lemma_undashed_concat(a + dash + b + dash + c + dash, d);
    lemma_undashed_concat(a + dash + b + dash + c + dash + d, dash);
    lemma_undashed_concat(a + dash + b + dash + c + dash + d + dash, e);
    let h = undashed(t);
    assert(h =~= a + b + c + d + e);
    lemma_hex_text_len(u0, 8);
    lemma_hex_text_len(u1 / 65536, 4);
    lemma_hex_text_len(u1 % 65536, 4);
    lemma_hex_text_len(u2 / 65536, 4);
    lemma_hex_text_len(low, 12);
    assert(h.len() == 32);
    // The 12 low digits are the low half of the third word and the fourth.
    vstd::arithmetic::power::lemma_pow_adds(16, 4, 4);
    assert(hex_scale(8) == 4294967296) by {
        reveal_with_fuel(vstd::arithmetic::power::pow, 9);
        lemma_hex_scale(8);
    }
    assert(hex_scale(4) == 65536) by {
        reveal_with_fuel(vstd::arithmetic::power::pow, 5);
        lemma_hex_scale(4);
    }
    lemma_hex_text_split(low, 4, 8);
    assert(low / 4294967296 == u2 % 65536 && low % 4294967296 == u3) by {
        vstd::arithmetic::div_mod::lemma_fundamental_div_mod_converse(low as int, 4294967296, (u2 % 65536) as int, u3 as int);
    }
    let e1 = hex_text(u2 % 65536, 4);
    let e2 = hex_text(u3, 8);
    assert(e == e1 + e2);
    lemma_hex_text_digits(u2 % 65536, 4);
    lemma_hex_text_digits(u3, 8);
    lemma_hex_text_len(u2 % 65536, 4);
    lemma_hex_text_len(u3, 8);
    assert(all_hex(h)) by {
        assert forall|i: int| 0 <= i < h.len() implies (#[trigger] hex_value_of(h[i])) is Some by {
            if i < 8 {
                assert(h[i] == a[i]);
            } else if i < 12 {
                assert(h[i] == b[i - 8]);
            } else if i < 16 {
                assert(h[i] == c[i - 12]);
            } else if i < 20 {
                assert(h[i] == d[i - 16]);
            } else if i < 24 {
                assert(h[i] == e1[i - 20]);
            } else {
                assert(h[i] == e2[i - 24]);
            }
        }
    }
    assert(h.subrange(0, 8) =~= a);
    assert(h.subrange(8, 16) =~= b + c);
    assert(h.subrange(16, 24) =~= d + e1);
    assert(h.subrange(24, 32) =~= e2);
    lemma_hex_number_concat(b, c);
    lemma_hex_number_concat(d, e1);
    assert(u0 % 4294967296 == u0);
    assert(u3 % 4294967296 == u3);
    assert(hex_number(b + c) == u1) by {
        assert((u1 / 65536) % 65536 == u1 / 65536);
        assert((u1 % 65536) % 65536 == u1 % 65536);
    }
    assert(hex_number(d + e1) == u2) by {
        assert((u2 / 65536) % 65536 == u2 / 65536);
        assert((u2 % 65536) % 65536 == u2 % 65536);
    }
    assert((w0 as u32) as i32 == w0) by (bit_vector);
    assert((w1 as u32) as i32 == w1) by (bit_vector);
    assert((w2 as u32) as i32 == w2) by (bit_vector);
    assert((w3 as u32) as i32 == w3) by (bit_vector);
}

} // verus!
