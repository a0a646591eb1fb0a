//! V4068: a lock, once the raw name of its key item, becomes a predicate
//! compound `{components: {"minecraft:custom_name": <escaped name>}}`.

use vstd::prelude::*;
use crate::nbt::{lemma_put_back, lookup, map_of, str_of, within, NbtMap, NbtValue};
use crate::loss::{one_more_with, report, LossKind, LossReport, Severity};
use super::super::registry::{entry, Action, Registration, RegistryBuilder, TypeKey};
use super::super::dispatch::Conv;

verus! {

/// This version.
pub const VERSION: i32 = 4068;

/// One character, escaped for a string-quoted component: `"` and `\` get a
/// backslash before them.
pub open spec fn escaped_char(c: char) -> Seq<char> {
    if c == '"' {
        seq!['\\', '"']
    } else if c == '\\' {
        seq!['\\', '\\']
    } else {
        seq![c]
    }
}

/// `s` escaped character by character.
pub open spec fn escaped(s: Seq<char>) -> Seq<char>
    decreases s.len(),
{
    if s.len() == 0 {
        Seq::empty()
    } else {
        escaped_char(s[0]) + escaped(s.drop_first())
    }
}

/// `s` with `\"` and `\\` read back as `"` and `\`; any other backslash is
/// kept with what follows it.
pub open spec fn unescaped(s: Seq<char>) -> Seq<char>
    decreases s.len(),
{
    if s.len() == 0 {
        Seq::empty()
    } else if s[0] == '\\' {
        if s.len() == 1 {
            seq!['\\']
        } else if s[1] == '"' {
            seq!['"'] + unescaped(s.subrange(2, s.len() as int))
        } else if s[1] == '\\' {
            seq!['\\'] + unescaped(s.subrange(2, s.len() as int))
        } else {
            seq!['\\', s[1]] + unescaped(s.subrange(2, s.len() as int))
        }
    } else {
        seq![s[0]] + unescaped(s.drop_first())
    }
}

/// Escape `"` and `\` for embedding in a string-quoted component.
pub fn escape(input: &str) -> (r: String)
    ensures
        r@ == escaped(input@),
{
    let n = input.unicode_len();
    let mut out = String::from_str("");
    proof {
        reveal_strlit("");
        reveal_strlit("\\\"");
        reveal_strlit("\\\\");
        assert(input@.subrange(0, n as int) =~= input@);
    }
    let mut i: usize = 0;
    while i < n
        invariant
            n == input@.len(),
            i <= n,
            out@ + escaped(input@.subrange(i as int, n as int)) == escaped(input@),
            "\\\""@ == seq!['\\', '"'],
            "\\\\"@ == seq!['\\', '\\'],
        decreases n - i,
    {
        let ghost rest = input@.subrange(i as int, n as int);
        let ghost before = out@;
        let c = input.get_char(i);
        if c == '"' {
            out.append("\\\"");
        } else if c == '\\' {
            out.append("\\\\");
        } else {
            out.append(input.substring_char(i, i + 1));
            proof {
                assert(input@.subrange(i as int, i + 1) =~= seq![c]);
            }
        }
        proof {
            assert(rest[0] == c);
            assert(rest.drop_first() =~= input@.subrange(i + 1, n as int));
            assert(out@ + escaped(input@.subrange(i + 1, n as int)) =~= before + escaped(rest));
        }
        i = i + 1;
    }
    proof {
        assert(input@.subrange(n as int, n as int) =~= Seq::<char>::empty());
        assert(out@ =~= out@ + Seq::<char>::empty());
    }
    out
}

/// Undo [`escape`]: `\"` and `\\` become `"` and `\`.
pub fn unescape(input: &str) -> (r: String)
    ensures
        r@ == unescaped(input@),
{
    let n = input.unicode_len();
    let mut out = String::from_str("");
    proof {
        reveal_strlit("");
        assert(input@.subrange(0, n as int) =~= input@);
    }
    let mut i: usize = 0;
    while i < n
        invariant
            n == input@.len(),
            i <= n,
            out@ + unescaped(input@.subrange(i as int, n as int)) == unescaped(input@),
        decreases n - i,
    {
        let ghost rest = input@.subrange(i as int, n as int);
        let ghost before = out@;
        let c = input.get_char(i);
        if c == '\\' {
            if i + 1 < n {
                let d = input.get_char(i + 1);
                if d == '"' || d == '\\' {
                    out.append(input.substring_char(i + 1, i + 2));
                    proof {
                        assert(input@.subrange(i + 1, i + 2) =~= seq![d]);
                    }
                } else {
                    out.append(input.substring_char(i, i + 2));
                    proof {
                        assert(input@.subrange(i as int, i + 2) =~= seq![c, d]);
                    }
                }
                proof {
                    assert(rest[0] == c && rest[1] == d);
                    assert(rest.subrange(2, rest.len() as int) =~= input@.subrange(i + 2, n as int));
                    assert(out@ + unescaped(input@.subrange(i + 2, n as int)) =~= before + unescaped(rest));
                }
                i = i + 2;
            } else {
                out.append(input.substring_char(i, i + 1));
                proof {
                    assert(input@.subrange(i as int, i + 1) =~= seq![c]);
                    assert(rest.len() == 1);
                    assert(input@.subrange(i + 1, n as int) =~= Seq::<char>::empty());
                    assert(out@ + unescaped(input@.subrange(i + 1, n as int)) =~= before + unescaped(rest));
                }
                i = i + 1;
            }
        } else {
            out.append(input.substring_char(i, i + 1));
            proof {
                assert(input@.subrange(i as int, i + 1) =~= seq![c]);
                assert(rest[0] == c);
                assert(rest.drop_first() =~= input@.subrange(i + 1, n as int));
                assert(out@ + unescaped(input@.subrange(i + 1, n as int)) =~= before + unescaped(rest));
            }
            i = i + 1;
        }
    }
    proof {
        assert(input@.subrange(n as int, n as int) =~= Seq::<char>::empty());
        assert(out@ =~= out@ + Seq::<char>::empty());
    }
    out
}

/// Unescaping what escaping wrote gives back the text.
pub proof fn law_unescape_escape(s: Seq<char>)
    ensures
        unescaped(escaped(s)) == s,
    decreases s.len(),
{
    if s.len() > 0 {
        let rest = s.drop_first();
        law_unescape_escape(rest);
        let e = escaped_char(s[0]);
        let x = escaped(rest);
        assert(escaped(s) == e + x);
        if s[0] == '"' || s[0] == '\\' {
            assert((e + x).subrange(2, (e + x).len() as int) =~= x);
        } else {
            assert((e + x).drop_first() =~= x);
        }
        assert(s =~= seq![s[0]] + rest);
    }
}

/// `m`'s compound at `k` is a lock predicate naming `name`:
/// `{components: {"minecraft:custom_name": name}}` and nothing more.
pub open spec fn is_lock_predicate(m: Map<Seq<char>, NbtValue>, k: Seq<char>, name: Seq<char>) -> bool {
    match map_of(m, k) {
        Some(l) => match map_of(l@, "components"@) {
            Some(c) => l@.dom() == set!["components"@] && c@.dom() == set!["minecraft:custom_name"@] && str_of(
                c@,
                "minecraft:custom_name"@,
            ) == Some(name),
            None => false,
        },
        None => false,
    }
}

/// `new` is `old` with the string lock at `src` moved, escaped and wrapped,
/// to a predicate at `dst`; an empty or non-string lock is removed.
pub open spec fn lock_wrapped(
    old: Map<Seq<char>, NbtValue>,
    new: Map<Seq<char>, NbtValue>,
    src: Seq<char>,
    dst: Seq<char>,
) -> bool {
    match lookup(old, src) {
        Some(NbtValue::String(s)) => if s@.len() > 0 {
            new.remove(dst) == old.remove(src).remove(dst) && is_lock_predicate(new, dst, escaped(s@))
        } else {
            new == old.remove(src)
        },
        Some(_) => new == old.remove(src),
        None => new == old,
    }
}

/// Move the string lock at `src_path` to a predicate compound at `dst_path`.
pub fn convert_lock(root: &mut NbtMap, src_path: &str, dst_path: &str)
    ensures
        lock_wrapped(old(root)@, final(root)@, src_path@, dst_path@),
{
    let lock_generic = match root.take(src_path) {
        Some(v) => v,
        None => {
            proof {
                assert(root@ =~= old(root)@);
            }
            return ;
        },
    };
    match lock_generic {
        NbtValue::String(lock) => {
            if lock.unicode_len() > 0 {
                let ghost mid = root@;
                let mut lock_components = NbtMap::new();
                lock_components.set_string("minecraft:custom_name", escape(lock.as_str()).as_str());
                let mut new_lock = NbtMap::new();
                proof {
                    assert(lock_components@.dom() =~= set!["minecraft:custom_name"@]);
                }
                new_lock.set_map("components", lock_components);
                proof {
                    assert(new_lock@.dom() =~= set!["components"@]);
                }
                root.set_map(dst_path, new_lock);
                proof {
                    assert(root@.remove(dst_path@) =~= mid.remove(dst_path@));
                }
            }
        },
        _ => {},
    }
}

/// The name a lock predicate at `k` restores, where it has one: the string
/// at `components.minecraft:custom_name` of a compound.
pub open spec fn lock_name(m: Map<Seq<char>, NbtValue>, k: Seq<char>) -> Option<Seq<char>> {
    match map_of(m, k) {
        Some(l) => match map_of(l@, "components"@) {
            Some(c) => str_of(c@, "minecraft:custom_name"@),
            None => None,
        },
        None => None,
    }
}

/// The lock predicate at `k` has more than its name.
pub open spec fn lock_has_extras(m: Map<Seq<char>, NbtValue>, k: Seq<char>) -> bool {
    match map_of(m, k) {
        Some(l) => match map_of(l@, "components"@) {
            Some(c) => l@.dom().len() != 1 || c@.dom().len() != 1,
            None => false,
        },
        None => false,
    }
}

/// `new` is `old` with the predicate at `dst` collapsed back to a string
/// lock at `src`; `r2` is `r` with one loss where a predicate without a
/// name, or with more than its name, was dropped.
pub open spec fn lock_unwrapped(
    old: Map<Seq<char>, NbtValue>,
    new: Map<Seq<char>, NbtValue>,
    src: Seq<char>,
    dst: Seq<char>,
    r: Seq<crate::loss::LossEntry>,
    r2: Seq<crate::loss::LossEntry>,
) -> bool {
    if old.dom().contains(dst) {
        match lock_name(old, dst) {
            Some(name) => {
                &&& new.remove(src) == old.remove(dst).remove(src)
                &&& str_of(new, src) == Some(unescaped(name))
                &&& if lock_has_extras(old, dst) {
                    one_more_with(r, r2, VERSION, LossKind::ComponentDropped, Severity::Loss,
                        "lock predicate had fields beyond components.minecraft:custom_name; dropped extras while restoring legacy lock string"@)
                } else {
                    r2 == r
                }
            },
            None => new == old.remove(dst) && one_more_with(r, r2, VERSION, LossKind::ComponentDropped, Severity::Loss,
                if old[dst] is Compound {
                    "lock predicate had no components.minecraft:custom_name string; dropped unsupported lock predicate"@
                } else {
                    "lock predicate was not a compound and cannot be represented as a legacy lock string"@
                }),
        }
    } else {
        new == old && r2 == r
    }
}

/// Collapse the predicate at `dst_path` back to the string lock at
/// `src_path`.
pub fn reverse_convert_lock(root: &mut NbtMap, src_path: &str, dst_path: &str, rep: &mut LossReport)
    ensures
        lock_unwrapped(old(root)@, final(root)@, src_path@, dst_path@, old(rep).entries@, final(rep).entries@),
{
    let new_lock = match root.take(dst_path) {
        Some(v) => v,
        None => {
            proof {
                assert(root@ =~= old(root)@);
            }
            return ;
        },
    };
    let lock_map = match new_lock {
        NbtValue::Compound(m) => m,
        _ => {
            report(
                rep,
                VERSION,
                LossKind::ComponentDropped,
                Severity::Loss,
                "lock predicate was not a compound and cannot be represented as a legacy lock string",
            );
            return ;
        },
    };
    let components = match lock_map.get_map("components") {
        Some(c) => c,
        None => {
            report(
                rep,
                VERSION,
                LossKind::ComponentDropped,
                Severity::Loss,
                "lock predicate had no components.minecraft:custom_name string; dropped unsupported lock predicate",
            );
            return ;
        },
    };
    let lock_name = match components.get_string("minecraft:custom_name") {
        Some(s) => s,
        None => {
            report(
                rep,
                VERSION,
                LossKind::ComponentDropped,
                Severity::Loss,
                "lock predicate had no components.minecraft:custom_name string; dropped unsupported lock predicate",
            );
            return ;
        },
    };
    if lock_map.len() != 1 || components.len() != 1 {
        report(
            rep,
            VERSION,
            LossKind::ComponentDropped,
            Severity::Loss,
            "lock predicate had fields beyond components.minecraft:custom_name; dropped extras while restoring legacy lock string",
        );
    }
    let ghost mid = root@;
    root.set_string(src_path, unescape(lock_name).as_str());
    proof {
        assert(root@.remove(src_path@) =~= mid.remove(src_path@));
    }
}

/// Wrapping a non-empty string lock and collapsing it back restores the
/// lock with nothing reported.
pub proof fn law_lock_round_trip(
    old: Map<Seq<char>, NbtValue>,
    mid: Map<Seq<char>, NbtValue>,
    new: Map<Seq<char>, NbtValue>,
    src: Seq<char>,
    dst: Seq<char>,
    r: Seq<crate::loss::LossEntry>,
    r2: Seq<crate::loss::LossEntry>,
)
    requires
        str_of(old, src) matches Some(s) && s.len() > 0,
        lock_wrapped(old, mid, src, dst),
        lock_unwrapped(mid, new, src, dst, r, r2),
    ensures
        new.remove(src) == old.remove(src).remove(dst),
        str_of(new, src) == str_of(old, src),
        r2 == r,
{
    let s = str_of(old, src)->0;
    law_unescape_escape(s);
    let l = map_of(mid, dst)->0;
    assert(l@.dom().len() == 1) by {
        assert(l@.dom() == set!["components"@]);
    }
    let c = map_of(l@, "components"@)->0;
    assert(c@.dom().len() == 1) by {
        assert(c@.dom() == set!["minecraft:custom_name"@]);
    }
    assert(new.remove(src) =~= old.remove(src).remove(dst));
}

/// What [`wrap_item_lock`] makes of `data_in`.
pub open spec fn wrap_item_lock_effect(data_in: NbtMap, data_out: NbtMap) -> bool {
    &&& within(
                data_in@,
                data_out@,
                "components"@,
                |c, c2| lock_wrapped(c, c2, "minecraft:lock"@, "minecraft:lock"@),
            )
}

/// Forward on an item stack: its `components.minecraft:lock`.
pub fn wrap_item_lock(data: &mut NbtMap)
    ensures
        within(
            old(data)@,
            final(data)@,
            "components"@,
            |c, c2| lock_wrapped(c, c2, "minecraft:lock"@, "minecraft:lock"@),
        ),
{
    match data.take_map("components") {
        Some(mut c) => {
            let ghost mid = data@;
            convert_lock(&mut c, "minecraft:lock", "minecraft:lock");
            data.set_map("components", c);
            proof {
                lemma_put_back(old(data)@, mid, "components"@, NbtValue::Compound(c));
            }
        },
        None => {},
    }
}

/// What [`unwrap_item_lock`] makes of `data_in` and the report `rep_in`.
pub open spec fn unwrap_item_lock_effect(data_in: NbtMap, data_out: NbtMap, rep_in: LossReport, rep_out: LossReport) -> bool {
    &&& within(
                data_in@,
                data_out@,
                "components"@,
                |c, c2|
                    lock_unwrapped(
                        c,
                        c2,
                        "minecraft:lock"@,
                        "minecraft:lock"@,
                        rep_in.entries@,
                        rep_out.entries@,
                    ),
            )
    &&& map_of(data_in@, "components"@) is None ==> rep_out.entries@ == rep_in.entries@
}

/// Reverse on an item stack: its `components.minecraft:lock`.
pub fn unwrap_item_lock(data: &mut NbtMap, rep: &mut LossReport)
    ensures
        within(
            old(data)@,
            final(data)@,
            "components"@,
            |c, c2|
                lock_unwrapped(
                    c,
                    c2,
                    "minecraft:lock"@,
                    "minecraft:lock"@,
                    old(rep).entries@,
                    final(rep).entries@,
                ),
        ),
        map_of(old(data)@, "components"@) is None ==> final(rep).entries@ == old(rep).entries@,
{
    match data.take_map("components") {
        Some(mut c) => {
            let ghost mid = data@;
            reverse_convert_lock(&mut c, "minecraft:lock", "minecraft:lock", rep);
            data.set_map("components", c);
            proof {
                lemma_put_back(old(data)@, mid, "components"@, NbtValue::Compound(c));
            }
        },
        None => {},
    }
}

/// What [`wrap_block_lock`] makes of `data_in`.
pub open spec fn wrap_block_lock_effect(data_in: NbtMap, data_out: NbtMap) -> bool {
    &&& lock_wrapped(data_in@, data_out@, "Lock"@, "lock"@)
}

/// Forward on a block entity: `Lock` becomes `lock`.
pub fn wrap_block_lock(data: &mut NbtMap)
    ensures
        lock_wrapped(old(data)@, final(data)@, "Lock"@, "lock"@),
{
    convert_lock(data, "Lock", "lock");
}

/// What [`unwrap_block_lock`] makes of `data_in` and the report `rep_in`.
pub open spec fn unwrap_block_lock_effect(data_in: NbtMap, data_out: NbtMap, rep_in: LossReport, rep_out: LossReport) -> bool {
    &&& lock_unwrapped(data_in@, data_out@, "Lock"@, "lock"@, rep_in.entries@, rep_out.entries@)
}

/// Reverse on a block entity: `lock` becomes `Lock`.
pub fn unwrap_block_lock(data: &mut NbtMap, rep: &mut LossReport)
    ensures
        lock_unwrapped(old(data)@, final(data)@, "Lock"@, "lock"@, old(rep).entries@, final(rep).entries@),
{
    reverse_convert_lock(data, "Lock", "lock", rep);
}

/// What this version registers.
pub open spec fn registrations() -> Seq<Registration> {
    seq![
        entry(TypeKey::ItemStack, VERSION, 0, Action::Convert(Conv::V4068WrapItemLock)),
        entry(TypeKey::ItemStack, VERSION, 0, Action::Revert(Conv::V4068UnwrapItemLock)),
        entry(TypeKey::TileEntity, VERSION, 0, Action::Convert(Conv::V4068WrapBlockLock)),
        entry(TypeKey::TileEntity, VERSION, 0, Action::Revert(Conv::V4068UnwrapBlockLock)),
    ]
}

/// Register this version's converters.
pub fn register(reg: &mut RegistryBuilder)
    ensures
        final(reg).entries@ == old(reg).entries@ + registrations(),
{
    reg.add(TypeKey::ItemStack, VERSION, 0, Action::Convert(Conv::V4068WrapItemLock));
    reg.add(TypeKey::ItemStack, VERSION, 0, Action::Revert(Conv::V4068UnwrapItemLock));
    reg.add(TypeKey::TileEntity, VERSION, 0, Action::Convert(Conv::V4068WrapBlockLock));
    reg.add(TypeKey::TileEntity, VERSION, 0, Action::Revert(Conv::V4068UnwrapBlockLock));
    proof {
        assert(final(reg).entries@ =~= old(reg).entries@ + registrations());
    }
}

} // verus!
