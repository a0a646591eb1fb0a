//! V804: a banner item's `tag.BlockEntityTag.Base` color moves into the
//! item `Damage` (its low 4 bits); the emptied containers are pruned, unless
//! the lore is the `(+NBT)` placeholder.

use vstd::prelude::*;
use crate::nbt::{lemma_put_back, long_of, lookup, map_of, NbtMap, NbtValue};
use crate::text::str_eq;
use super::super::registry::{entry, Action, Registration, RegistryBuilder, TypeKey};
use super::super::dispatch::Conv;

verus! {

/// This version.
pub const VERSION: i32 = 804;

/// The lore of `tag.display` is exactly the one string `(+NBT)`.
pub open spec fn lore_placeholder(tag: Map<Seq<char>, NbtValue>) -> bool {
    match map_of(tag, "display"@) {
        Some(display) => match lookup(display@, "Lore"@) {
            Some(NbtValue::List(lore)) => lore@.len() == 1 && crate::nbt::is_str(lore@[0], "(+NBT)"@),
            _ => false,
        },
        None => false,
    }
}

/// The banner color of a `Base` or `Damage` number: its low 4 bits.
pub open spec fn color_of(n: i64) -> i16 {
    (n & 15) as i16
}

/// `after` is `d1` with `tag` pruned as the forward prunes it: `Base` leaves
/// `BlockEntityTag`, an emptied `BlockEntityTag` leaves `tag`, an emptied
/// `tag` leaves the stack.
pub open spec fn pruned(d1: Map<Seq<char>, NbtValue>, t: Map<Seq<char>, NbtValue>, b: Map<Seq<char>, NbtValue>, after: Map<Seq<char>, NbtValue>) -> bool {
    let b2 = b.remove("Base"@);
    let t2 = if b2.dom().len() == 0 { t.remove("BlockEntityTag"@) } else { t };
    if b2.dom().len() == 0 && t2.dom().len() == 0 {
        after == d1.remove("tag"@)
    } else {
        &&& after.remove("tag"@) == d1.remove("tag"@)
        &&& after.dom() == d1.dom()
        &&& map_of(after, "tag"@) matches Some(tt)
        &&& if b2.dom().len() == 0 {
            tt@ == t2
        } else {
            &&& tt@.remove("BlockEntityTag"@) == t.remove("BlockEntityTag"@)
            &&& tt@.dom() == t.dom()
            &&& map_of(tt@, "BlockEntityTag"@) matches Some(bb) && bb@ == b2
        }
    }
}

/// What [`base_to_damage`] makes of `data_in`.
pub open spec fn base_to_damage_effect(data_in: NbtMap, data_out: NbtMap) -> bool {
    &&& match map_of(data_in@, "tag"@) {
                Some(t) => match map_of(t@, "BlockEntityTag"@) {
                    Some(b) => match long_of(b@, "Base"@) {
                        Some(base) => {
                            let d1 = data_in@.insert("Damage"@, NbtValue::Short(color_of(base)));
                            if lore_placeholder(t@) {
                                data_out@ == d1
                            } else {
                                pruned(d1, t@, b@, data_out@)
                            }
                        },
                        None => data_out@ == data_in@,
                    },
                    None => data_out@ == data_in@,
                },
                None => data_out@ == data_in@,
            }
}

/// Forward, on a banner.
pub fn base_to_damage(data: &mut NbtMap)
    ensures
        match map_of(old(data)@, "tag"@) {
            Some(t) => match map_of(t@, "BlockEntityTag"@) {
                Some(b) => match long_of(b@, "Base"@) {
                    Some(base) => {
                        let d1 = old(data)@.insert("Damage"@, NbtValue::Short(color_of(base)));
                        if lore_placeholder(t@) {
                            final(data)@ == d1
                        } else {
                            pruned(d1, t@, b@, final(data)@)
                        }
                    },
                    None => final(data)@ == old(data)@,
                },
                None => final(data)@ == old(data)@,
            },
            None => final(data)@ == old(data)@,
        },
{
    let base = match data.get_map("tag") {
        Some(tag) => match tag.get_map("BlockEntityTag") {
            Some(b) => match b.get_i64("Base") {
                Some(base) => base,
                None => return,
            },
            None => return,
        },
        None => return,
    };
    proof {
        reveal_strlit("Damage");
        reveal_strlit("tag");
        assert("Damage"@[0] != "tag"@[0]);
    }
    data.set_short("Damage", (base & 15) as i16);
    let placeholder = match data.get_map("tag") {
        Some(tag) => match tag.get_map("display") {
            Some(display) => match display.get("Lore") {
                Some(NbtValue::List(lore)) => lore.len() == 1 && match &lore[0] {
                    NbtValue::String(s) => str_eq(s.as_str(), "(+NBT)"),
                    _ => false,
                },
                _ => false,
            },
            None => false,
        },
        None => false,
    };
    if placeholder {
        return;
    }
    let ghost d1 = data@;
    match data.take_map("tag") {
        Some(mut tag) => {
            let ghost mid = data@;
            let ghost t = tag@;
            match tag.take_map("BlockEntityTag") {
                Some(mut b) => {
                    let ghost tmid = tag@;
                    b.take("Base");
                    if b.is_empty() {
                        tag.take("BlockEntityTag");
                        proof {
                            assert(tag@ =~= t.remove("BlockEntityTag"@));
                        }
                    } else {
                        tag.set_map("BlockEntityTag", b);
                        proof {
                            assert(tag@.remove("BlockEntityTag"@) =~= t.remove("BlockEntityTag"@));
                            assert(tag@.dom() =~= t.dom());
                        }
                    }
                },
                None => {},
            }
            if tag.is_empty() {
                data.take("tag");
                proof {
                    assert(data@ =~= d1.remove("tag"@));
                }
            } else {
                data.set_map("tag", tag);
                proof {
                    lemma_put_back(d1, mid, "tag"@, NbtValue::Compound(tag));
                }
            }
        },
        None => {},
    }
}

/// The tag of a stack, or nothing when it has no compound `tag`.
pub open spec fn tag_or_empty(m: Map<Seq<char>, NbtValue>, k: Seq<char>) -> Map<Seq<char>, NbtValue> {
    match map_of(m, k) {
        Some(t) => t@,
        None => Map::empty(),
    }
}

/// What [`damage_to_base`] makes of `data_in`.
pub open spec fn damage_to_base_effect(data_in: NbtMap, data_out: NbtMap) -> bool {
    &&& match long_of(data_in@, "Damage"@) {
                Some(d) => {
                    let t = tag_or_empty(data_in@, "tag"@);
                    let b = tag_or_empty(t, "BlockEntityTag"@);
                    &&& data_out@.remove("tag"@) == data_in@.remove("tag"@)
                    &&& map_of(data_out@, "tag"@) matches Some(tt)
                    &&& tt@.remove("BlockEntityTag"@) == t.remove("BlockEntityTag"@)
                    &&& map_of(tt@, "BlockEntityTag"@) matches Some(bb)
                    &&& bb@ == b.insert("Base"@, NbtValue::Short(color_of(d)))
                },
                None => data_out@ == data_in@,
            }
}

/// Reverse, on a banner: the color in `Damage` goes back into
/// `tag.BlockEntityTag.Base`, the containers made as needed (lossless: the
/// low bits carry the color).
pub fn damage_to_base(data: &mut NbtMap)
    ensures
        match long_of(old(data)@, "Damage"@) {
            Some(d) => {
                let t = tag_or_empty(old(data)@, "tag"@);
                let b = tag_or_empty(t, "BlockEntityTag"@);
                &&& final(data)@.remove("tag"@) == old(data)@.remove("tag"@)
                &&& map_of(final(data)@, "tag"@) matches Some(tt)
                &&& tt@.remove("BlockEntityTag"@) == t.remove("BlockEntityTag"@)
                &&& map_of(tt@, "BlockEntityTag"@) matches Some(bb)
                &&& bb@ == b.insert("Base"@, NbtValue::Short(color_of(d)))
            },
            None => final(data)@ == old(data)@,
        },
{
    let d = match data.get_i64("Damage") {
        Some(d) => d,
        None => return,
    };
    let base = (d & 15) as i16;
    if data.get_map("tag").is_none() {
        data.set_map("tag", NbtMap::new());
        proof {
            assert(data@.remove("tag"@) =~= old(data)@.remove("tag"@));
        }
    }
    let ghost d1 = data@;
    match data.take_map("tag") {
        Some(mut tag) => {
            let ghost t = tag@;
            if tag.get_map("BlockEntityTag").is_none() {
                tag.set_map("BlockEntityTag", NbtMap::new());
                proof {
                    assert(tag@.remove("BlockEntityTag"@) =~= t.remove("BlockEntityTag"@));
                }
            }
            let ghost t1 = tag@;
            match tag.take_map("BlockEntityTag") {
                Some(mut b) => {
                    b.set_short("Base", base);
                    tag.set_map("BlockEntityTag", b);
                    proof {
                        assert(tag@.remove("BlockEntityTag"@) =~= t1.remove("BlockEntityTag"@));
                    }
                },
                None => {},
            }
            data.set_map("tag", tag);
            proof {
                assert(data@.remove("tag"@) =~= d1.remove("tag"@));
            }
        },
        None => {},
    }
}

/// What this version registers.
pub open spec fn registrations() -> Seq<Registration> {
    seq![
        entry(TypeKey::ItemStack, VERSION, 0, Action::ConvertId("minecraft:banner", Conv::V804BaseToDamage)),
        entry(TypeKey::ItemStack, VERSION, 0, Action::RevertId("minecraft:banner", Conv::V804DamageToBase)),
    ]
}

/// Register this version's converters.
pub fn register(reg: &mut RegistryBuilder)
    ensures
        final(reg).entries@ == old(reg).entries@ + registrations(),
{
    reg.add(TypeKey::ItemStack, VERSION, 0, Action::ConvertId("minecraft:banner", Conv::V804BaseToDamage));
    reg.add(TypeKey::ItemStack, VERSION, 0, Action::RevertId("minecraft:banner", Conv::V804DamageToBase));
    proof {
        assert(final(reg).entries@ =~= old(reg).entries@ + registrations());
    }
}

} // verus!
