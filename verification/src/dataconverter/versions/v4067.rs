//! V4067: the single `minecraft:boat` and `minecraft:chest_boat` entities,
//! told apart by a `Type` field, become one id per wood.

use vstd::prelude::*;
use crate::nbt::{lemma_put_back, map_of, str_of, within, NbtMap, NbtValue};
use crate::text::{starts_with, str_eq, strip_prefix};
use super::super::registry::{entry, Action, Registration, RegistryBuilder, TypeKey, Walker};
use super::super::walker::item_lists;
use super::super::dispatch::Conv;

verus! {

/// This version.
pub const VERSION: i32 = 4067;

/// The `(wood, suffix)` table of boats.
pub open spec fn boat_types() -> Seq<(&'static str, &'static str)> {
    seq![
        ("oak", "boat"),
        ("spruce", "boat"),
        ("birch", "boat"),
        ("jungle", "boat"),
        ("acacia", "boat"),
        ("cherry", "boat"),
        ("dark_oak", "boat"),
        ("mangrove", "boat"),
        ("bamboo", "raft"),
    ]
}

/// The `(wood, suffix)` table of boats.
pub fn boat_type_table() -> (t: &'static [(&'static str, &'static str)])
    ensures
        t@ == boat_types(),
{
    &[
        ("oak", "boat"),
        ("spruce", "boat"),
        ("birch", "boat"),
        ("jungle", "boat"),
        ("acacia", "boat"),
        ("cherry", "boat"),
        ("dark_oak", "boat"),
        ("mangrove", "boat"),
        ("bamboo", "raft"),
    ]
}

/// `<wood>_<suffix>`.
pub open spec fn plain_name(wood: Seq<char>, suffix: Seq<char>) -> Seq<char> {
    wood + "_"@ + suffix
}

/// `<wood>_chest_<suffix>`.
pub open spec fn chest_name(wood: Seq<char>, suffix: Seq<char>) -> Seq<char> {
    wood + "_chest_"@ + suffix
}

/// The wood of the first table entry from `i` on whose plain or chest name
/// is `id`.
pub open spec fn wood_for_item_from(id: Seq<char>, i: int) -> Option<&'static str>
    decreases boat_types().len() - i,
{
    if 0 <= i < boat_types().len() {
        let (w, s) = boat_types()[i];
        if id == plain_name(w@, s@) || id == chest_name(w@, s@) {
            Some(w)
        } else {
            wood_for_item_from(id, i + 1)
        }
    } else {
        None
    }
}

/// The wood of a boat item id (un-namespaced, as the table writes it).
pub open spec fn wood_for_item(id: Seq<char>) -> Option<&'static str> {
    wood_for_item_from(id, 0)
}

/// The suffix of the first table entry from `i` on whose wood is `t`.
pub open spec fn suffix_for_wood_from(t: Seq<char>, i: int) -> Option<&'static str>
    decreases boat_types().len() - i,
{
    if 0 <= i < boat_types().len() {
        if boat_types()[i].0@ == t {
            Some(boat_types()[i].1)
        } else {
            suffix_for_wood_from(t, i + 1)
        }
    } else {
        None
    }
}

/// The suffix of wood `t`.
pub open spec fn suffix_for_wood(t: Seq<char>) -> Option<&'static str> {
    suffix_for_wood_from(t, 0)
}

/// Whether `bare` is a chest boat, and its wood, for the first table entry
/// from `i` on whose chest or plain name is `bare` (chest name tried first).
pub open spec fn base_and_wood_from(bare: Seq<char>, i: int) -> Option<(bool, &'static str)>
    decreases boat_types().len() - i,
{
    if 0 <= i < boat_types().len() {
        let (w, s) = boat_types()[i];
        if bare == chest_name(w@, s@) {
            Some((true, w))
        } else if bare == plain_name(w@, s@) {
            Some((false, w))
        } else {
            base_and_wood_from(bare, i + 1)
        }
    } else {
        None
    }
}

/// `id` without a leading `minecraft:`.
pub open spec fn bare_id(id: Seq<char>) -> Seq<char> {
    if starts_with(id, "minecraft:"@) {
        id.subrange("minecraft:"@.len() as int, id.len() as int)
    } else {
        id
    }
}

/// Whether a per-wood boat entity id is a chest boat, and its wood.
pub open spec fn base_and_wood(id: Seq<char>) -> Option<(bool, &'static str)> {
    base_and_wood_from(bare_id(id), 0)
}

/// `a` followed by `b` and `c`, as a new string.
fn joined3(a: &str, b: &str, c: &str) -> (r: String)
    ensures
        r@ == a@ + b@ + c@,
{
    let mut r = String::from_str(a);
    r.append(b);
    r.append(c);
    r
}

/// The wood of a boat item id.
pub fn boat_type_for_item_id(id: &str) -> (r: Option<&'static str>)
    ensures
        r == wood_for_item(id@),
{
    let t = boat_type_table();
    let mut i: usize = 0;
    while i < t.len()
        invariant
            t@ == boat_types(),
            i <= t@.len(),
            wood_for_item_from(id@, 0) == wood_for_item_from(id@, i as int),
        decreases t@.len() - i,
    {
        let (name, suffix) = t[i];
        let a = joined3(name, "_", suffix);
        let b = joined3(name, "_chest_", suffix);
        if str_eq(id, a.as_str()) || str_eq(id, b.as_str()) {
            return Some(name);
        }
        i = i + 1;
    }
    None
}

/// Whether a per-wood boat entity id (namespaced or not) is a chest boat,
/// and its wood.
pub fn boat_entity_to_base_and_type(id: &str) -> (r: Option<(bool, &'static str)>)
    ensures
        r == base_and_wood(id@),
{
    let bare = match strip_prefix(id, "minecraft:") {
        Some(b) => b,
        None => id,
    };
    let t = boat_type_table();
    let mut i: usize = 0;
    while i < t.len()
        invariant
            t@ == boat_types(),
            i <= t@.len(),
            bare@ == bare_id(id@),
            base_and_wood_from(bare@, 0) == base_and_wood_from(bare@, i as int),
        decreases t@.len() - i,
    {
        let (name, suffix) = t[i];
        let c = joined3(name, "_chest_", suffix);
        if str_eq(bare, c.as_str()) {
            return Some((true, name));
        }
        let p = joined3(name, "_", suffix);
        if str_eq(bare, p.as_str()) {
            return Some((false, name));
        }
        i = i + 1;
    }
    None
}

/// The suffix of wood `t`.
fn suffix_of_wood(t: &str) -> (r: Option<&'static str>)
    ensures
        r == suffix_for_wood(t@),
{
    let tab = boat_type_table();
    let mut i: usize = 0;
    while i < tab.len()
        invariant
            tab@ == boat_types(),
            i <= tab@.len(),
            suffix_for_wood_from(t@, 0) == suffix_for_wood_from(t@, i as int),
        decreases tab@.len() - i,
    {
        let (name, suffix) = tab[i];
        if str_eq(name, t) {
            return Some(suffix);
        }
        i = i + 1;
    }
    None
}

/// `e2` is `e` with `Type` set to `w`.
pub open spec fn type_forced(e: Map<Seq<char>, NbtValue>, e2: Map<Seq<char>, NbtValue>, w: Seq<char>) -> bool {
    e2 == e.insert("Type"@, e2["Type"@]) && str_of(e2, "Type"@) == Some(w)
}

/// The item stack after the forward change: a boat item's
/// `components.minecraft:entity_data.Type` is forced to its wood.
pub open spec fn item_typed(old: Map<Seq<char>, NbtValue>, new: Map<Seq<char>, NbtValue>) -> bool {
    match str_of(old, "id"@) {
        Some(id) => match wood_for_item(id) {
            Some(w) => within(
                old,
                new,
                "components"@,
                |c, c2| within(c, c2, "minecraft:entity_data"@, |e, e2| type_forced(e, e2, w@)),
            ),
            None => new == old,
        },
        None => new == old,
    }
}

/// What [`force_item_boat_type`] makes of `data_in`.
pub open spec fn force_item_boat_type_effect(data_in: NbtMap, data_out: NbtMap) -> bool {
    &&& item_typed(data_in@, data_out@)
}

/// Forward on an item stack.
pub fn force_item_boat_type(data: &mut NbtMap)
    ensures
        item_typed(old(data)@, final(data)@),
{
    let wood = match data.get_string("id") {
        Some(id) => match boat_type_for_item_id(id) {
            Some(w) => w,
            None => return ,
        },
        None => return ,
    };
    match data.take_map("components") {
        Some(mut c) => {
            let ghost mid = data@;
            let ghost c0 = c@;
            match c.take_map("minecraft:entity_data") {
                Some(mut e) => {
                    let ghost cmid = c@;
                    let ghost e0 = e@;
                    e.set_string("Type", wood);
                    c.set_map("minecraft:entity_data", e);
                    proof {
                        lemma_put_back(c0, cmid, "minecraft:entity_data"@, NbtValue::Compound(e));
                        assert(type_forced(e0, e@, wood@));
                    }
                },
                None => {},
            }
            data.set_map("components", c);
            proof {
                lemma_put_back(old(data)@, mid, "components"@, NbtValue::Compound(c));
                assert(within(c0, c@, "minecraft:entity_data"@, |e, e2| type_forced(e, e2, wood@)));
            }
        },
        None => {},
    }
}

/// The id a `minecraft:boat` or `minecraft:chest_boat` entity gets from its
/// `Type`; `None` for any other entity.
pub open spec fn split_boat_id(m: Map<Seq<char>, NbtValue>) -> Option<Seq<char>> {
    match str_of(m, "id"@) {
        Some(id) => if id == "minecraft:boat"@ {
            Some(
                match str_of(m, "Type"@) {
                    Some(t) => match suffix_for_wood(t) {
                        Some(s) => plain_name(t, s@),
                        None => "minecraft:oak_boat"@,
                    },
                    None => "minecraft:oak_boat"@,
                },
            )
        } else if id == "minecraft:chest_boat"@ {
            Some(
                match str_of(m, "Type"@) {
                    Some(t) => match suffix_for_wood(t) {
                        Some(s) => chest_name(t, s@),
                        None => "minecraft:oak_chest_boat"@,
                    },
                    None => "minecraft:oak_chest_boat"@,
                },
            )
        } else {
            None
        },
        None => None,
    }
}

/// What [`split_boat_entity`] makes of `data_in`.
pub open spec fn split_boat_entity_effect(data_in: NbtMap, data_out: NbtMap) -> bool {
    &&& match split_boat_id(data_in@) {
                Some(nid) => data_out@.remove("id"@) == data_in@.remove("Type"@).remove("id"@) && str_of(
                    data_out@,
                    "id"@,
                ) == Some(nid),
                None => data_out@ == data_in@,
            }
}

/// Forward on an entity: a typed boat gets its per-wood id and loses `Type`.
pub fn split_boat_entity(data: &mut NbtMap)
    ensures
        match split_boat_id(old(data)@) {
            Some(nid) => final(data)@.remove("id"@) == old(data)@.remove("Type"@).remove("id"@) && str_of(
                final(data)@,
                "id"@,
            ) == Some(nid),
            None => final(data)@ == old(data)@,
        },
{
    let (normal, chest) = match data.get_string("id") {
        Some(id) => (str_eq(id, "minecraft:boat"), str_eq(id, "minecraft:chest_boat")),
        None => return ,
    };
    if !normal && !chest {
        return ;
    }
    let suffix: Option<(String, &'static str)> = match data.get_string("Type") {
        Some(t) => match suffix_of_wood(t) {
            Some(s) => Some((t.to_owned(), s)),
            None => None,
        },
        None => None,
    };
    data.take("Type");
    let new_id = match suffix {
        Some((t, s)) => {
            if normal {
                joined3(t.as_str(), "_", s)
            } else {
                joined3(t.as_str(), "_chest_", s)
            }
        },
        None => {
            if normal {
                String::from_str("minecraft:oak_boat")
            } else {
                String::from_str("minecraft:oak_chest_boat")
            }
        },
    };
    data.set_string("id", new_id.as_str());
    proof {
        assert(final(data)@.remove("id"@) =~= old(data)@.remove("Type"@).remove("id"@));
    }
}

/// The entity after the reverse change: a per-wood boat goes back to
/// `minecraft:boat` or `minecraft:chest_boat` with its wood as `Type`.
pub open spec fn boat_merged(old: Map<Seq<char>, NbtValue>, new: Map<Seq<char>, NbtValue>) -> bool {
    match str_of(old, "id"@) {
        Some(id) => match base_and_wood(id) {
            Some((chest, w)) => {
                &&& new.remove("id"@).remove("Type"@) == old.remove("id"@).remove("Type"@)
                &&& str_of(new, "id"@) == Some(
                    if chest {
                        "minecraft:chest_boat"@
                    } else {
                        "minecraft:boat"@
                    },
                )
                &&& str_of(new, "Type"@) == Some(w@)
            },
            None => new == old,
        },
        None => new == old,
    }
}

/// What [`merge_boat_entity`] makes of `data_in`.
pub open spec fn merge_boat_entity_effect(data_in: NbtMap, data_out: NbtMap) -> bool {
    &&& boat_merged(data_in@, data_out@)
}

/// Reverse on an entity: the per-wood id encodes the wood, so this is
/// lossless.
pub fn merge_boat_entity(data: &mut NbtMap)
    ensures
        boat_merged(old(data)@, final(data)@),
{
    let (chest, wood) = match data.get_string("id") {
        Some(id) => match boat_entity_to_base_and_type(id) {
            Some(p) => p,
            None => return ,
        },
        None => return ,
    };
    let ghost m0 = data@;
    if chest {
        data.set_string("id", "minecraft:chest_boat");
    } else {
        data.set_string("id", "minecraft:boat");
    }
    data.set_string("Type", wood);
    proof {
        reveal_strlit("id");
        reveal_strlit("Type");
        assert("id"@[0] != "Type"@[0]);
        assert(data@.remove("id"@).remove("Type"@) =~= m0.remove("id"@).remove("Type"@));
    }
}


/// Facts of the boat table read off its literals: each wood's first two
/// characters tell it apart from every other wood and from `minecraft:`,
/// and each suffix starts with `b` or `r`.
proof fn lemma_table_facts()
    ensures
        boat_types().len() == 9,
        forall|i: int| 0 <= i < 9 ==> {
            let (w, s) = #[trigger] boat_types()[i];
            &&& w@.len() >= 2
            &&& s@.len() >= 1
            &&& (s@[0] == 'b' || s@[0] == 'r')
            &&& !(w@[0] == 'm' && w@[1] == 'i')
        },
        forall|i: int, j: int|
            0 <= i < 9 && 0 <= j < 9 && i != j ==> (#[trigger] boat_types()[i]).0@[0] != (#[trigger] boat_types()[j]).0@[0]
                || boat_types()[i].0@[1] != boat_types()[j].0@[1],
        "_"@ == seq!['_'],
        "_chest_"@.len() == 7,
        "_chest_"@[0] == '_',
        "_chest_"@[1] == 'c',
        "minecraft:"@.len() == 10,
        "minecraft:"@[0] == 'm',
        "minecraft:"@[1] == 'i',
{
    reveal_strlit("oak");
    reveal_strlit("spruce");
    reveal_strlit("birch");
    reveal_strlit("jungle");
    reveal_strlit("acacia");
    reveal_strlit("cherry");
    reveal_strlit("dark_oak");
    reveal_strlit("mangrove");
    reveal_strlit("bamboo");
    reveal_strlit("boat");
    reveal_strlit("raft");
    reveal_strlit("_");
    reveal_strlit("_chest_");
    reveal_strlit("minecraft:");
}

/// The first two characters of a name built from table entry `k` are
/// those of its wood.
proof fn lemma_name_head(k: int)
    requires
        0 <= k < 9,
    ensures
        ({
            let (w, s) = boat_types()[k];
            &&& plain_name(w@, s@)[0] == w@[0]
            &&& plain_name(w@, s@)[1] == w@[1]
            &&& chest_name(w@, s@)[0] == w@[0]
            &&& chest_name(w@, s@)[1] == w@[1]
            &&& plain_name(w@, s@) != chest_name(w@, s@)
            &&& !starts_with(plain_name(w@, s@), "minecraft:"@)
            &&& !starts_with(chest_name(w@, s@), "minecraft:"@)
        }),
{
    lemma_table_facts();
    let (w, s) = boat_types()[k];
    let p = plain_name(w@, s@);
    let c = chest_name(w@, s@);
    assert(p[0] == w@[0] && p[1] == w@[1]);
    assert(c[0] == w@[0] && c[1] == w@[1]);
    assert(p[w@.len() as int + 1] == s@[0]);
    assert(c[w@.len() as int + 1] == 'c');
    if starts_with(p, "minecraft:"@) {
        assert(p.subrange(0, 10)[0] == p[0]);
        assert(p.subrange(0, 10)[1] == p[1]);
    }
    if starts_with(c, "minecraft:"@) {
        assert(c.subrange(0, 10)[0] == c[0]);
        assert(c.subrange(0, 10)[1] == c[1]);
    }
}

/// Entries before `k` match neither name of entry `k`.
proof fn lemma_skip_to(k: int, i: int)
    requires
        0 <= i <= k < 9,
    ensures
        ({
            let (w, s) = boat_types()[k];
            &&& base_and_wood_from(plain_name(w@, s@), i) == base_and_wood_from(plain_name(w@, s@), k)
            &&& base_and_wood_from(chest_name(w@, s@), i) == base_and_wood_from(chest_name(w@, s@), k)
        }),
    decreases k - i,
{
    if i < k {
        lemma_table_facts();
        lemma_name_head(k);
        lemma_name_head(i);
        lemma_skip_to(k, i + 1);
        let (w, s) = boat_types()[k];
        let (wi, si) = boat_types()[i];
        assert(plain_name(w@, s@) != plain_name(wi@, si@));
        assert(plain_name(w@, s@) != chest_name(wi@, si@));
        assert(chest_name(w@, s@) != plain_name(wi@, si@));
        assert(chest_name(w@, s@) != chest_name(wi@, si@));
    }
}

/// The names of table entry `k` decode back to its wood.
proof fn lemma_decode(k: int)
    requires
        0 <= k < 9,
    ensures
        ({
            let (w, s) = boat_types()[k];
            &&& base_and_wood(plain_name(w@, s@)) == Some((false, w))
            &&& base_and_wood(chest_name(w@, s@)) == Some((true, w))
        }),
{
    lemma_name_head(k);
    lemma_skip_to(k, 0);
}

/// The entry whose suffix `suffix_for_wood_from(t, i)` finds.
proof fn lemma_suffix_entry(t: Seq<char>, i: int) -> (k: int)
    requires
        0 <= i,
        suffix_for_wood_from(t, i) is Some,
    ensures
        i <= k < boat_types().len(),
        boat_types()[k].0@ == t,
        suffix_for_wood_from(t, i) == Some(boat_types()[k].1),
    decreases boat_types().len() - i,
{
    if boat_types()[i].0@ == t {
        i
    } else {
        lemma_suffix_entry(t, i + 1)
    }
}

/// Splitting a typed boat by its wood and merging it back gives the boat
/// back, where its `Type` names a wood of the table.
pub proof fn law_boat_round_trip(
    old: Map<Seq<char>, NbtValue>,
    mid: Map<Seq<char>, NbtValue>,
    new: Map<Seq<char>, NbtValue>,
)
    requires
        str_of(old, "id"@) == Some("minecraft:boat"@) || str_of(old, "id"@) == Some("minecraft:chest_boat"@),
        str_of(old, "Type"@) matches Some(t) && suffix_for_wood(t) is Some,
        split_boat_id(old) matches Some(nid) && mid.remove("id"@) == old.remove("Type"@).remove("id"@)
            && str_of(mid, "id"@) == Some(nid),
        boat_merged(mid, new),
    ensures
        new.remove("id"@).remove("Type"@) == old.remove("id"@).remove("Type"@),
        str_of(new, "id"@) == str_of(old, "id"@),
        str_of(new, "Type"@) == str_of(old, "Type"@),
{
    let t = str_of(old, "Type"@)->0;
    let k = lemma_suffix_entry(t, 0);
    lemma_decode(k);
    assert(mid.remove("id"@).remove("Type"@) =~= old.remove("id"@).remove("Type"@));
}

/// What this version registers.
pub open spec fn registrations() -> Seq<Registration> {
    seq![
        entry(TypeKey::Entity, VERSION, 0, Action::Walk("minecraft:oak_chest_boat", Walker::ItemLists(&["Items"]))),
        entry(TypeKey::Entity, VERSION, 0, Action::Walk("minecraft:spruce_chest_boat", Walker::ItemLists(&["Items"]))),
        entry(TypeKey::Entity, VERSION, 0, Action::Walk("minecraft:birch_chest_boat", Walker::ItemLists(&["Items"]))),
        entry(TypeKey::Entity, VERSION, 0, Action::Walk("minecraft:jungle_chest_boat", Walker::ItemLists(&["Items"]))),
        entry(TypeKey::Entity, VERSION, 0, Action::Walk("minecraft:acacia_chest_boat", Walker::ItemLists(&["Items"]))),
        entry(TypeKey::Entity, VERSION, 0, Action::Walk("minecraft:cherry_chest_boat", Walker::ItemLists(&["Items"]))),
        entry(TypeKey::Entity, VERSION, 0, Action::Walk("minecraft:dark_oak_chest_boat", Walker::ItemLists(&["Items"]))),
        entry(TypeKey::Entity, VERSION, 0, Action::Walk("minecraft:mangrove_chest_boat", Walker::ItemLists(&["Items"]))),
        entry(TypeKey::Entity, VERSION, 0, Action::Walk("minecraft:bamboo_chest_raft", Walker::ItemLists(&["Items"]))),
        entry(TypeKey::ItemStack, VERSION, 0, Action::Convert(Conv::V4067ForceItemBoatType)),
        entry(TypeKey::Entity, VERSION, 0, Action::Convert(Conv::V4067SplitBoatEntity)),
        entry(TypeKey::Entity, VERSION, 0, Action::Revert(Conv::V4067MergeBoatEntity)),
    ]
}

/// Register this version's walkers and converters.
pub fn register(reg: &mut RegistryBuilder)
    ensures
        final(reg).entries@ == old(reg).entries@ + registrations(),
{
    reg.add(TypeKey::Entity, VERSION, 0, Action::Walk("minecraft:oak_chest_boat", item_lists(&["Items"])));
    reg.add(TypeKey::Entity, VERSION, 0, Action::Walk("minecraft:spruce_chest_boat", item_lists(&["Items"])));
    reg.add(TypeKey::Entity, VERSION, 0, Action::Walk("minecraft:birch_chest_boat", item_lists(&["Items"])));
    reg.add(TypeKey::Entity, VERSION, 0, Action::Walk("minecraft:jungle_chest_boat", item_lists(&["Items"])));
    reg.add(TypeKey::Entity, VERSION, 0, Action::Walk("minecraft:acacia_chest_boat", item_lists(&["Items"])));
    reg.add(TypeKey::Entity, VERSION, 0, Action::Walk("minecraft:cherry_chest_boat", item_lists(&["Items"])));
    reg.add(TypeKey::Entity, VERSION, 0, Action::Walk("minecraft:dark_oak_chest_boat", item_lists(&["Items"])));
    reg.add(TypeKey::Entity, VERSION, 0, Action::Walk("minecraft:mangrove_chest_boat", item_lists(&["Items"])));
    reg.add(TypeKey::Entity, VERSION, 0, Action::Walk("minecraft:bamboo_chest_raft", item_lists(&["Items"])));
    reg.add(TypeKey::ItemStack, VERSION, 0, Action::Convert(Conv::V4067ForceItemBoatType));
    reg.add(TypeKey::Entity, VERSION, 0, Action::Convert(Conv::V4067SplitBoatEntity));
    reg.add(TypeKey::Entity, VERSION, 0, Action::Revert(Conv::V4067MergeBoatEntity));
    proof {
        assert(final(reg).entries@ =~= old(reg).entries@ + registrations());
    }
}

} // verus!
