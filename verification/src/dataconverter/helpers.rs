//! Shared registration helpers and resource-location namespacing.

use vstd::prelude::*;
use super::registry::{entry, Action, Hook, Registration, RegistryBuilder, TypeKey};
use super::dispatch::RenameTable;

verus! {

/// A character allowed in a resource-location path.
pub open spec fn is_path_char(c: char) -> bool {
    ('a' <= c && c <= 'z') || ('0' <= c && c <= '9') || c == '.' || c == '_' || c == '-' || c == '/'
}

/// A character allowed in a resource-location namespace.
pub open spec fn is_namespace_char(c: char) -> bool {
    ('a' <= c && c <= 'z') || ('0' <= c && c <= '9') || c == '.' || c == '_' || c == '-'
}

/// `s` is a non-empty run of path characters.
pub open spec fn is_plain_path(s: Seq<char>) -> bool {
    s.len() > 0 && forall|i: int| 0 <= i < s.len() ==> is_path_char(#[trigger] s[i])
}

/// `NamespaceUtil.correctNamespace`: an unnamespaced, well-formed path gets
/// the `minecraft:` namespace; anything else is returned unchanged.
pub open spec fn namespaced(s: Seq<char>) -> Seq<char> {
    if s.contains(':') {
        s
    } else if is_plain_path(s) {
        "minecraft:"@ + s
    } else {
        s
    }
}

/// Does `s` contain the character `c`?
pub fn has_char(s: &str, c: char) -> (b: bool)
    ensures
        b == s@.contains(c),
{
    let n = s.unicode_len();
    let mut i: usize = 0;
    while i < n
        invariant
            n == s@.len(),
            i <= n,
            forall|j: int| 0 <= j < i ==> s@[j] != c,
        decreases n - i,
    {
        if s.get_char(i) == c {
            return true;
        }
        i = i + 1;
    }
    false
}

/// Is `s` a non-empty run of path characters?
pub fn plain_path(s: &str) -> (b: bool)
    ensures
        b == is_plain_path(s@),
{
    let n = s.unicode_len();
    if n == 0 {
        return false;
    }
    let mut i: usize = 0;
    while i < n
        invariant
            n == s@.len(),
            i <= n,
            forall|j: int| 0 <= j < i ==> is_path_char(#[trigger] s@[j]),
        decreases n - i,
    {
        let c = s.get_char(i);
        let ok = ('a' <= c && c <= 'z') || ('0' <= c && c <= '9') || c == '.' || c == '_' || c == '-' || c == '/';
        if !ok {
            return false;
        }
        i = i + 1;
    }
    true
}

/// `NamespaceUtil.correctNamespace`.
pub fn correct_namespace(value: &str) -> (r: String)
    ensures
        r@ == namespaced(value@),
{
    if has_char(value, ':') {
        return value.to_owned();
    }
    if plain_path(value) {
        let mut r = String::from_str("minecraft:");
        r.append(value);
        r
    } else {
        value.to_owned()
    }
}

/// `NamespaceUtil.correctNamespaceOrNull`: the namespaced form of a
/// well-formed resource location (`ns:path` with namespace and path
/// characters, or a bare path), `None` for anything else.
pub open spec fn namespaced_or_null(s: Seq<char>) -> Option<Seq<char>> {
    if s.contains(':') {
        if exists|i: int| 0 <= i < s.len() && #[trigger] split_ok(s, i) {
            Some(s)
        } else {
            None
        }
    } else if is_plain_path(s) {
        Some("minecraft:"@ + s)
    } else {
        None
    }
}

/// `s[i]` is a colon with namespace characters before it and path
/// characters after it.
pub open spec fn split_ok(s: Seq<char>, i: int) -> bool {
    &&& s[i] == ':'
    &&& forall|j: int| 0 <= j < i ==> is_namespace_char(#[trigger] s[j])
    &&& forall|j: int| i < j < s.len() ==> is_path_char(#[trigger] s[j])
}

/// `NamespaceUtil.correctNamespaceOrNull`.
pub fn correct_namespace_or_null(value: &str) -> (r: Option<String>)
    ensures
        match r {
            Some(x) => namespaced_or_null(value@) == Some(x@),
            None => namespaced_or_null(value@).is_none(),
        },
{
    let n = value.unicode_len();
    let mut colon: Option<usize> = None;
    let mut i: usize = 0;
    while i < n
        invariant
            n == value@.len(),
            i <= n,
            colon is None ==> forall|j: int| 0 <= j < i ==> value@[j] != ':',
            colon matches Some(c) ==> c < n && value@[c as int] == ':' && forall|j: int| 0 <= j < c ==> value@[j] != ':',
        decreases n - i,
    {
        if colon.is_none() && value.get_char(i) == ':' {
            colon = Some(i);
        }
        i = i + 1;
    }
    match colon {
        None => {
            if plain_path(value) {
                let mut r = String::from_str("minecraft:");
                r.append(value);
                Some(r)
            } else {
                None
            }
        },
        Some(c) => {
            proof {
                assert(value@.contains(':'));
            }
            let mut j: usize = 0;
            while j < c
                invariant
                    c < n,
                    n == value@.len(),
                    j <= c,
                    value@[c as int] == ':',
                    forall|k: int| 0 <= k < c ==> value@[k] != ':',
                    forall|k: int| 0 <= k < j ==> is_namespace_char(#[trigger] value@[k]),
                decreases c - j,
            {
                let ch = value.get_char(j);
                let ok = ('a' <= ch && ch <= 'z') || ('0' <= ch && ch <= '9') || ch == '.' || ch == '_' || ch == '-';
                if !ok {
                    proof {
                        assert forall|i: int| 0 <= i < value@.len() implies !#[trigger] split_ok(value@, i) by {
                            if split_ok(value@, i) {
                                if i < c {
                                    assert(value@[i] != ':');
                                } else if i > c {
                                    assert(!is_namespace_char(value@[c as int]));
                                } else {
                                    assert(is_namespace_char(value@[j as int]));
                                }
                            }
                        }
                    }
                    return None;
                }
                j = j + 1;
            }
            let mut j: usize = c + 1;
            while j < n
                invariant
                    c < n,
                    n == value@.len(),
                    c + 1 <= j <= n,
                    value@[c as int] == ':',
                    forall|k: int| 0 <= k < c ==> value@[k] != ':',
                    forall|k: int| 0 <= k < c ==> is_namespace_char(#[trigger] value@[k]),
                    forall|k: int| c < k < j ==> is_path_char(#[trigger] value@[k]),
                decreases n - j,
            {
                let ch = value.get_char(j);
                let ok = ('a' <= ch && ch <= 'z') || ('0' <= ch && ch <= '9') || ch == '.' || ch == '_' || ch == '-' || ch == '/';
                if !ok {
                    proof {
                        assert forall|i: int| 0 <= i < value@.len() implies !#[trigger] split_ok(value@, i) by {
                            if split_ok(value@, i) {
                                if i < c {
                                    assert(value@[i] != ':');
                                } else if i > c {
                                    assert(!is_namespace_char(value@[c as int]));
                                } else {
                                    assert(is_path_char(value@[j as int]));
                                }
                            }
                        }
                    }
                    return None;
                }
                j = j + 1;
            }
            proof {
                assert(split_ok(value@, c as int));
            }
            Some(value.to_owned())
        },
    }
}

/// A fixed rename table of `(old, new)` pairs, by name.
pub fn map_renamer(table: RenameTable) -> (t: RenameTable)
    ensures
        t == table,
{
    table
}

/// The registrations of a rename of ids of the value type `value_ty`, also
/// applied to the id field of the compounds of type `compound_ty`.
pub open spec fn rename_entries(value_ty: TypeKey, compound_ty: TypeKey, version: i32, table: RenameTable) -> Seq<Registration> {
    seq![entry(value_ty, version, 0, Action::Rename(table)), entry(compound_ty, version, 0, Action::Rename(table))]
}

/// Register a rename of item ids at `version`: item names and the `id` of
/// item stacks.
pub fn register_item_rename(reg: &mut RegistryBuilder, version: i32, table: RenameTable)
    ensures
        final(reg).entries@ == old(reg).entries@ + rename_entries(TypeKey::ItemName, TypeKey::ItemStack, version, table),
{
    reg.add(TypeKey::ItemName, version, 0, Action::Rename(table));
    reg.add(TypeKey::ItemStack, version, 0, Action::Rename(table));
    proof {
        assert(final(reg).entries@ =~= old(reg).entries@ + rename_entries(TypeKey::ItemName, TypeKey::ItemStack, version, table));
    }
}

/// Register a rename of block ids at `version`: block names and the `Name`
/// of block states.
pub fn register_block_rename(reg: &mut RegistryBuilder, version: i32, table: RenameTable)
    ensures
        final(reg).entries@ == old(reg).entries@ + rename_entries(TypeKey::BlockName, TypeKey::BlockState, version, table),
{
    reg.add(TypeKey::BlockName, version, 0, Action::Rename(table));
    reg.add(TypeKey::BlockState, version, 0, Action::Rename(table));
    proof {
        assert(final(reg).entries@ =~= old(reg).entries@ + rename_entries(TypeKey::BlockName, TypeKey::BlockState, version, table));
    }
}

/// Register a rename of entity ids at `version`: entity names and the `id`
/// of entities.
pub fn register_entity_rename(reg: &mut RegistryBuilder, version: i32, table: RenameTable)
    ensures
        final(reg).entries@ == old(reg).entries@ + rename_entries(TypeKey::EntityName, TypeKey::Entity, version, table),
{
    reg.add(TypeKey::EntityName, version, 0, Action::Rename(table));
    reg.add(TypeKey::Entity, version, 0, Action::Rename(table));
    proof {
        assert(final(reg).entries@ =~= old(reg).entries@ + rename_entries(TypeKey::EntityName, TypeKey::Entity, version, table));
    }
}

/// The hook that namespaces the string at `key` of a compound.
pub fn enforce_namespaced_id_hook(key: &'static str) -> (h: Hook)
    ensures
        h == Hook::NamespacedId(key),
{
    Hook::NamespacedId(key)
}

/// The hook that namespaces a string value.
pub fn enforce_namespaced_value_hook() -> (h: Hook)
    ensures
        h == Hook::NamespacedValue,
{
    Hook::NamespacedValue
}

} // verus!

verus! {

/// An item compound holds nothing: its namespaced `id` (default
/// `minecraft:air`) is `minecraft:air`, or its `count` (default 0) is not
/// positive.
pub open spec fn holds_nothing(item: crate::nbt::NbtMap) -> bool {
    let id = match crate::nbt::str_of(item@, "id"@) {
        Some(s) => s,
        None => "minecraft:air"@,
    };
    let count = match crate::nbt::int_of(item@, "count"@) {
        Some(c) => c,
        None => 0i32,
    };
    namespaced(id) == "minecraft:air"@ || count <= 0
}

/// Does the item compound hold nothing?
pub fn item_holds_nothing(item: &crate::nbt::NbtMap) -> (b: bool)
    ensures
        b == holds_nothing(*item),
{
    let id = correct_namespace(match item.get_string("id") {
        Some(s) => s,
        None => "minecraft:air",
    });
    let count = match item.get_i32("count") {
        Some(c) => c,
        None => 0,
    };
    crate::text::str_eq(id.as_str(), "minecraft:air") || count <= 0
}

} // verus!
