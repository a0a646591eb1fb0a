//! V4307: the per-component `show_in_tooltip` flags and the
//! `minecraft:hide_tooltip` / `minecraft:hide_additional_tooltip` markers
//! move into one `minecraft:tooltip_display` component, and the wrapped
//! components unwrap to their inner value. The data components walker
//! descends every nested typed structure.

use vstd::prelude::*;
use super::super::registry::state_pair;
use crate::nbt::{bool_of, is_str, lemma_put_back, list_of, lookup, map_of, within, NbtMap, NbtValue};
use crate::loss::{appended_at, lemma_appended_chain, lemma_appended_none, lemma_appended_one, one_more_with, report, report_loss, LossEntry, LossKind, LossReport, Severity};
use crate::text::str_eq;
use super::super::registry::{convert_map, entry, lemma_report_grows_trans, report_grows, Action, Registration, Registry, RegistryBuilder, TypeKey, Walker};
use super::super::dispatch::{Conv, CustomWalker};
use super::super::walker::{convert, convert_list, convert_list_path, convert_value, convert_value_list, value_list_at_path_converted};
use super::super::registry::{at_path_converted, map_converted, value_at_path_converted};
use super::super::walker::lemma_replaced_at;
use super::v4059::{components_walked, component_steps, page_converted, pages_done, pages_trace, pages_walked, raw_filtered_converted};
use super::super::walker::{lemma_steps_push, equippable_done, nested_done, steps_done, WalkStep};
use super::super::registry::compound_of;

verus! {

/// This version.
pub const VERSION: i32 = 4307;

/// The components `minecraft:hide_additional_tooltip` hides wholesale.
pub open spec fn additional_components() -> Seq<&'static str> {
    seq![
        "minecraft:banner_patterns",
        "minecraft:bees",
        "minecraft:block_entity_data",
        "minecraft:block_state",
        "minecraft:bundle_contents",
        "minecraft:charged_projectiles",
        "minecraft:container",
        "minecraft:container_loot",
        "minecraft:firework_explosion",
        "minecraft:fireworks",
        "minecraft:instrument",
        "minecraft:map_id",
        "minecraft:painting/variant",
        "minecraft:pot_decorations",
        "minecraft:potion_contents",
        "minecraft:tropical_fish/pattern",
        "minecraft:written_book_content",
    ]
}

fn additional_component(i: usize) -> (s: &'static str)
    requires
        i < 17,
    ensures
        s == additional_components()[i as int],
{
    let a: [&'static str; 17] = [
        "minecraft:banner_patterns",
        "minecraft:bees",
        "minecraft:block_entity_data",
        "minecraft:block_state",
        "minecraft:bundle_contents",
        "minecraft:charged_projectiles",
        "minecraft:container",
        "minecraft:container_loot",
        "minecraft:firework_explosion",
        "minecraft:fireworks",
        "minecraft:instrument",
        "minecraft:map_id",
        "minecraft:painting/variant",
        "minecraft:pot_decorations",
        "minecraft:potion_contents",
        "minecraft:tropical_fish/pattern",
        "minecraft:written_book_content",
    ];
    a[i]
}

/// `p` is one of the additional tooltip components.
pub open spec fn is_additional(p: Seq<char>) -> bool {
    exists|i: int| 0 <= i < 17 && p == (#[trigger] additional_components()[i])@
}

fn additional(p: &str) -> (b: bool)
    ensures
        b == is_additional(p@),
{
    let mut i: usize = 0;
    while i < 17
        invariant
            i <= 17,
            forall|j: int| 0 <= j < i ==> p@ != (#[trigger] additional_components()[j])@,
        decreases 17 - i,
    {
        if str_eq(p, additional_component(i)) {
            return true;
        }
        i = i + 1;
    }
    false
}

/// `h` with `p` added at the end unless already there (insertion-ordered
/// set).
pub open spec fn add_hidden(h: Seq<Seq<char>>, p: Seq<char>) -> Seq<Seq<char>> {
    if h.contains(p) { h } else { h.push(p) }
}

fn push_hidden(hidden: &mut Vec<String>, path: &str)
    ensures
        texts(final(hidden)@) == add_hidden(texts(old(hidden)@), path@),
{
    let mut i: usize = 0;
    while i < hidden.len()
        invariant
            i <= hidden@.len(),
            hidden@ == old(hidden)@,
            forall|j: int| 0 <= j < i ==> texts(hidden@)[j] != path@,
        decreases hidden@.len() - i,
    {
        if str_eq(hidden[i].as_str(), path) {
            proof {
                assert(texts(hidden@)[i as int] == path@);
            }
            return;
        }
        i = i + 1;
    }
    proof {
        assert(!texts(hidden@).contains(path@));
    }
    hidden.push(String::from_str(path));
    proof {
        assert(texts(hidden@) =~= texts(old(hidden)@).push(path@));
    }
}

/// The texts of some strings.
pub open spec fn texts(v: Seq<String>) -> Seq<Seq<char>> {
    v.map_values(|s: String| s@)
}

/// The component says it is hidden from the tooltip.
pub open spec fn hides(c: Map<Seq<char>, NbtValue>) -> bool {
    bool_of(c, "show_in_tooltip"@) == Some(false)
}

/// The hidden list after a component at `path` reported its flag.
pub open spec fn hidden_after(h: Seq<Seq<char>>, c: Map<Seq<char>, NbtValue>, path: Seq<char>) -> Seq<Seq<char>> {
    if hides(c) { add_hidden(h, path) } else { h }
}

/// The block predicates at `path` unwrap to their `predicates` value.
pub open spec fn unwrapped_predicates(
    r: Map<Seq<char>, NbtValue>,
    r2: Map<Seq<char>, NbtValue>,
    h: Seq<Seq<char>>,
    h2: Seq<Seq<char>>,
    path: Seq<char>,
) -> bool {
    match map_of(r, path) {
        Some(c) => match lookup(c@, "predicates"@) {
            Some(p) => r2 == r.insert(path, p) && h2 == hidden_after(h, c@, path),
            None => r2 == r && h2 == h,
        },
        None => r2 == r && h2 == h,
    }
}

fn unwrap_block_predicates(root: &mut NbtMap, path: &str, hidden: &mut Vec<String>)
    ensures
        unwrapped_predicates(old(root)@, final(root)@, texts(old(hidden)@), texts(final(hidden)@), path@),
{
    let (has_predicates, show) = match root.get_map(path) {
        Some(c) => (c.has_key("predicates"), match c.get_bool("show_in_tooltip") {
            Some(b) => b,
            None => true,
        }),
        None => return,
    };
    if !has_predicates {
        return;
    }
    match root.take_map(path) {
        Some(mut c) => {
            let ghost mid = root@;
            match c.take("predicates") {
                Some(p) => {
                    root.set(path, p);
                    proof {
                        lemma_put_back(old(root)@, mid, path@, p);
                    }
                },
                None => {},
            }
        },
        None => {},
    }
    if !show {
        push_hidden(hidden, path);
    }
}

/// The component at `path` loses `show_in_tooltip`.
pub open spec fn updated_component(
    r: Map<Seq<char>, NbtValue>,
    r2: Map<Seq<char>, NbtValue>,
    h: Seq<Seq<char>>,
    h2: Seq<Seq<char>>,
    path: Seq<char>,
) -> bool {
    match map_of(r, path) {
        Some(c) => within(r, r2, path, |c: Map<Seq<char>, NbtValue>, c2: Map<Seq<char>, NbtValue>| c2 == c.remove("show_in_tooltip"@))
            && h2 == hidden_after(h, c@, path),
        None => r2 == r && h2 == h,
    }
}

fn update_component(root: &mut NbtMap, path: &str, hidden: &mut Vec<String>)
    ensures
        updated_component(old(root)@, final(root)@, texts(old(hidden)@), texts(final(hidden)@), path@),
{
    match root.take_map(path) {
        Some(mut c) => {
            let ghost mid = root@;
            let show = match c.get_bool("show_in_tooltip") {
                Some(b) => b,
                None => true,
            };
            if !show {
                push_hidden(hidden, path);
            }
            c.take("show_in_tooltip");
            root.set_map(path, c);
            proof {
                lemma_put_back(old(root)@, mid, path@, NbtValue::Compound(c));
            }
        },
        None => {},
    }
}

/// The component at `cpath` loses `show_in_tooltip` and unwraps to its
/// `upath` value when it has one.
pub open spec fn unwrapped_component(
    r: Map<Seq<char>, NbtValue>,
    r2: Map<Seq<char>, NbtValue>,
    h: Seq<Seq<char>>,
    h2: Seq<Seq<char>>,
    cpath: Seq<char>,
    upath: Seq<char>,
) -> bool {
    match map_of(r, cpath) {
        Some(c) => h2 == hidden_after(h, c@, cpath) && match lookup(c@.remove("show_in_tooltip"@), upath) {
            Some(w) => r2 == r.insert(cpath, w),
            None => within(r, r2, cpath, |c: Map<Seq<char>, NbtValue>, c2: Map<Seq<char>, NbtValue>| c2 == c.remove("show_in_tooltip"@)),
        },
        None => r2 == r && h2 == h,
    }
}

fn update_component_and_unwrap(root: &mut NbtMap, cpath: &str, upath: &str, hidden: &mut Vec<String>)
    ensures
        unwrapped_component(old(root)@, final(root)@, texts(old(hidden)@), texts(final(hidden)@), cpath@, upath@),
{
    match root.take_map(cpath) {
        Some(mut c) => {
            let ghost mid = root@;
            let show = match c.get_bool("show_in_tooltip") {
                Some(b) => b,
                None => true,
            };
            if !show {
                push_hidden(hidden, cpath);
            }
            c.take("show_in_tooltip");
            let ghost c1 = c@;
            match c.take(upath) {
                Some(w) => {
                    root.set(cpath, w);
                    proof {
                        lemma_put_back(old(root)@, mid, cpath@, w);
                    }
                },
                None => {
                    proof {
                        assert(c@ =~= c1);
                    }
                    root.set_map(cpath, c);
                    proof {
                        lemma_put_back(old(root)@, mid, cpath@, NbtValue::Compound(c));
                    }
                },
            }
        },
        None => {},
    }
}

/// The hidden list after `minecraft:hide_additional_tooltip`: the first `n`
/// additional components present in `r` are added.
pub open spec fn add_present(h: Seq<Seq<char>>, r: Map<Seq<char>, NbtValue>, n: int) -> Seq<Seq<char>>
    decreases n,
{
    if n <= 0 {
        h
    } else {
        let h1 = add_present(h, r, n - 1);
        let p = additional_components()[n - 1]@;
        if r.dom().contains(p) { add_hidden(h1, p) } else { h1 }
    }
}

/// Every forward step before the tooltip display is written: the states
/// `r` and hidden lists `h` after each of the nine component steps.
pub open spec fn forward_steps(r: Seq<Map<Seq<char>, NbtValue>>, h: Seq<Seq<Seq<char>>>) -> bool {
    &&& r.len() == 10 && h.len() == 10
    &&& h[0] == Seq::<Seq<char>>::empty()
    &&& unwrapped_predicates(r[0], r[1], h[0], h[1], "minecraft:can_break"@)
    &&& unwrapped_predicates(r[1], r[2], h[1], h[2], "minecraft:can_place_on"@)
    &&& updated_component(r[2], r[3], h[2], h[3], "minecraft:trim"@)
    &&& updated_component(r[3], r[4], h[3], h[4], "minecraft:unbreakable"@)
    &&& unwrapped_component(r[4], r[5], h[4], h[5], "minecraft:dyed_color"@, "rgb"@)
    &&& unwrapped_component(r[5], r[6], h[5], h[6], "minecraft:attribute_modifiers"@, "modifiers"@)
    &&& unwrapped_component(r[6], r[7], h[6], h[7], "minecraft:enchantments"@, "levels"@)
    &&& unwrapped_component(r[7], r[8], h[7], h[8], "minecraft:stored_enchantments"@, "levels"@)
    &&& unwrapped_component(r[8], r[9], h[8], h[9], "minecraft:jukebox_playable"@, "song"@)
}

/// The last forward step from the state `r` and hidden list `h`: the two
/// markers are consumed and, when anything is hidden, the tooltip display is
/// written.
pub open spec fn tooltip_written(r: Map<Seq<char>, NbtValue>, h: Seq<Seq<char>>, after: Map<Seq<char>, NbtValue>) -> bool {
    let hide = r.dom().contains("minecraft:hide_tooltip"@);
    let h2 = if r.dom().contains("minecraft:hide_additional_tooltip"@) { add_present(h, r, 17) } else { h };
    let base = r.remove("minecraft:hide_tooltip"@).remove("minecraft:hide_additional_tooltip"@);
    if hide || h2.len() > 0 {
        &&& after == base.insert("minecraft:tooltip_display"@, after["minecraft:tooltip_display"@])
        &&& map_of(after, "minecraft:tooltip_display"@) matches Some(t)
        &&& t@.dom() == set!["hide_tooltip"@, "hidden_components"@]
        &&& t@["hide_tooltip"@] == NbtValue::Byte(if hide { 1i8 } else { 0i8 })
        &&& list_of(t@, "hidden_components"@) matches Some(l)
        &&& l.len() == h2.len()
        &&& forall|i: int| 0 <= i < l.len() ==> is_str(#[trigger] l[i], h2[i])
    } else {
        after == base
    }
}

/// What [`migrate_tooltips`] makes of `data_in`.
pub open spec fn migrate_tooltips_effect(data_in: NbtMap, data_out: NbtMap) -> bool {
    &&& exists|r: Seq<Map<Seq<char>, NbtValue>>, h: Seq<Seq<Seq<char>>>|
                #[trigger] forward_steps(r, h) && r[0] == data_in@ && tooltip_written(r[9], h[9], data_out@)
}

/// Forward: migrate the tooltip flags and unwrap the wrapped components.
pub fn migrate_tooltips(root: &mut NbtMap)
    ensures
        exists|r: Seq<Map<Seq<char>, NbtValue>>, h: Seq<Seq<Seq<char>>>|
            #[trigger] forward_steps(r, h) && r[0] == old(root)@ && tooltip_written(r[9], h[9], final(root)@),
{
    let mut hidden: Vec<String> = Vec::new();
    let ghost mut rs: Seq<Map<Seq<char>, NbtValue>> = seq![root@];
    let ghost mut hs: Seq<Seq<Seq<char>>> = seq![texts(hidden@)];
    proof {
        assert(texts(hidden@) =~= Seq::<Seq<char>>::empty());
    }
    unwrap_block_predicates(root, "minecraft:can_break", &mut hidden);
    proof { rs = rs.push(root@); hs = hs.push(texts(hidden@)); }
    unwrap_block_predicates(root, "minecraft:can_place_on", &mut hidden);
    proof { rs = rs.push(root@); hs = hs.push(texts(hidden@)); }
    update_component(root, "minecraft:trim", &mut hidden);
    proof { rs = rs.push(root@); hs = hs.push(texts(hidden@)); }
    update_component(root, "minecraft:unbreakable", &mut hidden);
    proof { rs = rs.push(root@); hs = hs.push(texts(hidden@)); }
    update_component_and_unwrap(root, "minecraft:dyed_color", "rgb", &mut hidden);
    proof { rs = rs.push(root@); hs = hs.push(texts(hidden@)); }
    update_component_and_unwrap(root, "minecraft:attribute_modifiers", "modifiers", &mut hidden);
    proof { rs = rs.push(root@); hs = hs.push(texts(hidden@)); }
    update_component_and_unwrap(root, "minecraft:enchantments", "levels", &mut hidden);
    proof { rs = rs.push(root@); hs = hs.push(texts(hidden@)); }
    update_component_and_unwrap(root, "minecraft:stored_enchantments", "levels", &mut hidden);
    proof { rs = rs.push(root@); hs = hs.push(texts(hidden@)); }
    update_component_and_unwrap(root, "minecraft:jukebox_playable", "song", &mut hidden);
    proof {
        rs = rs.push(root@);
        hs = hs.push(texts(hidden@));
        assert(forward_steps(rs, hs));
    }
    let ghost r9 = root@;
    let ghost h9 = texts(hidden@);
    let hide_tooltip = root.has_key("minecraft:hide_tooltip");
    let hide_additional_tooltip = root.has_key("minecraft:hide_additional_tooltip");
    if hide_additional_tooltip {
        let mut i: usize = 0;
        while i < 17
            invariant
                i <= 17,
                root@ == r9,
                texts(hidden@) == add_present(h9, r9, i as int),
            decreases 17 - i,
        {
            let c = additional_component(i);
            if root.has_key(c) {
                push_hidden(&mut hidden, c);
            }
            i = i + 1;
        }
    }
    let ghost h10 = texts(hidden@);
    root.take("minecraft:hide_tooltip");
    root.take("minecraft:hide_additional_tooltip");
    if hide_tooltip || hidden.len() > 0 {
        let mut tooltip_display = NbtMap::new();
        tooltip_display.set_bool("hide_tooltip", hide_tooltip);
        let mut list: Vec<NbtValue> = Vec::new();
        let n = hidden.len();
        let mut rest = hidden;
        let mut i: usize = 0;
        while i < n
            invariant
                i <= n,
                n == h10.len(),
                texts(rest@) == h10.skip(i as int),
                rest@.len() == n - i,
                list@.len() == i,
                forall|j: int| 0 <= j < i ==> is_str(#[trigger] list@[j], h10[j]),
            decreases n - i,
        {
            proof {
                assert(texts(rest@)[0] == rest@[0]@);
                assert(h10.skip(i as int)[0] == h10[i as int]);
            }
            let ghost before = rest@;
            let s = rest.remove(0);
            proof {
                assert(rest@ =~= before.subrange(1, before.len() as int));
                assert(s@ == h10[i as int]);
                assert forall|j: int| 0 <= j < rest@.len() implies texts(rest@)[j] == h10.skip(i + 1)[j] by {
                    assert(texts(rest@)[j] == rest@[j]@);
                    assert(rest@[j] == before[j + 1]);
                    assert(texts(before)[j + 1] == before[j + 1]@);
                    assert(texts(before)[j + 1] == h10.skip(i as int)[j + 1]);
                }
                assert(texts(rest@) =~= h10.skip(i + 1));
            }
            list.push(NbtValue::String(s));
            i = i + 1;
        }
        tooltip_display.set_list("hidden_components", list);
        proof {
            reveal_strlit("hide_tooltip");
            reveal_strlit("hidden_components");
            assert("hide_tooltip"@[3] != "hidden_components"@[3]);
            assert(tooltip_display@.dom() =~= set!["hide_tooltip"@, "hidden_components"@]);
        }
        root.set_map("minecraft:tooltip_display", tooltip_display);
    }
    proof {
        assert(tooltip_written(r9, h9, root@));
    }
}

/// A value the forward unwrapped goes back under `inner_key`.
pub open spec fn rewrapped(r: Map<Seq<char>, NbtValue>, r2: Map<Seq<char>, NbtValue>, path: Seq<char>, key: Seq<char>) -> bool {
    if r.dom().contains(path) {
        &&& r2 == r.insert(path, r2[path])
        &&& map_of(r2, path) matches Some(c)
        &&& c@ == Map::<Seq<char>, NbtValue>::empty().insert(key, r[path])
    } else {
        r2 == r
    }
}

fn rewrap_under(root: &mut NbtMap, path: &str, inner_key: &str)
    ensures
        rewrapped(old(root)@, final(root)@, path@, inner_key@),
{
    match root.take(path) {
        Some(value) => {
            let mut component = NbtMap::new();
            component.set(inner_key, value);
            root.set_map(path, component);
            proof {
                assert(root@ =~= old(root)@.insert(path@, root@[path@]));
            }
        },
        None => {
            proof {
                assert(root@ =~= old(root)@);
            }
        },
    }
}

/// One of the nine components that carried their own flag.
pub open spec fn is_flag_component(p: Seq<char>) -> bool {
    p == "minecraft:can_break"@ || p == "minecraft:can_place_on"@ || p == "minecraft:trim"@ || p == "minecraft:unbreakable"@
        || p == "minecraft:dyed_color"@ || p == "minecraft:attribute_modifiers"@ || p == "minecraft:enchantments"@
        || p == "minecraft:stored_enchantments"@ || p == "minecraft:jukebox_playable"@
}

fn flag_component(p: &str) -> (b: bool)
    ensures
        b == is_flag_component(p@),
{
    str_eq(p, "minecraft:can_break") || str_eq(p, "minecraft:can_place_on") || str_eq(p, "minecraft:trim")
        || str_eq(p, "minecraft:unbreakable") || str_eq(p, "minecraft:dyed_color")
        || str_eq(p, "minecraft:attribute_modifiers") || str_eq(p, "minecraft:enchantments")
        || str_eq(p, "minecraft:stored_enchantments") || str_eq(p, "minecraft:jukebox_playable")
}

/// The texts of the string items of a list.
pub open spec fn string_items(l: Seq<NbtValue>) -> Seq<Seq<char>>
    decreases l.len(),
{
    if l.len() == 0 {
        Seq::empty()
    } else {
        let rest = string_items(l.drop_last());
        match l.last() {
            NbtValue::String(s) => rest.push(s@),
            _ => rest,
        }
    }
}

/// A hidden path is a loss: a flag component without a component to carry
/// the flag, or a path with no earlier form at all.
pub open spec fn is_lost_path(r: Map<Seq<char>, NbtValue>, p: Seq<char>) -> bool {
    if is_flag_component(p) { map_of(r, p).is_none() } else { !is_additional(p) }
}

/// Why the hidden path `p` is lost.
pub open spec fn lost_message(p: Seq<char>) -> Seq<char> {
    if is_flag_component(p) {
        "hidden component path "@ + p + " has no component to carry legacy show_in_tooltip=false; dropping it"@
    } else {
        "hidden component path "@ + p + " has no pre-4307 representation; dropping it"@
    }
}

/// What restoring the first `n` hidden paths reports: one loss per lost
/// path, in order.
pub open spec fn lost_tags(r: Map<Seq<char>, NbtValue>, hidden: Seq<Seq<char>>, n: int) -> Seq<(LossKind, Severity, Seq<char>)>
    decreases n,
{
    if n <= 0 {
        Seq::empty()
    } else {
        lost_tags(r, hidden, n - 1) + if is_lost_path(r, hidden[n - 1]) {
            seq![(LossKind::UnsupportedInTarget, Severity::Loss, lost_message(hidden[n - 1]))]
        } else {
            Seq::empty()
        }
    }
}

/// How many of the first `n` hidden paths are additional components.
pub open spec fn additional_count(hidden: Seq<Seq<char>>, n: int) -> int
    decreases n,
{
    if n <= 0 {
        0
    } else {
        additional_count(hidden, n - 1) + if is_additional(hidden[n - 1]) { 1int } else { 0int }
    }
}

/// How many of the first `n` additional components are present in `r`.
pub open spec fn present_count(r: Map<Seq<char>, NbtValue>, n: int) -> int
    decreases n,
{
    if n <= 0 {
        0
    } else {
        present_count(r, n - 1) + if r.dom().contains(additional_components()[n - 1]@) { 1int } else { 0int }
    }
}

/// A hidden path's flag state over the compounds `wm` once the paths of
/// `prefix` were restored: a processed flag component carries
/// `show_in_tooltip` false, anything else is as it was.
pub open spec fn flag_state(wm: Map<Seq<char>, NbtValue>, r: Map<Seq<char>, NbtValue>, prefix: Seq<Seq<char>>, k: Seq<char>) -> bool {
    if is_flag_component(k) && prefix.contains(k) && map_of(wm, k).is_some() {
        map_of(r, k) matches Some(c2) && c2@ == map_of(wm, k).unwrap()@.insert("show_in_tooltip"@, NbtValue::Byte(0))
    } else {
        r[k] == wm[k]
    }
}

/// The components after the flags of `hidden` are restored over `wm`.
pub open spec fn flags_restored(wm: Map<Seq<char>, NbtValue>, r: Map<Seq<char>, NbtValue>, hidden: Seq<Seq<char>>) -> bool {
    &&& r.dom() == wm.dom()
    &&& forall|k: Seq<char>| #[trigger] wm.dom().contains(k) ==> flag_state(wm, r, hidden, k)
}

/// The nested components rewrapped, in the reverse's order.
pub open spec fn rewrap_steps(r: Seq<Map<Seq<char>, NbtValue>>) -> bool {
    &&& r.len() == 8
    &&& rewrapped(r[0], r[1], "minecraft:can_break"@, "predicates"@)
    &&& rewrapped(r[1], r[2], "minecraft:can_place_on"@, "predicates"@)
    &&& rewrapped(r[2], r[3], "minecraft:dyed_color"@, "rgb"@)
    &&& rewrapped(r[3], r[4], "minecraft:attribute_modifiers"@, "modifiers"@)
    &&& rewrapped(r[4], r[5], "minecraft:enchantments"@, "levels"@)
    &&& rewrapped(r[5], r[6], "minecraft:stored_enchantments"@, "levels"@)
    &&& rewrapped(r[6], r[7], "minecraft:jukebox_playable"@, "song"@)
}

/// Some hidden path among the first `n` is an additional component that is
/// no flag component.
pub open spec fn saw_additional(hidden: Seq<Seq<char>>, n: int) -> bool
    decreases n,
{
    if n <= 0 {
        false
    } else {
        saw_additional(hidden, n - 1) || (!is_flag_component(hidden[n - 1]) && is_additional(hidden[n - 1]))
    }
}

/// The hidden paths of a tooltip display.
pub open spec fn hidden_of(t: Map<Seq<char>, NbtValue>) -> Seq<Seq<char>> {
    match list_of(t, "hidden_components"@) {
        Some(l) => string_items(l),
        None => Seq::empty(),
    }
}

/// The decoding of tooltip display `t` taken from `r7`, through the
/// intermediate states: `wm` with the `hide_tooltip` marker, `rr` with the
/// flags restored, and the report `mid` after the per-path losses.
pub open spec fn decoded_with(
    r7: Map<Seq<char>, NbtValue>,
    t: Map<Seq<char>, NbtValue>,
    wm: Map<Seq<char>, NbtValue>,
    rr: Map<Seq<char>, NbtValue>,
    mid: Seq<LossEntry>,
    after: Map<Seq<char>, NbtValue>,
    r0: Seq<LossEntry>,
    r1: Seq<LossEntry>,
) -> bool {
    let base = r7.remove("minecraft:tooltip_display"@);
    let hidden = hidden_of(t);
    let saw = saw_additional(hidden, hidden.len() as int);
    &&& if bool_of(t, "hide_tooltip"@) == Some(true) {
        wm == base.insert("minecraft:hide_tooltip"@, wm["minecraft:hide_tooltip"@])
            && crate::nbt::is_empty_compound(wm["minecraft:hide_tooltip"@])
    } else {
        wm == base
    }
    &&& flags_restored(wm, rr, hidden)
    &&& appended_at(r0, mid, VERSION, lost_tags(wm, hidden, hidden.len() as int))
    &&& if saw {
        &&& after == rr.insert("minecraft:hide_additional_tooltip"@, after["minecraft:hide_additional_tooltip"@])
        &&& crate::nbt::is_empty_compound(after["minecraft:hide_additional_tooltip"@])
        &&& if additional_count(hidden, hidden.len() as int) != present_count(rr, 17) {
            one_more_with(mid, r1, VERSION, LossKind::FingerprintCollapse, Severity::Approximated,
                "hidden_components contains only a subset of present additional-tooltip components; restoring legacy hide_additional_tooltip marker hides all of them"@)
        } else {
            r1 == mid
        }
    } else {
        after == rr && r1 == mid
    }
}

/// The reverse from the rewrapped state `r7`: the tooltip display is
/// decoded into the markers and the per-component flags, with a loss per
/// hidden path that has no earlier form and an approximation when only some
/// of the present additional components were hidden.
pub open spec fn tooltip_decoded(
    r7: Map<Seq<char>, NbtValue>,
    after: Map<Seq<char>, NbtValue>,
    r0: Seq<LossEntry>,
    r1: Seq<LossEntry>,
) -> bool {
    match lookup(r7, "minecraft:tooltip_display"@) {
        Some(NbtValue::Compound(t)) => exists|wm: Map<Seq<char>, NbtValue>, rr: Map<Seq<char>, NbtValue>, mid: Seq<LossEntry>|
            #[trigger] decoded_with(r7, t@, wm, rr, mid, after, r0, r1),
        _ => after == r7 && r1 == r0,
    }
}

/// One more hidden path restored keeps the flag states.
proof fn lemma_restore_step(
    wm: Map<Seq<char>, NbtValue>,
    before: Map<Seq<char>, NbtValue>,
    after: Map<Seq<char>, NbtValue>,
    hs: Seq<Seq<char>>,
    i: int,
)
    requires
        0 <= i < hs.len(),
        before.dom() == wm.dom(),
        forall|k: Seq<char>| #[trigger] wm.dom().contains(k) ==> flag_state(wm, before, hs.take(i), k),
        after.dom() == before.dom(),
        if is_flag_component(hs[i]) && map_of(before, hs[i]).is_some() {
            within(before, after, hs[i], |c: Map<Seq<char>, NbtValue>, c2: Map<Seq<char>, NbtValue>| c2 == c.insert("show_in_tooltip"@, NbtValue::Byte(0)))
        } else {
            after == before
        },
    ensures
        forall|k: Seq<char>| #[trigger] wm.dom().contains(k) ==> flag_state(wm, after, hs.take(i + 1), k),
        is_lost_path(before, hs[i]) == is_lost_path(wm, hs[i]),
{
    let p = hs[i];
    assert(hs.take(i + 1) =~= hs.take(i).push(p));
    assert(is_lost_path(before, p) == is_lost_path(wm, p)) by {
        if is_flag_component(p) {
            if wm.dom().contains(p) {
                assert(flag_state(wm, before, hs.take(i), p));
            }
        }
    }
    assert forall|k: Seq<char>| #[trigger] wm.dom().contains(k) implies flag_state(wm, after, hs.take(i + 1), k) by {
        assert(flag_state(wm, before, hs.take(i), k));
        if k == p {
            assert(hs.take(i + 1).contains(k)) by {
                assert(hs.take(i + 1)[i] == k);
            }
            if is_flag_component(k) && map_of(wm, k).is_some() {
                let w = map_of(wm, k).unwrap()@.insert("show_in_tooltip"@, NbtValue::Byte(0));
                assert(map_of(before, k).is_some());
                let cb = map_of(before, k).unwrap();
                assert(map_of(after, k).is_some());
                let ca = map_of(after, k).unwrap();
                assert(ca@ == cb@.insert("show_in_tooltip"@, NbtValue::Byte(0)));
                if hs.take(i).contains(k) {
                    assert(cb@ == w);
                    assert(ca@ =~= w);
                } else {
                    assert(cb@ == map_of(wm, k).unwrap()@);
                }
            } else {
                assert(after == before);
            }
        } else {
            assert(hs.take(i + 1).contains(k) == hs.take(i).contains(k)) by {
                if hs.take(i + 1).contains(k) {
                    let j = choose|j: int| 0 <= j < i + 1 && #[trigger] hs.take(i + 1)[j] == k;
                    assert(j < i);
                    assert(hs.take(i)[j] == k);
                }
                if hs.take(i).contains(k) {
                    let j = choose|j: int| 0 <= j < i && #[trigger] hs.take(i)[j] == k;
                    assert(hs.take(i + 1)[j] == k);
                }
            }
            if is_flag_component(p) && map_of(before, p).is_some() {
                assert(after.remove(p).dom().contains(k));
                assert(after.remove(p)[k] == before.remove(p)[k]);
            }
            assert(after[k] == before[k]);
        }
    }
}

/// Restore the flag of one hidden path, or record its loss.
fn restore_hidden_path(root: &mut NbtMap, path: &str, rep: &mut LossReport, saw: &mut bool)
    ensures
        final(root)@.dom() == old(root)@.dom(),
        if is_flag_component(path@) && map_of(old(root)@, path@).is_some() {
            within(old(root)@, final(root)@, path@, |c: Map<Seq<char>, NbtValue>, c2: Map<Seq<char>, NbtValue>| c2 == c.insert("show_in_tooltip"@, NbtValue::Byte(0)))
        } else {
            final(root)@ == old(root)@
        },
        if is_lost_path(old(root)@, path@) {
            one_more_with(old(rep).entries@, final(rep).entries@, VERSION, LossKind::UnsupportedInTarget, Severity::Loss,
                if is_flag_component(path@) {
                    "hidden component path "@ + path@ + " has no component to carry legacy show_in_tooltip=false; dropping it"@
                } else {
                    "hidden component path "@ + path@ + " has no pre-4307 representation; dropping it"@
                })
        } else {
            final(rep).entries@ == old(rep).entries@
        },
        *final(saw) == (*old(saw) || (!is_flag_component(path@) && is_additional(path@))),
{
    if flag_component(path) {
        match root.take_map(path) {
            Some(mut c) => {
                let ghost mid = root@;
                c.set_bool("show_in_tooltip", false);
                root.set_map(path, c);
                proof {
                    lemma_put_back(old(root)@, mid, path@, NbtValue::Compound(c));
                }
            },
            None => {
                let mut msg = String::from_str("hidden component path ");
                msg.append(path);
                msg.append(" has no component to carry legacy show_in_tooltip=false; dropping it");
                report_loss(rep, VERSION, LossKind::UnsupportedInTarget, Severity::Loss, msg);
            },
        }
    } else if additional(path) {
        *saw = true;
    } else {
        let mut msg = String::from_str("hidden component path ");
        msg.append(path);
        msg.append(" has no pre-4307 representation; dropping it");
        report_loss(rep, VERSION, LossKind::UnsupportedInTarget, Severity::Loss, msg);
    }
}

/// What [`restore_tooltips`] makes of `data_in` and the report `rep_in`.
pub open spec fn restore_tooltips_effect(data_in: NbtMap, data_out: NbtMap, rep_in: LossReport, rep_out: LossReport) -> bool {
    &&& exists|r: Seq<Map<Seq<char>, NbtValue>>| #[trigger] rewrap_steps(r) && r[0] == data_in@
                && tooltip_decoded(r[7], data_out@, rep_in.entries@, rep_out.entries@)
}

/// Reverse: rewrap the unwrapped components and decode the tooltip display.
pub fn restore_tooltips(root: &mut NbtMap, rep: &mut LossReport)
    ensures
        exists|r: Seq<Map<Seq<char>, NbtValue>>| #[trigger] rewrap_steps(r) && r[0] == old(root)@
            && tooltip_decoded(r[7], final(root)@, old(rep).entries@, final(rep).entries@),
{
    let ghost mut rs: Seq<Map<Seq<char>, NbtValue>> = seq![root@];
    rewrap_under(root, "minecraft:can_break", "predicates");
    proof { rs = rs.push(root@); }
    rewrap_under(root, "minecraft:can_place_on", "predicates");
    proof { rs = rs.push(root@); }
    rewrap_under(root, "minecraft:dyed_color", "rgb");
    proof { rs = rs.push(root@); }
    rewrap_under(root, "minecraft:attribute_modifiers", "modifiers");
    proof { rs = rs.push(root@); }
    rewrap_under(root, "minecraft:enchantments", "levels");
    proof { rs = rs.push(root@); }
    rewrap_under(root, "minecraft:stored_enchantments", "levels");
    proof { rs = rs.push(root@); }
    rewrap_under(root, "minecraft:jukebox_playable", "song");
    proof {
        rs = rs.push(root@);
        assert(rewrap_steps(rs));
    }
    let ghost r7 = root@;
    let ghost rep0 = rep.entries@;
    let tooltip_display = match root.take("minecraft:tooltip_display") {
        Some(NbtValue::Compound(m)) => m,
        Some(other) => {
            root.set("minecraft:tooltip_display", other);
            proof {
                assert(root@ =~= r7);
            }
            return;
        },
        None => {
            proof {
                assert(root@ =~= r7);
            }
            return;
        },
    };
    let ghost base = root@;
    let hide = match tooltip_display.get_bool("hide_tooltip") {
        Some(b) => b,
        None => false,
    };
    if hide {
        root.set_map("minecraft:hide_tooltip", NbtMap::new());
    }
    let ghost with_marker = root@;
    let mut hidden: Vec<String> = Vec::new();
    match tooltip_display.get_list("hidden_components") {
        Some(l) => {
            let mut i: usize = 0;
            while i < l.len()
                invariant
                    i <= l@.len(),
                    texts(hidden@) == string_items(l@.take(i as int)),
                decreases l@.len() - i,
            {
                proof {
                    assert(l@.take(i + 1).drop_last() =~= l@.take(i as int));
                }
                match &l[i] {
                    NbtValue::String(s) => {
                        hidden.push(s.clone());
                        proof {
                            assert(texts(hidden@) =~= string_items(l@.take(i as int)).push(s@));
                        }
                    },
                    _ => {},
                }
                i = i + 1;
            }
            proof {
                assert(l@.take(l@.len() as int) =~= l@);
            }
        },
        None => {
            proof {
                assert(texts(hidden@) =~= Seq::<Seq<char>>::empty());
            }
        },
    }
    let ghost hs = texts(hidden@);
    proof {
        assert(hs == hidden_of(tooltip_display@));
    }
    let mut saw = false;
    let mut i: usize = 0;
    proof {
        lemma_appended_none(rep0, VERSION);
        assert forall|k: Seq<char>| #[trigger] with_marker.dom().contains(k) implies flag_state(with_marker, root@, hs.take(0), k) by {}
    }
    while i < hidden.len()
        invariant
            i <= hidden@.len(),
            hs == texts(hidden@),
            root@.dom() == with_marker.dom(),
            forall|k: Seq<char>| #[trigger] with_marker.dom().contains(k) ==> flag_state(with_marker, root@, hs.take(i as int), k),
            appended_at(rep0, rep.entries@, VERSION, lost_tags(with_marker, hs, i as int)),
            saw == saw_additional(hs, i as int),
        decreases hidden@.len() - i,
    {
        let ghost before_root = root@;
        let ghost before_rep = rep.entries@;
        proof {
            assert(hs[i as int] == hidden@[i as int]@);
        }
        restore_hidden_path(root, hidden[i].as_str(), rep, &mut saw);
        proof {
            lemma_restore_step(with_marker, before_root, root@, hs, i as int);
            if is_lost_path(before_root, hs[i as int]) {
                lemma_appended_one(
                    before_rep,
                    rep.entries@,
                    VERSION,
                    LossKind::UnsupportedInTarget,
                    Severity::Loss,
                    lost_message(hs[i as int]),
                );
                lemma_appended_chain(
                    rep0,
                    before_rep,
                    rep.entries@,
                    VERSION,
                    lost_tags(with_marker, hs, i as int),
                    seq![(LossKind::UnsupportedInTarget, Severity::Loss, lost_message(hs[i as int]))],
                );
            } else {
                lemma_appended_none(before_rep, VERSION);
                lemma_appended_chain(rep0, before_rep, rep.entries@, VERSION, lost_tags(with_marker, hs, i as int), Seq::empty());
                assert(lost_tags(with_marker, hs, i as int) + Seq::<(LossKind, Severity, Seq<char>)>::empty()
                    =~= lost_tags(with_marker, hs, i as int));
            }
        }
        i = i + 1;
    }
    proof {
        assert(hs.take(hs.len() as int) =~= hs);
    }
    let ghost restored = root@;
    let ghost mid = rep.entries@;
    if saw {
        let mut hidden_additional: usize = 0;
        let mut j: usize = 0;
        while j < hidden.len()
            invariant
                j <= hidden@.len(),
                hs == texts(hidden@),
                hidden_additional == additional_count(hs, j as int),
                hidden_additional <= j,
            decreases hidden@.len() - j,
        {
            proof {
                assert(hs[j as int] == hidden@[j as int]@);
            }
            if additional(hidden[j].as_str()) {
                hidden_additional = hidden_additional + 1;
            }
            j = j + 1;
        }
        let mut present: usize = 0;
        let mut k: usize = 0;
        while k < 17
            invariant
                k <= 17,
                root@ == restored,
                present == present_count(restored, k as int),
                present <= k,
            decreases 17 - k,
        {
            if root.has_key(additional_component(k)) {
                present = present + 1;
            }
            k = k + 1;
        }
        if hidden_additional != present {
            report(
                rep,
                VERSION,
                LossKind::FingerprintCollapse,
                Severity::Approximated,
                "hidden_components contains only a subset of present additional-tooltip components; restoring legacy hide_additional_tooltip marker hides all of them",
            );
        }
        root.set_map("minecraft:hide_additional_tooltip", NbtMap::new());
    }
    proof {
        assert(decoded_with(r7, tooltip_display@, with_marker, restored, mid, root@, rep0, rep.entries@));
        assert(tooltip_decoded(r7, root@, rep0, rep.entries@));
    }
}

/// What walking a block predicate makes of `p0`: its `blocks`, a list of
/// block ids or one, converted as block names.
pub open spec fn predicate_walked(regs: Seq<Registration>, p0: NbtMap, p1: NbtMap, from: i32, to: i32) -> bool {
    if lookup(p0@, "blocks"@) matches Some(NbtValue::List(_)) {
        value_list_at_path_converted(regs, TypeKey::BlockName, "blocks"@, p0, p1, from, to)
    } else {
        value_at_path_converted(regs, TypeKey::BlockName, "blocks"@, p0, p1, from, to)
    }
}

/// A block predicate: `blocks` is a list of block ids or one.
fn walk_block_predicate(reg: &Registry, data: &mut NbtMap, from: i32, to: i32)
    ensures
        predicate_walked(reg.entries@, *old(data), *final(data), from, to),
{
    let is_list = match data.get("blocks") {
        Some(NbtValue::List(_)) => true,
        _ => false,
    };
    if is_list {
        convert_value_list(reg, TypeKey::BlockName, data, "blocks", from, to);
    } else {
        convert_value(reg, TypeKey::BlockName, data, "blocks", from, to);
    }
}

/// A predicate list element `a` walked into `b`.
pub open spec fn predicate_element_walked(regs: Seq<Registration>, a: NbtValue, b: NbtValue, from: i32, to: i32) -> bool {
    match a {
        NbtValue::Compound(m) => b matches NbtValue::Compound(m2) && predicate_walked(regs, m, m2, from, to),
        _ => b == a,
    }
}

/// What walking the block predicates at `path` makes of `d0`: one
/// predicate, or each of a list of them.
pub open spec fn block_predicates_walked(regs: Seq<Registration>, path: Seq<char>, d0: NbtMap, d1: NbtMap, from: i32, to: i32) -> bool {
    match lookup(d0@, path) {
        Some(NbtValue::Compound(m)) => d1@ == d0@.insert(path, d1@[path])
            && (d1@[path] matches NbtValue::Compound(m2) && predicate_walked(regs, m, m2, from, to)),
        Some(NbtValue::List(l)) => d1@ == d0@.insert(path, d1@[path])
            && (d1@[path] matches NbtValue::List(l2) && l2@.len() == l@.len()
            && forall|i: int| 0 <= i < l@.len() ==> #[trigger] predicate_element_walked(regs, l@[i], l2@[i], from, to)),
        _ => d1@ == d0@,
    }
}

/// The block predicates at `path`: one predicate or a list of them.
fn walk_block_predicates(reg: &Registry, root: &mut NbtMap, path: &str, from: i32, to: i32)
    ensures
        block_predicates_walked(reg.entries@, path@, *old(root), *final(root), from, to),
{
    let ghost regs = reg.entries@;
    match root.take(path) {
        Some(NbtValue::Compound(mut m)) => {
            let ghost m0 = m;
            walk_block_predicate(reg, &mut m, from, to);
            root.set(path, NbtValue::Compound(m));
            proof {
                assert(root@ =~= old(root)@.insert(path@, NbtValue::Compound(m)));
                assert(old(root)@[path@] == NbtValue::Compound(m0));
                assert(block_predicates_walked(regs, path@, *old(root), *root, from, to));
            }
        },
        Some(NbtValue::List(list)) => {
            let ghost l0 = list@;
            proof {
                assert(old(root)@[path@] matches NbtValue::List(l) && l@ == l0);
            }
            let mut rest = list;
            let mut out: Vec<NbtValue> = Vec::new();
            while rest.len() > 0
                invariant
                    regs == reg.entries@,
                    out@.len() + rest@.len() == l0.len(),
                    rest@ == l0.subrange(out@.len() as int, l0.len() as int),
                    forall|i: int| 0 <= i < out@.len() ==> #[trigger] predicate_element_walked(regs, l0[i], out@[i], from, to),
                decreases rest@.len(),
            {
                let ghost k = out@.len() as int;
                let el = rest.remove(0);
                proof {
                    assert(el == l0[k]);
                    assert(rest@ =~= l0.subrange(k + 1, l0.len() as int));
                }
                let conv = match el {
                    NbtValue::Compound(mut m) => {
                        walk_block_predicate(reg, &mut m, from, to);
                        NbtValue::Compound(m)
                    },
                    other => other,
                };
                proof {
                    assert(predicate_element_walked(regs, l0[k], conv, from, to));
                }
                let ghost out0 = out@;
                out.push(conv);
                proof {
                    assert forall|i: int| 0 <= i < out@.len() implies #[trigger] predicate_element_walked(regs, l0[i], out@[i], from, to) by {
                        if i < k {
                            assert(predicate_element_walked(regs, l0[i], out0[i], from, to));
                        }
                    }
                }
            }
            let ghost outv = NbtValue::List(out);
            root.set(path, NbtValue::List(out));
            proof {
                assert(root@ =~= old(root)@.insert(path@, outv));
                assert(root@[path@] == outv);
                assert(block_predicates_walked(regs, path@, *old(root), *root, from, to));
            }
        },
        Some(other) => {
            root.set(path, other);
            proof {
                assert(root@ =~= old(root)@);
            }
        },
        None => {
            proof {
                assert(root@ =~= old(root)@);
            }
        },
    }
}

/// The written book's compound pages: a filterable `raw`/`filtered` pair,
/// or a text component itself.
fn walk_pages(reg: &Registry, book: &mut NbtMap, from: i32, to: i32, report: &mut LossReport, fuel: u32)
    requires
        fuel > 0,
    ensures
        report_grows(*old(report), *final(report)),
        pages_walked(reg.entries@, true, *old(book), *final(book), *old(report), *final(report), from, to, fuel as nat),
    decreases fuel, 2int,
{
    let ghost regs = reg.entries@;
    let ghost r0 = *report;
    match book.take_list("pages") {
        Some(list) => {
            let ghost bmid = *book;
            let ghost l0 = list@;
            let mut rest = list;
            let mut out: Vec<NbtValue> = Vec::new();
            let ghost mut rs: Seq<LossReport> = seq![*report];
            while rest.len() > 0
                invariant
                    fuel > 0,
                    regs == reg.entries@,
                    report_grows(r0, *report),
                    out@.len() + rest@.len() == l0.len(),
                    rest@ == l0.subrange(out@.len() as int, l0.len() as int),
                    rs.len() == out@.len() + 1,
                    rs[0] == r0,
                    rs[out@.len() as int] == *report,
                    forall|i: int| 0 <= i < out@.len() ==> #[trigger] page_converted(regs, true, l0[i], out@[i], rs[i], rs[i + 1], from, to, fuel as nat),
                decreases rest@.len(),
            {
                let ghost k = out@.len() as int;
                let el = rest.remove(0);
                proof {
                    assert(el == l0[k]);
                    assert(rest@ =~= l0.subrange(k + 1, l0.len() as int));
                }
                let ghost r1 = *report;
                let conv = match el {
                    NbtValue::Compound(mut m) => {
                        let ghost m0 = m;
                        if m.has_key("raw") || m.has_key("filtered") {
                            convert(reg, TypeKey::TextComponent, &mut m, "raw", from, to, report, fuel);
                            let ghost r2 = *report;
                            let ghost mm = m;
                            convert(reg, TypeKey::TextComponent, &mut m, "filtered", from, to, report, fuel);
                            proof {
                                lemma_report_grows_trans(r1, r2, *report);
                                assert(at_path_converted(regs, TypeKey::TextComponent, "raw"@, m0, mm, r1, r2, from, to, fuel as nat));
                                assert(state_pair(mm, r2) == (mm, r2));
                                assert(raw_filtered_converted(regs, m0, m, r1, *report, from, to, fuel as nat));
                            }
                        } else {
                            convert_map(reg, TypeKey::TextComponent, &mut m, from, to, report, fuel - 1);
                            proof {
                                assert(map_converted(regs, TypeKey::TextComponent, m0, m, r1, *report, from, to, ((fuel as nat) - 1) as nat));
                            }
                        }
                        NbtValue::Compound(m)
                    },
                    other => other,
                };
                proof {
                    assert(page_converted(regs, true, l0[k], conv, r1, *report, from, to, fuel as nat));
                    lemma_report_grows_trans(r0, r1, *report);
                }
                let ghost out0 = out@;
                let ghost rs0 = rs;
                out.push(conv);
                proof {
                    rs = rs.push(*report);
                    assert forall|i: int| 0 <= i < out@.len() implies #[trigger] page_converted(regs, true, l0[i], out@[i], rs[i], rs[i + 1], from, to, fuel as nat) by {
                        if i < k {
                            assert(page_converted(regs, true, l0[i], out0[i], rs0[i], rs0[i + 1], from, to, fuel as nat));
                        }
                    }
                }
            }
            let ghost l2 = out@;
            let ghost outv = NbtValue::List(out);
            book.set_list("pages", out);
            proof {
                lemma_replaced_at(old(book)@, bmid@, "pages"@, outv);
                assert(book@ == old(book)@.insert("pages"@, outv));
                assert(book@["pages"@] == outv);
                assert(list_of(book@, "pages"@) == Some(l2));
                assert(list_of(old(book)@, "pages"@) == Some(l0));
                assert(forall|i: int| #![trigger l0[i]] 0 <= i < l0.len() ==> page_converted(regs, true, l0[i], l2[i], rs[i], rs[i + 1], from, to, fuel as nat));
                assert(pages_trace(regs, true, l0, l2, rs, from, to, fuel as nat));
                assert(pages_done(regs, true, l0, l2, r0, *report, from, to, fuel as nat));
            }
        },
        None => {},
    }
}

/// The data components walker.
pub fn walk_components(reg: &Registry, root: &mut NbtMap, from: i32, to: i32, report: &mut LossReport, fuel: u32)
    requires
        fuel > 0,
    ensures
        report_grows(*old(report), *final(report)),
        components_walked(reg.entries@, true, *old(root), *final(root), *old(report), *final(report), from, to, fuel as nat),
    decreases fuel, 3int,
{
    let ghost regs = reg.entries@;
    let ghost r0 = *report;
    let ghost steps = component_steps(true, from);
    let ghost item: Option<Seq<char>> = None;
    let ghost mut ds: Seq<NbtMap> = seq![*root];
    let ghost mut rs: Seq<LossReport> = seq![*report];
    convert_list_path(reg, TypeKey::Entity, root, "minecraft:bees", "entity_data", from, to, report, fuel);
    proof {
        lemma_steps_push(regs, steps, item, ds, rs, *root, *report, from, to, fuel as nat);
        lemma_report_grows_trans(r0, rs.last(), *report);
        ds = ds.push(*root);
        rs = rs.push(*report);
    }
    convert(reg, TypeKey::TileEntity, root, "minecraft:block_entity_data", from, to, report, fuel);
    proof {
        lemma_steps_push(regs, steps, item, ds, rs, *root, *report, from, to, fuel as nat);
        lemma_report_grows_trans(r0, rs.last(), *report);
        ds = ds.push(*root);
        rs = rs.push(*report);
    }
    convert_list(reg, TypeKey::ItemStack, root, "minecraft:bundle_contents", from, to, report, fuel);
    proof {
        lemma_steps_push(regs, steps, item, ds, rs, *root, *report, from, to, fuel as nat);
        lemma_report_grows_trans(r0, rs.last(), *report);
        ds = ds.push(*root);
        rs = rs.push(*report);
    }
    walk_block_predicates(reg, root, "minecraft:can_break", from, to);
    proof {
        lemma_steps_push(regs, steps, item, ds, rs, *root, *report, from, to, fuel as nat);
        lemma_report_grows_trans(r0, rs.last(), *report);
        ds = ds.push(*root);
        rs = rs.push(*report);
    }
    walk_block_predicates(reg, root, "minecraft:can_place_on", from, to);
    proof {
        lemma_steps_push(regs, steps, item, ds, rs, *root, *report, from, to, fuel as nat);
        lemma_report_grows_trans(r0, rs.last(), *report);
        ds = ds.push(*root);
        rs = rs.push(*report);
    }
    convert_list(reg, TypeKey::ItemStack, root, "minecraft:charged_projectiles", from, to, report, fuel);
    proof {
        lemma_steps_push(regs, steps, item, ds, rs, *root, *report, from, to, fuel as nat);
        lemma_report_grows_trans(r0, rs.last(), *report);
        ds = ds.push(*root);
        rs = rs.push(*report);
    }
    convert_list_path(reg, TypeKey::ItemStack, root, "minecraft:container", "item", from, to, report, fuel);
    proof {
        lemma_steps_push(regs, steps, item, ds, rs, *root, *report, from, to, fuel as nat);
        lemma_report_grows_trans(r0, rs.last(), *report);
        ds = ds.push(*root);
        rs = rs.push(*report);
    }
    convert(reg, TypeKey::Entity, root, "minecraft:entity_data", from, to, report, fuel);
    proof {
        lemma_steps_push(regs, steps, item, ds, rs, *root, *report, from, to, fuel as nat);
        lemma_report_grows_trans(r0, rs.last(), *report);
        ds = ds.push(*root);
        rs = rs.push(*report);
    }
    convert_value_list(reg, TypeKey::ItemName, root, "minecraft:pot_decorations", from, to);
    proof {
        lemma_steps_push(regs, steps, item, ds, rs, *root, *report, from, to, fuel as nat);
        lemma_report_grows_trans(r0, rs.last(), *report);
        ds = ds.push(*root);
        rs = rs.push(*report);
    }
    convert(reg, TypeKey::ItemStack, root, "minecraft:use_remainder", from, to, report, fuel);
    proof {
        lemma_steps_push(regs, steps, item, ds, rs, *root, *report, from, to, fuel as nat);
        lemma_report_grows_trans(r0, rs.last(), *report);
        ds = ds.push(*root);
        rs = rs.push(*report);
    }
    match root.take_map("minecraft:equippable") {
        Some(mut equippable) => {
            let ghost mid = *root;
            let ghost q0 = equippable;
            convert_value(reg, TypeKey::EntityName, &mut equippable, "allowed_entities", from, to);
            let ghost qm = equippable;
            convert_value_list(reg, TypeKey::EntityName, &mut equippable, "allowed_entities", from, to);
            let ghost q1 = equippable;
            root.set_map("minecraft:equippable", equippable);
            proof {
                lemma_replaced_at(ds.last()@, mid@, "minecraft:equippable"@, NbtValue::Compound(q1));
                assert(compound_of(q1) == NbtValue::Compound(q1));
                assert(value_at_path_converted(regs, TypeKey::EntityName, "allowed_entities"@, q0, qm, from, to));
                assert(equippable_done(regs, q0, q1, from, to));
                assert(nested_done("minecraft:equippable"@, ds.last(), *root, q1));
            }
        },
        None => {},
    }
    proof {
        lemma_steps_push(regs, steps, item, ds, rs, *root, *report, from, to, fuel as nat);
        lemma_report_grows_trans(r0, rs.last(), *report);
        ds = ds.push(*root);
        rs = rs.push(*report);
    }
    convert(reg, TypeKey::TextComponent, root, "minecraft:custom_name", from, to, report, fuel);
    proof {
        lemma_steps_push(regs, steps, item, ds, rs, *root, *report, from, to, fuel as nat);
        lemma_report_grows_trans(r0, rs.last(), *report);
        ds = ds.push(*root);
        rs = rs.push(*report);
    }
    convert(reg, TypeKey::TextComponent, root, "minecraft:item_name", from, to, report, fuel);
    proof {
        lemma_steps_push(regs, steps, item, ds, rs, *root, *report, from, to, fuel as nat);
        lemma_report_grows_trans(r0, rs.last(), *report);
        ds = ds.push(*root);
        rs = rs.push(*report);
    }
    convert_list(reg, TypeKey::TextComponent, root, "minecraft:lore", from, to, report, fuel);
    proof {
        lemma_steps_push(regs, steps, item, ds, rs, *root, *report, from, to, fuel as nat);
        lemma_report_grows_trans(r0, rs.last(), *report);
        ds = ds.push(*root);
        rs = rs.push(*report);
    }
    match root.take_map("minecraft:written_book_content") {
        Some(mut book) => {
            let ghost mid = *root;
            let ghost b0 = book;
            let ghost rb = *report;
            walk_pages(reg, &mut book, from, to, report, fuel);
            let ghost b1 = book;
            root.set_map("minecraft:written_book_content", book);
            proof {
                lemma_replaced_at(ds.last()@, mid@, "minecraft:written_book_content"@, NbtValue::Compound(b1));
                assert(compound_of(b1) == NbtValue::Compound(b1));
                assert(pages_walked(regs, true, b0, b1, rb, *report, from, to, fuel as nat));
                assert(nested_done("minecraft:written_book_content"@, ds.last(), *root, b1));
            }
        },
        None => {},
    }
    proof {
        lemma_steps_push(regs, steps, item, ds, rs, *root, *report, from, to, fuel as nat);
        lemma_report_grows_trans(r0, rs.last(), *report);
        ds = ds.push(*root);
        rs = rs.push(*report);
    }
    proof {
        assert(steps_done(regs, steps, item, *old(root), *root, r0, *report, from, to, fuel as nat));
    }
}

/// What this version registers.
pub open spec fn registrations() -> Seq<Registration> {
    seq![
        entry(TypeKey::DataComponents, VERSION, 0, Action::Convert(Conv::V4307MigrateTooltips)),
        entry(TypeKey::DataComponents, VERSION, 0, Action::Revert(Conv::V4307RestoreTooltips)),
        entry(TypeKey::DataComponents, VERSION, 0, Action::WalkAll(Walker::Custom(CustomWalker::V4307Components))),
    ]
}

/// Register this version's converters and walker.
pub fn register(reg: &mut RegistryBuilder)
    ensures
        final(reg).entries@ == old(reg).entries@ + registrations(),
{
    reg.add(TypeKey::DataComponents, VERSION, 0, Action::Convert(Conv::V4307MigrateTooltips));
    reg.add(TypeKey::DataComponents, VERSION, 0, Action::Revert(Conv::V4307RestoreTooltips));
    reg.add(TypeKey::DataComponents, VERSION, 0, Action::WalkAll(Walker::Custom(CustomWalker::V4307Components)));
    proof {
        assert(final(reg).entries@ =~= old(reg).entries@ + registrations());
    }
}

} // verus!
