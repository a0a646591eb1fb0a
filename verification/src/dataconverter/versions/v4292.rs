//! V4292: a text component's `hoverEvent` and `clickEvent` become the
//! flattened `hover_event` and `click_event`.

use vstd::prelude::*;
use super::super::registry::{state_pair};
use crate::nbt::{int_of, lemma_put_back, long_value, lookup, map_of, renamed, str_of, NbtMap, NbtValue};
use crate::loss::{report, LossEntry, LossKind, LossReport, Severity};
use crate::text::{decimal, int_text, parse_i32, parsed_i32, same_ignoring_ascii_case, eq_ignore_ascii_case, str_eq};
use super::super::registry::{entry, lemma_report_grows_trans, report_grows, Action, Registration, Registry, RegistryBuilder, TypeKey, Walker};
use super::super::dispatch::{Conv, CustomWalker};
use super::super::walker::{convert, convert_list, convert_value, lemma_replaced_at};
use super::super::registry::{at_path_converted, compound_of, list_converted, value_at_path_converted};

verus! {

/// This version.
pub const VERSION: i32 = 4292;

/// The text at `k`, or the empty text.
pub open spec fn text_or_empty(m: Map<Seq<char>, NbtValue>, k: Seq<char>) -> Seq<char> {
    match str_of(m, k) {
        Some(s) => s,
        None => ""@,
    }
}

/// `dst` after moving `src[sk]` to `dk`: set where `sk` is present, removed
/// where it is not.
pub open spec fn moved(dst: Map<Seq<char>, NbtValue>, src: Map<Seq<char>, NbtValue>, sk: Seq<char>, dk: Seq<char>) -> Map<
    Seq<char>,
    NbtValue,
> {
    match lookup(src, sk) {
        Some(v) => dst.insert(dk, v),
        None => dst.remove(dk),
    }
}

/// `dst` after moving `src[sk]` to `dk` where `sk` is present.
pub open spec fn put(dst: Map<Seq<char>, NbtValue>, src: Map<Seq<char>, NbtValue>, sk: Seq<char>, dk: Seq<char>) -> Map<
    Seq<char>,
    NbtValue,
> {
    match lookup(src, sk) {
        Some(v) => dst.insert(dk, v),
        None => dst,
    }
}

/// Move `src[src_key]` to `dst[dst_key]`; where it is absent, remove
/// `dst[dst_key]`.
pub fn move_key(src: &mut NbtMap, src_key: &str, dst: &mut NbtMap, dst_key: &str)
    ensures
        final(src)@ == old(src)@.remove(src_key@),
        final(dst)@ == moved(old(dst)@, old(src)@, src_key@, dst_key@),
{
    match src.take(src_key) {
        Some(v) => dst.set(dst_key, v),
        None => {
            dst.take(dst_key);
        },
    }
}

/// Move `src[src_key]` to `dst[dst_key]` where it is present.
pub fn move_key_if_present(src: &mut NbtMap, src_key: &str, dst: &mut NbtMap, dst_key: &str)
    ensures
        final(src)@ == old(src)@.remove(src_key@),
        final(dst)@ == put(old(dst)@, old(src)@, src_key@, dst_key@),
{
    match src.take(src_key) {
        Some(v) => dst.set(dst_key, v),
        None => {},
    }
}

/// The index of the first `:` of `s` from `i` on.
pub open spec fn first_colon_from(s: Seq<char>, i: int) -> Option<int>
    decreases s.len() - i,
{
    if 0 <= i < s.len() {
        if s[i] == ':' {
            Some(i)
        } else {
            first_colon_from(s, i + 1)
        }
    } else {
        None
    }
}

/// An ASCII letter.
pub open spec fn is_ascii_alpha(c: char) -> bool {
    ('a' <= c && c <= 'z') || ('A' <= c && c <= 'Z')
}

/// A character that may follow the first of a URI scheme.
pub open spec fn is_scheme_char(c: char) -> bool {
    is_ascii_alpha(c) || ('0' <= c && c <= '9') || c == '+' || c == '-' || c == '.'
}

/// A URI scheme: a letter, then letters, digits, `+`, `-` or `.`.
pub open spec fn valid_scheme(sc: Seq<char>) -> bool {
    &&& sc.len() > 0
    &&& is_ascii_alpha(sc[0])
    &&& forall|i: int| 1 <= i < sc.len() ==> is_scheme_char(#[trigger] sc[i])
}

/// `s` is a URI whose scheme is `http` or `https`, in any case.
pub open spec fn web_url(s: Seq<char>) -> bool {
    match first_colon_from(s, 0) {
        Some(i) => {
            let sc = s.subrange(0, i);
            valid_scheme(sc) && (same_ignoring_ascii_case(sc, "http"@) || same_ignoring_ascii_case(sc, "https"@))
        },
        None => false,
    }
}

/// Whether the scheme before the `:` at `i` is `http` or `https`.
fn scheme_is_web(value: &str, i: usize) -> (b: bool)
    requires
        i < value@.len(),
    ensures
        b == (valid_scheme(value@.subrange(0, i as int)) && (same_ignoring_ascii_case(
            value@.subrange(0, i as int),
            "http"@,
        ) || same_ignoring_ascii_case(value@.subrange(0, i as int), "https"@))),
{
    if i == 0 {
        return false;
    }
    let first = value.get_char(0);
    if !(('a' <= first && first <= 'z') || ('A' <= first && first <= 'Z')) {
        return false;
    }
    let scheme = value.substring_char(0, i);
    let mut k: usize = 1;
    while k < i
        invariant
            scheme@ == value@.subrange(0, i as int),
            i < value@.len(),
            1 <= k <= i,
            is_ascii_alpha(scheme@[0]),
            forall|j: int| 1 <= j < k ==> is_scheme_char(#[trigger] scheme@[j]),
        decreases i - k,
    {
        let c = value.get_char(k);
        assert(scheme@[k as int] == c);
        let ok = ('a' <= c && c <= 'z') || ('A' <= c && c <= 'Z') || ('0' <= c && c <= '9') || c == '+' || c == '-'
            || c == '.';
        if !ok {
            return false;
        }
        k = k + 1;
    }
    eq_ignore_ascii_case(scheme, "http") || eq_ignore_ascii_case(scheme, "https")
}

/// Is `value` a web URL?
pub fn is_web_url(value: &str) -> (b: bool)
    ensures
        b == web_url(value@),
{
    let n = value.unicode_len();
    let mut i: usize = 0;
    while i < n
        invariant
            n == value@.len(),
            i <= n,
            first_colon_from(value@, 0) == first_colon_from(value@, i as int),
        decreases n - i,
    {
        if value.get_char(i) == ':' {
            return scheme_is_web(value, i);
        }
        i = i + 1;
    }
    false
}

/// The action names are distinct.
proof fn lemma_action_names()
    ensures
        "show_text"@ != "show_item"@,
        "show_text"@ != "show_entity"@,
        "show_item"@ != "show_entity"@,
        "open_url"@ != "open_file"@,
        "open_url"@ != "run_command"@,
        "open_url"@ != "suggest_command"@,
        "open_url"@ != "change_page"@,
        "open_file"@ != "run_command"@,
        "open_file"@ != "suggest_command"@,
        "open_file"@ != "change_page"@,
        "run_command"@ != "suggest_command"@,
        "run_command"@ != "change_page"@,
        "suggest_command"@ != "change_page"@,
{
    reveal_strlit("show_text");
    reveal_strlit("show_item");
    reveal_strlit("show_entity");
    reveal_strlit("open_url");
    reveal_strlit("open_file");
    reveal_strlit("run_command");
    reveal_strlit("suggest_command");
    reveal_strlit("change_page");
    assert("show_text"@[5] != "show_item"@[5]);
    assert("show_text"@[5] != "show_entity"@[5]);
    assert("show_item"@[5] != "show_entity"@[5]);
    assert("open_url"@[5] != "open_file"@[5]);
    assert("open_url"@[0] != "run_command"@[0]);
    assert("open_url"@[0] != "suggest_command"@[0]);
    assert("open_url"@[0] != "change_page"@[0]);
    assert("open_file"@[0] != "run_command"@[0]);
    assert("open_file"@[0] != "suggest_command"@[0]);
    assert("open_file"@[0] != "change_page"@[0]);
    assert("run_command"@[0] != "suggest_command"@[0]);
    assert("run_command"@[0] != "change_page"@[0]);
    assert("suggest_command"@[0] != "change_page"@[0]);
}

/// No character of `s` is a control character, DEL or the section sign.
pub open spec fn valid_command(s: Seq<char>) -> bool {
    forall|i: int| 0 <= i < s.len() ==> !((#[trigger] s[i] as u32) < 0x20 || s[i] as u32 == 127 || s[i] as u32 == 167)
}

/// Is `value` a valid command or chat line?
pub fn is_valid_command_or_chat(value: &str) -> (b: bool)
    ensures
        b == valid_command(value@),
{
    let n = value.unicode_len();
    let mut i: usize = 0;
    while i < n
        invariant
            n == value@.len(),
            i <= n,
            forall|j: int| 0 <= j < i ==> !((#[trigger] value@[j] as u32) < 0x20 || value@[j] as u32 == 127 || value@[j] as u32 == 167),
        decreases n - i,
    {
        let c = value.get_char(i) as u32;
        if c < 0x20 || c == 127 || c == 167 {
            return false;
        }
        i = i + 1;
    }
    true
}

/// The integer at `k`: a string parsed as an `i32`, an integral tag cut to
/// `i32`, or nothing.
pub open spec fn integer_at(m: Map<Seq<char>, NbtValue>, k: Seq<char>) -> Option<i32> {
    match lookup(m, k) {
        Some(NbtValue::String(s)) => parsed_i32(s@),
        Some(v) => match long_value(v) {
            Some(n) => Some(n as i32),
            None => None,
        },
        None => None,
    }
}

/// The integer at `path`.
pub fn parse_integer(root: &NbtMap, path: &str) -> (r: Option<i32>)
    ensures
        r == integer_at(root@, path@),
{
    match root.get(path) {
        Some(NbtValue::String(s)) => parse_i32(s.as_str()),
        Some(v) => match crate::nbt::value_as_i64(v) {
            Some(n) => Some(#[verifier::truncate] (n as i32)),
            None => None,
        },
        None => None,
    }
}

/// The compound at `contents`, or an empty one.
pub open spec fn contents_of(h: Map<Seq<char>, NbtValue>) -> Map<Seq<char>, NbtValue> {
    match map_of(h, "contents"@) {
        Some(c) => c@,
        None => Map::empty(),
    }
}

/// The hover event after the forward change.
pub open spec fn hover_converted(h: Map<Seq<char>, NbtValue>, h2: Map<Seq<char>, NbtValue>) -> bool {
    let action = text_or_empty(h, "action"@);
    let c = contents_of(h);
    if action == "show_text"@ {
        h2 == renamed(h, "contents"@, "value"@)
    } else if action == "show_item"@ {
        if lookup(h, "contents"@) matches Some(NbtValue::String(_)) {
            h2 == renamed(h, "contents"@, "id"@)
        } else {
            h2 == moved(
                moved(moved(h.remove("contents"@), c, "id"@, "id"@), c.remove("id"@), "count"@, "count"@),
                c.remove("id"@).remove("count"@),
                "components"@,
                "components"@,
            )
        }
    } else if action == "show_entity"@ {
        h2 == moved(
            moved(moved(h.remove("contents"@), c, "id"@, "uuid"@), c.remove("id"@), "type"@, "id"@),
            c.remove("id"@).remove("type"@),
            "name"@,
            "name"@,
        )
    } else {
        h2 == h
    }
}

/// Which hover action `h` names: 1 `show_text`, 2 `show_item`,
/// 3 `show_entity`, 0 any other.
pub open spec fn hover_action_code(h: Map<Seq<char>, NbtValue>) -> u8 {
    let a = text_or_empty(h, "action"@);
    if a == "show_text"@ {
        1
    } else if a == "show_item"@ {
        2
    } else if a == "show_entity"@ {
        3
    } else {
        0
    }
}

/// Which hover action `h` names.
fn hover_action(h: &NbtMap) -> (r: u8)
    ensures
        r == hover_action_code(h@),
{
    let a = match h.get_string("action") {
        Some(a) => a,
        None => "",
    };
    if str_eq(a, "show_text") {
        1
    } else if str_eq(a, "show_item") {
        2
    } else if str_eq(a, "show_entity") {
        3
    } else {
        0
    }
}

/// Take the compound at `contents` out of `h`, or an empty one.
fn take_contents(h: &mut NbtMap) -> (c: NbtMap)
    ensures
        final(h)@ == old(h)@.remove("contents"@),
        c@ == contents_of(old(h)@),
{
    match h.take("contents") {
        Some(NbtValue::Compound(m)) => m,
        _ => NbtMap::new(),
    }
}

/// Forward on a hover event.
fn convert_hover(h: &mut NbtMap)
    ensures
        hover_converted(old(h)@, final(h)@),
{
    let action = hover_action(h);
    if action == 1 {
        h.rename_key("contents", "value");
    } else if action == 2 {
        let contents_is_string = match h.get("contents") {
            Some(NbtValue::String(_)) => true,
            _ => false,
        };
        if contents_is_string {
            h.rename_key("contents", "id");
        } else {
            let mut contents = take_contents(h);
            move_key(&mut contents, "id", h, "id");
            move_key(&mut contents, "count", h, "count");
            move_key(&mut contents, "components", h, "components");
        }
    } else if action == 3 {
        let mut contents = take_contents(h);
        move_key(&mut contents, "id", h, "uuid");
        move_key(&mut contents, "type", h, "id");
        move_key(&mut contents, "name", h, "name");
    }
}

/// A change-page event's page from its value, at least 1.
pub open spec fn page_of(p: i32) -> i32 {
    if p < 1 {
        1
    } else {
        p
    }
}

/// The click event is dropped by the forward change: a non-web URL, an
/// invalid command, or a page that is no integer.
pub open spec fn click_dropped(c: Map<Seq<char>, NbtValue>) -> bool {
    let action = text_or_empty(c, "action"@);
    let value = text_or_empty(c, "value"@);
    ||| action == "open_url"@ && !web_url(value)
    ||| (action == "run_command"@ || action == "suggest_command"@) && !valid_command(value)
    ||| action == "change_page"@ && integer_at(c, "value"@) is None
}

/// The click event after the forward change, where it is kept.
pub open spec fn click_converted(c: Map<Seq<char>, NbtValue>, c2: Map<Seq<char>, NbtValue>) -> bool {
    let action = text_or_empty(c, "action"@);
    if action == "open_url"@ {
        c2 == renamed(c, "value"@, "url"@)
    } else if action == "open_file"@ {
        c2 == renamed(c, "value"@, "path"@)
    } else if action == "run_command"@ || action == "suggest_command"@ {
        c2 == renamed(c, "value"@, "command"@)
    } else if action == "change_page"@ {
        match integer_at(c, "value"@) {
            Some(p) => c2 == c.remove("value"@).insert("page"@, NbtValue::Int(page_of(p))),
            None => true,
        }
    } else {
        c2 == c
    }
}

/// Forward on a click event: `true` where the event is to be dropped.
fn convert_click(c: &mut NbtMap) -> (drop: bool)
    ensures
        drop == click_dropped(old(c)@),
        !drop ==> click_converted(old(c)@, final(c)@),
{
    proof {
        lemma_action_names();
    }
    let action = match c.get_string("action") {
        Some(a) => a.to_owned(),
        None => String::from_str(""),
    };
    let value = match c.get_string("value") {
        Some(v) => v.to_owned(),
        None => String::from_str(""),
    };
    if str_eq(action.as_str(), "open_url") {
        if !is_web_url(value.as_str()) {
            return true;
        }
        c.rename_key("value", "url");
    } else if str_eq(action.as_str(), "open_file") {
        c.rename_key("value", "path");
    } else if str_eq(action.as_str(), "run_command") || str_eq(action.as_str(), "suggest_command") {
        if !is_valid_command_or_chat(value.as_str()) {
            return true;
        }
        c.rename_key("value", "command");
    } else if str_eq(action.as_str(), "change_page") {
        match parse_integer(c, "value") {
            None => return true,
            Some(page) => {
                c.take("value");
                c.set_i32("page", if page < 1 {
                    1
                } else {
                    page
                });
            },
        }
    }
    false
}

/// The root after the forward change of its hover event: `hoverEvent`
/// renamed to `hover_event`, a compound one converted.
pub open spec fn hover_part(old: Map<Seq<char>, NbtValue>, new: Map<Seq<char>, NbtValue>) -> bool {
    let src = if old.dom().contains("hoverEvent"@) {
        lookup(old, "hoverEvent"@)
    } else {
        lookup(old, "hover_event"@)
    };
    &&& !new.dom().contains("hoverEvent"@)
    &&& match src {
        Some(NbtValue::Compound(h)) => map_of(new, "hover_event"@) matches Some(h2) && hover_converted(h@, h2@),
        Some(other) => lookup(new, "hover_event"@) == Some(other),
        None => !new.dom().contains("hover_event"@),
    }
}

/// The root after the forward change of its click event: `clickEvent`
/// renamed to `click_event`, a compound one converted or dropped.
pub open spec fn click_part(old: Map<Seq<char>, NbtValue>, new: Map<Seq<char>, NbtValue>) -> bool {
    let src = if old.dom().contains("clickEvent"@) {
        lookup(old, "clickEvent"@)
    } else {
        lookup(old, "click_event"@)
    };
    &&& !new.dom().contains("clickEvent"@)
    &&& match src {
        Some(NbtValue::Compound(c)) => if click_dropped(c@) {
            !new.dom().contains("click_event"@)
        } else {
            map_of(new, "click_event"@) matches Some(c2) && click_converted(c@, c2@)
        },
        Some(other) => lookup(new, "click_event"@) == Some(other),
        None => !new.dom().contains("click_event"@),
    }
}

/// The four event keys.
pub open spec fn without_events(m: Map<Seq<char>, NbtValue>) -> Map<Seq<char>, NbtValue> {
    m.remove("hoverEvent"@).remove("hover_event"@).remove("clickEvent"@).remove("click_event"@)
}

/// The event keys are distinct.
proof fn lemma_event_keys()
    ensures
        "hoverEvent"@ != "hover_event"@,
        "hoverEvent"@ != "clickEvent"@,
        "hoverEvent"@ != "click_event"@,
        "hover_event"@ != "clickEvent"@,
        "hover_event"@ != "click_event"@,
        "clickEvent"@ != "click_event"@,
{
    reveal_strlit("hoverEvent");
    reveal_strlit("hover_event");
    reveal_strlit("clickEvent");
    reveal_strlit("click_event");
    assert("hoverEvent"@[0] != "clickEvent"@[0]);
    assert("hoverEvent"@[0] != "click_event"@[0]);
    assert("hover_event"@[0] != "clickEvent"@[0]);
    assert("hover_event"@[0] != "click_event"@[0]);
    assert("hoverEvent"@[5] != "hover_event"@[5]);
    assert("clickEvent"@[5] != "click_event"@[5]);
}

/// What [`convert_component`] makes of `data_in`.
pub open spec fn convert_component_effect(data_in: NbtMap, data_out: NbtMap) -> bool {
    &&& hover_part(data_in@, data_out@)
    &&& click_part(data_in@, data_out@)
    &&& without_events(data_out@) == without_events(data_in@)
}

/// Forward on a text component.
pub fn convert_component(root: &mut NbtMap)
    ensures
        hover_part(old(root)@, final(root)@),
        click_part(old(root)@, final(root)@),
        without_events(final(root)@) == without_events(old(root)@),
{
    proof {
        lemma_event_keys();
    }
    let ghost r0 = root@;
    root.rename_key("hoverEvent", "hover_event");
    let ghost ra = root@;
    match root.take_map("hover_event") {
        Some(mut h) => {
            let ghost mid = root@;
            convert_hover(&mut h);
            root.set_map("hover_event", h);
            proof {
                lemma_put_back(ra, mid, "hover_event"@, NbtValue::Compound(h));
            }
        },
        None => {},
    }
    let ghost r1 = root@;
    assert(without_events(r1) =~= without_events(r0));
    root.rename_key("clickEvent", "click_event");
    let ghost rb = root@;
    match root.take_map("click_event") {
        Some(mut c) => {
            let ghost mid = root@;
            let drop = convert_click(&mut c);
            if drop {
                root.take("click_event");
                proof {
                    assert(root@ =~= rb.remove("click_event"@));
                }
            } else {
                root.set_map("click_event", c);
                proof {
                    lemma_put_back(rb, mid, "click_event"@, NbtValue::Compound(c));
                }
            }
        },
        None => {},
    }
    assert(without_events(root@) =~= without_events(r1));
}

/// The contents a reverse change builds for `show_item`: `id`, `count` and
/// `components` of the hover event, where present.
pub open spec fn item_contents(h: Map<Seq<char>, NbtValue>) -> Map<Seq<char>, NbtValue> {
    put(
        put(put(Map::empty(), h, "id"@, "id"@), h.remove("id"@), "count"@, "count"@),
        h.remove("id"@).remove("count"@),
        "components"@,
        "components"@,
    )
}

/// The contents a reverse change builds for `show_entity`: `uuid` as `id`,
/// `id` as `type`, and `name`, where present.
pub open spec fn entity_contents(h: Map<Seq<char>, NbtValue>) -> Map<Seq<char>, NbtValue> {
    put(
        put(put(Map::empty(), h, "uuid"@, "id"@), h.remove("uuid"@), "id"@, "type"@),
        h.remove("uuid"@).remove("id"@),
        "name"@,
        "name"@,
    )
}

/// A `show_item` hover event holding an id and nothing else: it may have
/// come from a bare-string `contents` or from a map.
pub open spec fn hover_collapses(h: Map<Seq<char>, NbtValue>) -> bool {
    text_or_empty(h, "action"@) == "show_item"@ && item_contents(h).dom().len() == 1 && item_contents(h).dom().contains(
        "id"@,
    )
}

/// The hover event after the reverse change.
pub open spec fn hover_reverted(h: Map<Seq<char>, NbtValue>, h2: Map<Seq<char>, NbtValue>) -> bool {
    let action = text_or_empty(h, "action"@);
    if action == "show_text"@ {
        h2 == renamed(h, "value"@, "contents"@)
    } else if action == "show_item"@ {
        &&& h2.remove("contents"@) == h.remove("id"@).remove("count"@).remove("components"@).remove("contents"@)
        &&& map_of(h2, "contents"@) matches Some(c) && c@ == item_contents(h)
    } else if action == "show_entity"@ {
        &&& h2.remove("contents"@) == h.remove("uuid"@).remove("id"@).remove("name"@).remove("contents"@)
        &&& map_of(h2, "contents"@) matches Some(c) && c@ == entity_contents(h)
    } else {
        h2 == h
    }
}

/// A `change_page` click event with an integral page: restored as a string,
/// which loses the value's type and anything below 1.
pub open spec fn page_restored(c: Map<Seq<char>, NbtValue>) -> bool {
    text_or_empty(c, "action"@) == "change_page"@ && int_of(c, "page"@) is Some
}

/// The click event after the reverse change.
pub open spec fn click_reverted(c: Map<Seq<char>, NbtValue>, c2: Map<Seq<char>, NbtValue>) -> bool {
    let action = text_or_empty(c, "action"@);
    if action == "open_url"@ {
        c2 == renamed(c, "url"@, "value"@)
    } else if action == "open_file"@ {
        c2 == renamed(c, "path"@, "value"@)
    } else if action == "run_command"@ || action == "suggest_command"@ {
        c2 == renamed(c, "command"@, "value"@)
    } else if action == "change_page"@ {
        match int_of(c, "page"@) {
            Some(p) => c2.remove("value"@) == c.remove("page"@).remove("value"@) && str_of(c2, "value"@) == Some(
                decimal(p as int),
            ),
            None => c2 == c,
        }
    } else {
        c2 == c
    }
}

/// `s` is `r` with one entry per tag of `tags`, in order.
pub open spec fn appended(r: Seq<LossEntry>, s: Seq<LossEntry>, tags: Seq<(LossKind, Severity)>) -> bool {
    &&& s.len() == r.len() + tags.len()
    &&& s.subrange(0, r.len() as int) == r
    &&& forall|i: int|
        0 <= i < tags.len() ==> (#[trigger] s[r.len() + i]).version == VERSION && s[r.len() + i].kind == tags[i].0
            && s[r.len() + i].severity == tags[i].1
}

/// Reverse on a hover event; `true` where it collapsed.
fn revert_hover(h: &mut NbtMap) -> (collapsed: bool)
    ensures
        hover_reverted(old(h)@, final(h)@),
        collapsed == hover_collapses(old(h)@),
{
    proof {
        lemma_action_names();
    }
    let action = hover_action(h);
    if action == 1 {
        h.rename_key("value", "contents");
        false
    } else if action == 2 {
        let mut contents = NbtMap::new();
        move_key_if_present(h, "id", &mut contents, "id");
        move_key_if_present(h, "count", &mut contents, "count");
        move_key_if_present(h, "components", &mut contents, "components");
        let collapsed = contents.len() == 1 && contents.has_key("id");
        let ghost mid = h@;
        h.set_map("contents", contents);
        proof {
            assert(h@.remove("contents"@) =~= mid.remove("contents"@));
        }
        collapsed
    } else if action == 3 {
        let mut contents = NbtMap::new();
        move_key_if_present(h, "uuid", &mut contents, "id");
        move_key_if_present(h, "id", &mut contents, "type");
        move_key_if_present(h, "name", &mut contents, "name");
        let ghost mid = h@;
        h.set_map("contents", contents);
        proof {
            assert(h@.remove("contents"@) =~= mid.remove("contents"@));
        }
        false
    } else {
        false
    }
}

/// Reverse on a click event; `true` where a page was restored.
fn revert_click(c: &mut NbtMap) -> (restored: bool)
    ensures
        click_reverted(old(c)@, final(c)@),
        restored == page_restored(old(c)@),
{
    proof {
        lemma_action_names();
    }
    let action = match c.get_string("action") {
        Some(a) => a.to_owned(),
        None => String::from_str(""),
    };
    if str_eq(action.as_str(), "open_url") {
        c.rename_key("url", "value");
        false
    } else if str_eq(action.as_str(), "open_file") {
        c.rename_key("path", "value");
        false
    } else if str_eq(action.as_str(), "run_command") || str_eq(action.as_str(), "suggest_command") {
        c.rename_key("command", "value");
        false
    } else if str_eq(action.as_str(), "change_page") {
        match c.get_i32("page") {
            Some(page) => {
                c.take("page");
                let ghost mid = c@;
                c.set_string("value", int_text(page as i64).as_str());
                true
            },
            None => false,
        }
    } else {
        false
    }
}

/// The root after the reverse change of its hover event.
pub open spec fn hover_back(old: Map<Seq<char>, NbtValue>, new: Map<Seq<char>, NbtValue>) -> bool {
    &&& !new.dom().contains("hover_event"@)
    &&& match lookup(old, "hover_event"@) {
        Some(NbtValue::Compound(h)) => map_of(new, "hoverEvent"@) matches Some(h2) && hover_reverted(h@, h2@),
        Some(other) => lookup(new, "hoverEvent"@) == Some(other),
        None => lookup(new, "hoverEvent"@) == lookup(old, "hoverEvent"@),
    }
}

/// The root after the reverse change of its click event.
pub open spec fn click_back(old: Map<Seq<char>, NbtValue>, new: Map<Seq<char>, NbtValue>) -> bool {
    &&& !new.dom().contains("click_event"@)
    &&& match lookup(old, "click_event"@) {
        Some(NbtValue::Compound(c)) => map_of(new, "clickEvent"@) matches Some(c2) && click_reverted(c@, c2@),
        Some(other) => lookup(new, "clickEvent"@) == Some(other),
        None => lookup(new, "clickEvent"@) == lookup(old, "clickEvent"@),
    }
}

/// What the reverse change reports for `m`: a collapse for an id-only
/// `show_item`, then an approximation for a restored page.
pub open spec fn reverse_reports(m: Map<Seq<char>, NbtValue>) -> Seq<(LossKind, Severity)> {
    (if (match map_of(m, "hover_event"@) {
        Some(h) => hover_collapses(h@),
        None => false,
    }) {
        seq![(LossKind::FingerprintCollapse, Severity::Approximated)]
    } else {
        Seq::empty()
    }) + (if (match map_of(m, "click_event"@) {
        Some(c) => page_restored(c@),
        None => false,
    }) {
        seq![(LossKind::Other, Severity::Approximated)]
    } else {
        Seq::empty()
    })
}

/// What [`convert_component_reverse`] makes of `data_in` and the report `rep_in`.
pub open spec fn convert_component_reverse_effect(data_in: NbtMap, data_out: NbtMap, rep_in: LossReport, rep_out: LossReport) -> bool {
    &&& hover_back(data_in@, data_out@)
    &&& click_back(data_in@, data_out@)
    &&& without_events(data_out@) == without_events(data_in@)
    &&& appended(rep_in.entries@, rep_out.entries@, reverse_reports(data_in@))
}

/// Reverse on a text component.
pub fn convert_component_reverse(root: &mut NbtMap, rep: &mut LossReport)
    ensures
        hover_back(old(root)@, final(root)@),
        click_back(old(root)@, final(root)@),
        without_events(final(root)@) == without_events(old(root)@),
        appended(old(rep).entries@, final(rep).entries@, reverse_reports(old(root)@)),
{
    proof {
        lemma_event_keys();
    }
    let ghost r0 = root@;
    let ghost e0 = rep.entries@;
    match root.take_map("hover_event") {
        Some(mut h) => {
            let ghost mid = root@;
            let collapsed = revert_hover(&mut h);
            if collapsed {
                report(
                    rep,
                    VERSION,
                    LossKind::FingerprintCollapse,
                    Severity::Approximated,
                    "show_item hover_event with only id could have come from legacy bare-string contents or contents map; restored map form",
                );
            }
            root.set_map("hover_event", h);
            proof {
                lemma_put_back(r0, mid, "hover_event"@, NbtValue::Compound(h));
            }
        },
        None => {},
    }
    root.rename_key("hover_event", "hoverEvent");
    let ghost r1 = root@;
    let ghost e1 = rep.entries@;
    assert(without_events(r1) =~= without_events(r0));
    match root.take_map("click_event") {
        Some(mut c) => {
            let ghost mid = root@;
            let restored = revert_click(&mut c);
            if restored {
                report(
                    rep,
                    VERSION,
                    LossKind::Other,
                    Severity::Approximated,
                    "click_event change_page restored as string value from clamped int page; original value type/sub-1 magnitude not recoverable",
                );
            }
            root.set_map("click_event", c);
            proof {
                lemma_put_back(r1, mid, "click_event"@, NbtValue::Compound(c));
            }
        },
        None => {},
    }
    root.rename_key("click_event", "clickEvent");
    assert(without_events(root@) =~= without_events(r1));
    proof {
        let tags = reverse_reports(r0);
        assert(map_of(r0, "click_event"@) == map_of(r1, "click_event"@));
        assert(rep.entries@.subrange(0, e0.len() as int) =~= e0) by {
            assert(rep.entries@.subrange(0, e1.len() as int) =~= e1);
            assert(e1.subrange(0, e0.len() as int) =~= e0);
        }
        assert forall|i: int| 0 <= i < tags.len() implies (#[trigger] rep.entries@[e0.len() + i]).version == VERSION
            && rep.entries@[e0.len() + i].kind == tags[i].0 && rep.entries@[e0.len() + i].severity == tags[i].1 by {
            if e0.len() + i < e1.len() {
                assert(rep.entries@[e0.len() + i] == rep.entries@.subrange(0, e1.len() as int)[e0.len() + i]);
            }
        }
    }
}

/// What the text component walker makes of the component `d0` once its
/// `extra` and `separator` are done: by the `action` of its `hover_event`,
/// the shown text, item or entity converted.
pub open spec fn hover_event_converted(e: Seq<Registration>, d0: NbtMap, d1: NbtMap, r0: LossReport, r1: LossReport, from: i32, to: i32, fuel: nat) -> bool
    decreases fuel, 4int, 0int,
{
    match map_of(d0@, "hover_event"@) {
        None => d1@ == d0@ && r1 == r0,
        Some(h) => match str_of(h@, "action"@) {
            Some(a) => if a == "show_text"@ {
                exists|h2: NbtMap| #![trigger compound_of(h2)]
                    at_path_converted(e, TypeKey::TextComponent, "value"@, h, h2, r0, r1, from, to, fuel)
                        && d1@ == d0@.insert("hover_event"@, compound_of(h2))
            } else if a == "show_item"@ {
                at_path_converted(e, TypeKey::ItemStack, "hover_event"@, d0, d1, r0, r1, from, to, fuel)
            } else if a == "show_entity"@ {
                exists|hm: NbtMap, h2: NbtMap| #![trigger value_at_path_converted(e, TypeKey::EntityName, "id"@, h, hm, from, to), compound_of(h2)]
                    value_at_path_converted(e, TypeKey::EntityName, "id"@, h, hm, from, to)
                        && at_path_converted(e, TypeKey::TextComponent, "name"@, hm, h2, r0, r1, from, to, fuel)
                        && d1@ == d0@.insert("hover_event"@, compound_of(h2))
            } else {
                d1@ == d0@ && r1 == r0
            },
            None => d1@ == d0@ && r1 == r0,
        },
    }
}

/// What the text component walker makes of a component: `extra` converted
/// as a list of components, `separator` as a component, then the hover
/// event.
pub open spec fn text_walked(e: Seq<Registration>, d0: NbtMap, d1: NbtMap, r0: LossReport, r1: LossReport, from: i32, to: i32, fuel: nat) -> bool
    decreases fuel, 8int, 0int,
{
    exists|da: NbtMap, ra: LossReport, db: NbtMap, rb: LossReport|
        #![trigger state_pair(da, ra), state_pair(db, rb)]
        state_pair(da, ra) == (da, ra) && state_pair(db, rb) == (db, rb) && list_converted(e, TypeKey::TextComponent, "extra"@, d0, da, r0, ra, from, to, fuel)
            && at_path_converted(e, TypeKey::TextComponent, "separator"@, da, db, ra, rb, from, to, fuel)
            && hover_event_converted(e, db, d1, rb, r1, from, to, fuel)
}

/// The text component walker: `extra`, `separator`, and the hover event.
pub fn walk_text_component(reg: &Registry, root: &mut NbtMap, from: i32, to: i32, report: &mut LossReport, fuel: u32)
    requires
        fuel > 0,
    ensures
        report_grows(*old(report), *final(report)),
        text_walked(reg.entries@, *old(root), *final(root), *old(report), *final(report), from, to, fuel as nat),
    decreases fuel, 3int,
{
    let ghost e = reg.entries@;
    let ghost r0 = *report;
    convert_list(reg, TypeKey::TextComponent, root, "extra", from, to, report, fuel);
    let ghost r1 = *report;
    let ghost da = *root;
    convert(reg, TypeKey::TextComponent, root, "separator", from, to, report, fuel);
    let ghost r2 = *report;
    let ghost db = *root;
    proof {
        lemma_report_grows_trans(r0, r1, r2);
        reveal_strlit("show_text");
        reveal_strlit("show_item");
        reveal_strlit("show_entity");
    }
    let action: u8 = match root.get_map("hover_event") {
        Some(h) => match h.get_string("action") {
            Some(a) => if str_eq(a, "show_text") {
                1
            } else if str_eq(a, "show_item") {
                2
            } else if str_eq(a, "show_entity") {
                3
            } else {
                0
            },
            None => 0,
        },
        None => 0,
    };
    if action == 1 {
        match root.take_map("hover_event") {
            Some(mut h) => {
                let ghost mid = *root;
                let ghost h0 = h;
                convert(reg, TypeKey::TextComponent, &mut h, "value", from, to, report, fuel);
                let ghost h1 = h;
                root.set_map("hover_event", h);
                proof {
                    lemma_replaced_at(db@, mid@, "hover_event"@, NbtValue::Compound(h1));
                    assert(compound_of(h1) == NbtValue::Compound(h1));
                    assert(at_path_converted(e, TypeKey::TextComponent, "value"@, h0, h1, r2, *report, from, to, fuel as nat));
                }
            },
            None => {},
        }
    } else if action == 2 {
        convert(reg, TypeKey::ItemStack, root, "hover_event", from, to, report, fuel);
    } else if action == 3 {
        match root.take_map("hover_event") {
            Some(mut h) => {
                let ghost mid = *root;
                let ghost h0 = h;
                convert_value(reg, TypeKey::EntityName, &mut h, "id", from, to);
                let ghost hm = h;
                convert(reg, TypeKey::TextComponent, &mut h, "name", from, to, report, fuel);
                let ghost h1 = h;
                root.set_map("hover_event", h);
                proof {
                    lemma_replaced_at(db@, mid@, "hover_event"@, NbtValue::Compound(h1));
                    assert(compound_of(h1) == NbtValue::Compound(h1));
                    assert(value_at_path_converted(e, TypeKey::EntityName, "id"@, h0, hm, from, to));
                    assert(at_path_converted(e, TypeKey::TextComponent, "name"@, hm, h1, r2, *report, from, to, fuel as nat));
                }
            },
            None => {},
        }
    }
    proof {
        lemma_report_grows_trans(r0, r2, *report);
        assert(hover_event_converted(e, db, *root, r2, *report, from, to, fuel as nat));
        assert(list_converted(e, TypeKey::TextComponent, "extra"@, *old(root), da, r0, r1, from, to, fuel as nat));
        assert(at_path_converted(e, TypeKey::TextComponent, "separator"@, da, db, r1, r2, from, to, fuel as nat));
        assert(state_pair(da, r1) == (da, r1));
        assert(state_pair(db, r2) == (db, r2));
    }
}

/// What this version registers.
pub open spec fn registrations() -> Seq<Registration> {
    seq![
        entry(TypeKey::TextComponent, VERSION, 0, Action::Convert(Conv::V4292ConvertComponent)),
        entry(TypeKey::TextComponent, VERSION, 0, Action::Revert(Conv::V4292RevertComponent)),
        entry(TypeKey::TextComponent, VERSION, 0, Action::WalkAll(Walker::Custom(CustomWalker::V4292TextComponent))),
    ]
}

/// Register this version's converters and walker.
pub fn register(reg: &mut RegistryBuilder)
    ensures
        final(reg).entries@ == old(reg).entries@ + registrations(),
{
    reg.add(TypeKey::TextComponent, VERSION, 0, Action::Convert(Conv::V4292ConvertComponent));
    reg.add(TypeKey::TextComponent, VERSION, 0, Action::Revert(Conv::V4292RevertComponent));
    reg.add(TypeKey::TextComponent, VERSION, 0, Action::WalkAll(Walker::Custom(CustomWalker::V4292TextComponent)));
    proof {
        assert(final(reg).entries@ =~= old(reg).entries@ + registrations());
    }
}

} // verus!
