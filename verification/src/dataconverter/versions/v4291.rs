//! V4291: text component formatting flags stored as the strings `"true"` /
//! `"false"` become real booleans.

use vstd::prelude::*;
use crate::nbt::{is_str, lookup, str_of, NbtMap, NbtValue};
use crate::text::{eq_ignore_ascii_case, same_ignoring_ascii_case};
use super::super::registry::{entry, Action, Registration, RegistryBuilder, TypeKey};
use super::super::dispatch::Conv;

verus! {

/// This version.
pub const VERSION: i32 = 4291;

/// The formatting fields that hold a boolean.
pub open spec fn is_flag_path(k: Seq<char>) -> bool {
    k == "bold"@ || k == "italic"@ || k == "underlined"@ || k == "strikethrough"@ || k == "obfuscated"@
        || k == "interpret"@
}

/// A flag after the forward change: a string is parsed as a boolean (true
/// exactly for `true` in any ASCII case); anything else stays.
pub open spec fn parsed_flag(v: NbtValue) -> NbtValue {
    match v {
        NbtValue::String(s) => NbtValue::Byte(if same_ignoring_ascii_case(s@, "true"@) { 1i8 } else { 0i8 }),
        _ => v,
    }
}

/// Parse the flag at `path` when it is a string.
pub fn convert_to_boolean(data: &mut NbtMap, path: &str)
    ensures
        match lookup(old(data)@, path@) {
            Some(v) => final(data)@ == old(data)@.insert(path@, parsed_flag(v)),
            None => final(data)@ == old(data)@,
        },
{
    let truth = match data.get_string(path) {
        Some(v) => eq_ignore_ascii_case(v, "true"),
        None => {
            proof {
                if old(data)@.dom().contains(path@) {
                    assert(old(data)@.insert(path@, old(data)@[path@]) =~= old(data)@);
                }
            }
            return;
        },
    };
    data.set_bool(path, truth);
}

/// Write the flag at `path` back as text when it is a byte.
pub fn convert_to_text(data: &mut NbtMap, path: &str)
    ensures
        match lookup(old(data)@, path@) {
            Some(NbtValue::Byte(b)) => final(data)@ == old(data)@.insert(path@, final(data)@[path@])
                && is_str(final(data)@[path@], if b != 0 { "true"@ } else { "false"@ }),
            _ => final(data)@ == old(data)@,
        },
{
    let b = match data.get(path) {
        Some(NbtValue::Byte(b)) => *b,
        _ => return,
    };
    data.set_string(path, if b != 0 { "true" } else { "false" });
}

proof fn lemma_flag_paths_distinct()
    ensures
        "bold"@ != "italic"@,
        "bold"@ != "underlined"@,
        "bold"@ != "strikethrough"@,
        "bold"@ != "obfuscated"@,
        "bold"@ != "interpret"@,
        "italic"@ != "underlined"@,
        "italic"@ != "strikethrough"@,
        "italic"@ != "obfuscated"@,
        "italic"@ != "interpret"@,
        "underlined"@ != "strikethrough"@,
        "underlined"@ != "obfuscated"@,
        "underlined"@ != "interpret"@,
        "strikethrough"@ != "obfuscated"@,
        "strikethrough"@ != "interpret"@,
        "obfuscated"@ != "interpret"@,
{
    reveal_strlit("bold");
    reveal_strlit("italic");
    reveal_strlit("underlined");
    reveal_strlit("strikethrough");
    reveal_strlit("obfuscated");
    reveal_strlit("interpret");
    assert("bold"@[0] != "italic"@[0]);
    assert("bold"@[0] != "underlined"@[0]);
    assert("bold"@[0] != "strikethrough"@[0]);
    assert("bold"@[0] != "obfuscated"@[0]);
    assert("bold"@[0] != "interpret"@[0]);
    assert("italic"@[0] != "underlined"@[0]);
    assert("italic"@[0] != "strikethrough"@[0]);
    assert("italic"@[0] != "obfuscated"@[0]);
    assert("italic"@[1] != "interpret"@[1]);
    assert("underlined"@[0] != "strikethrough"@[0]);
    assert("underlined"@[0] != "obfuscated"@[0]);
    assert("underlined"@[0] != "interpret"@[0]);
    assert("strikethrough"@[0] != "obfuscated"@[0]);
    assert("strikethrough"@[0] != "interpret"@[0]);
    assert("obfuscated"@[0] != "interpret"@[0]);
}

/// What [`parse_flags`] makes of `data_in`.
pub open spec fn parse_flags_effect(data_in: NbtMap, data_out: NbtMap) -> bool {
    &&& data_out@.dom() == data_in@.dom()
    &&& forall|k: Seq<char>| #[trigger] data_in@.dom().contains(k) ==> data_out@[k] == if is_flag_path(k) {
                parsed_flag(data_in@[k])
            } else {
                data_in@[k]
            }
}

/// Forward: every flag field holding a string is parsed.
pub fn parse_flags(data: &mut NbtMap)
    ensures
        final(data)@.dom() == old(data)@.dom(),
        forall|k: Seq<char>| #[trigger] old(data)@.dom().contains(k) ==> final(data)@[k] == if is_flag_path(k) {
            parsed_flag(old(data)@[k])
        } else {
            old(data)@[k]
        },
{
    proof {
        lemma_flag_paths_distinct();
    }
    convert_to_boolean(data, "bold");
    convert_to_boolean(data, "italic");
    convert_to_boolean(data, "underlined");
    convert_to_boolean(data, "strikethrough");
    convert_to_boolean(data, "obfuscated");
    convert_to_boolean(data, "interpret");
    proof {
        assert(final(data)@.dom() =~= old(data)@.dom());
    }
}

/// What [`unparse_flags`] makes of `data_in`.
pub open spec fn unparse_flags_effect(data_in: NbtMap, data_out: NbtMap) -> bool {
    &&& data_out@.dom() == data_in@.dom()
    &&& forall|k: Seq<char>| #[trigger] data_in@.dom().contains(k) ==> if is_flag_path(k) && data_in@[k] is Byte {
                is_str(data_out@[k], if data_in@[k]->Byte_0 != 0 { "true"@ } else { "false"@ })
            } else {
                data_out@[k] == data_in@[k]
            }
}

/// Reverse: every flag field holding a byte is written back as the text
/// the older format stored (lossless: the byte tells which).
pub fn unparse_flags(data: &mut NbtMap)
    ensures
        final(data)@.dom() == old(data)@.dom(),
        forall|k: Seq<char>| #[trigger] old(data)@.dom().contains(k) ==> if is_flag_path(k) && old(data)@[k] is Byte {
            is_str(final(data)@[k], if old(data)@[k]->Byte_0 != 0 { "true"@ } else { "false"@ })
        } else {
            final(data)@[k] == old(data)@[k]
        },
{
    proof {
        lemma_flag_paths_distinct();
    }
    convert_to_text(data, "bold");
    convert_to_text(data, "italic");
    convert_to_text(data, "underlined");
    convert_to_text(data, "strikethrough");
    convert_to_text(data, "obfuscated");
    convert_to_text(data, "interpret");
    proof {
        assert(final(data)@.dom() =~= old(data)@.dom());
    }
}

/// What this version registers.
pub open spec fn registrations() -> Seq<Registration> {
    seq![
        entry(TypeKey::TextComponent, VERSION, 0, Action::Convert(Conv::V4291ParseFlags)),
        entry(TypeKey::TextComponent, VERSION, 0, Action::Revert(Conv::V4291UnparseFlags)),
    ]
}

/// Register this version's converters.
pub fn register(reg: &mut RegistryBuilder)
    ensures
        final(reg).entries@ == old(reg).entries@ + registrations(),
{
    reg.add(TypeKey::TextComponent, VERSION, 0, Action::Convert(Conv::V4291ParseFlags));
    reg.add(TypeKey::TextComponent, VERSION, 0, Action::Revert(Conv::V4291UnparseFlags));
    proof {
        assert(final(reg).entries@ =~= old(reg).entries@ + registrations());
    }
}

} // verus!
