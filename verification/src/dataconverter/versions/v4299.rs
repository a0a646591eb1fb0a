//! V4299: bucketed-mob data moves out of the item component
//! `minecraft:bucket_entity_data` (and a painting's variant out of
//! `minecraft:entity_data`) into dedicated variant components.

use vstd::prelude::*;
use crate::nbt::{int_of, lemma_put_back, lookup, map_of, str_of, within, NbtMap, NbtValue};
use crate::text::str_eq;
use super::super::registry::{entry, Action, Registration, RegistryBuilder, TypeKey};
use super::super::dispatch::Conv;

verus! {

/// This version.
pub const VERSION: i32 = 4299;

/// The axolotl variants, by their old index.
pub open spec fn axolotl_variants() -> Seq<&'static str> {
    seq!["lucy", "wild", "gold", "cyan", "blue"]
}

/// The axolotl variants, by their old index.
pub fn axolotl_table() -> (t: &'static [&'static str])
    ensures
        t@ == axolotl_variants(),
{
    &["lucy", "wild", "gold", "cyan", "blue"]
}

/// The banner colours, by their id.
pub open spec fn banner_colours() -> Seq<&'static str> {
    seq![
        "white",
        "orange",
        "magenta",
        "light_blue",
        "yellow",
        "lime",
        "pink",
        "gray",
        "light_gray",
        "cyan",
        "purple",
        "blue",
        "brown",
        "green",
        "red",
        "black",
    ]
}

/// The banner colours, by their id.
pub fn banner_colour_table() -> (t: &'static [&'static str])
    ensures
        t@ == banner_colours(),
{
    &[
        "white",
        "orange",
        "magenta",
        "light_blue",
        "yellow",
        "lime",
        "pink",
        "gray",
        "light_gray",
        "cyan",
        "purple",
        "blue",
        "brown",
        "green",
        "red",
        "black",
    ]
}

/// The entry of `t` at `i`, or its first entry where `i` is out of range.
pub open spec fn entry_or_first(t: Seq<&'static str>, i: int) -> &'static str {
    if 0 <= i < t.len() {
        t[i]
    } else {
        t[0]
    }
}

/// The first index from `i` on where `t` holds `name`.
pub open spec fn first_index_from(t: Seq<&'static str>, name: Seq<char>, i: int) -> Option<int>
    decreases t.len() - i,
{
    if 0 <= i < t.len() {
        if t[i]@ == name {
            Some(i)
        } else {
            first_index_from(t, name, i + 1)
        }
    } else {
        None
    }
}

/// The first index where `t` holds `name`, or 0.
pub open spec fn index_or_zero(t: Seq<&'static str>, name: Seq<char>) -> int {
    match first_index_from(t, name, 0) {
        Some(i) => i,
        None => 0,
    }
}

/// The entry of `t` at `index`, or its first entry where out of range.
fn lookup_in(t: &'static [&'static str], index: i32) -> (r: &'static str)
    requires
        t@.len() > 0,
    ensures
        r == entry_or_first(t@, index as int),
{
    if index >= 0 && (index as usize) < t.len() {
        t[index as usize]
    } else {
        t[0]
    }
}

/// The first index where `t` holds `name`, or 0.
fn index_in(t: &'static [&'static str], name: &str) -> (r: i32)
    requires
        t@.len() < 0x8000_0000,
    ensures
        r == index_or_zero(t@, name@),
{
    let mut i: usize = 0;
    while i < t.len()
        invariant
            i <= t@.len(),
            t@.len() < 0x8000_0000,
            first_index_from(t@, name@, 0) == first_index_from(t@, name@, i as int),
        decreases t@.len() - i,
    {
        if str_eq(t[i], name) {
            return i as i32;
        }
        i = i + 1;
    }
    0
}

/// The axolotl variant of an old index (out of range reads as `lucy`).
pub fn lookup_axolotl(index: i32) -> (r: &'static str)
    ensures
        r == entry_or_first(axolotl_variants(), index as int),
{
    lookup_in(axolotl_table(), index)
}

/// The old index of an axolotl variant (unknown names read as 0).
pub fn axolotl_index(name: &str) -> (r: i32)
    ensures
        r == index_or_zero(axolotl_variants(), name@),
{
    index_in(axolotl_table(), name)
}

/// The banner colour of an id (out of range reads as `white`).
pub fn banner_colour(id: i32) -> (r: &'static str)
    ensures
        r == entry_or_first(banner_colours(), id as int),
{
    lookup_in(banner_colour_table(), id)
}

/// The id of a banner colour (unknown names read as 0).
pub fn banner_colour_id(name: &str) -> (r: i32)
    ensures
        r == index_or_zero(banner_colours(), name@),
{
    index_in(banner_colour_table(), name)
}

/// The tropical fish pattern of the low 16 bits of a variant.
pub open spec fn fish_pattern_name(code: int) -> Seq<char> {
    if code == 1 {
        "flopper"@
    } else if code == 256 {
        "sunstreak"@
    } else if code == 257 {
        "stripey"@
    } else if code == 512 {
        "snooper"@
    } else if code == 513 {
        "glitter"@
    } else if code == 768 {
        "dasher"@
    } else if code == 769 {
        "blockfish"@
    } else if code == 1024 {
        "brinely"@
    } else if code == 1025 {
        "betty"@
    } else if code == 1280 {
        "spotty"@
    } else if code == 1281 {
        "clayfish"@
    } else {
        "kob"@
    }
}

/// The low-16-bit code of a tropical fish pattern (`kob` and unknown names
/// read as 0).
pub open spec fn fish_code_of(name: Seq<char>) -> int {
    if name == "flopper"@ {
        1
    } else if name == "sunstreak"@ {
        256
    } else if name == "stripey"@ {
        257
    } else if name == "snooper"@ {
        512
    } else if name == "glitter"@ {
        513
    } else if name == "dasher"@ {
        768
    } else if name == "blockfish"@ {
        769
    } else if name == "brinely"@ {
        1024
    } else if name == "betty"@ {
        1025
    } else if name == "spotty"@ {
        1280
    } else if name == "clayfish"@ {
        1281
    } else {
        0
    }
}

/// The codes the fish pattern table lists, with 0 for `kob`.
pub open spec fn is_fish_code(code: int) -> bool {
    code == 0 || code == 1 || code == 256 || code == 257 || code == 512 || code == 513 || code == 768 || code
        == 769 || code == 1024 || code == 1025 || code == 1280 || code == 1281
}

/// The tropical fish pattern of a code.
pub fn lookup_fish_pattern(variant: i32) -> (r: &'static str)
    ensures
        r@ == fish_pattern_name(variant as int),
{
    if variant == 1 {
        "flopper"
    } else if variant == 256 {
        "sunstreak"
    } else if variant == 257 {
        "stripey"
    } else if variant == 512 {
        "snooper"
    } else if variant == 513 {
        "glitter"
    } else if variant == 768 {
        "dasher"
    } else if variant == 769 {
        "blockfish"
    } else if variant == 1024 {
        "brinely"
    } else if variant == 1025 {
        "betty"
    } else if variant == 1280 {
        "spotty"
    } else if variant == 1281 {
        "clayfish"
    } else {
        "kob"
    }
}

/// The code of a tropical fish pattern.
pub fn fish_pattern_code(pattern: &str) -> (r: i32)
    ensures
        r == fish_code_of(pattern@),
{
    if str_eq(pattern, "flopper") {
        1
    } else if str_eq(pattern, "sunstreak") {
        256
    } else if str_eq(pattern, "stripey") {
        257
    } else if str_eq(pattern, "snooper") {
        512
    } else if str_eq(pattern, "glitter") {
        513
    } else if str_eq(pattern, "dasher") {
        768
    } else if str_eq(pattern, "blockfish") {
        769
    } else if str_eq(pattern, "brinely") {
        1024
    } else if str_eq(pattern, "betty") {
        1025
    } else if str_eq(pattern, "spotty") {
        1280
    } else if str_eq(pattern, "clayfish") {
        1281
    } else {
        0
    }
}

/// The 32 bits of `v` read as an unsigned number.
pub open spec fn unsigned(v: i32) -> int {
    if v < 0 {
        v + 0x1_0000_0000
    } else {
        v as int
    }
}

/// Bits 0..16 of a tropical fish variant: the pattern.
pub open spec fn pattern_bits(v: i32) -> int {
    unsigned(v) % 0x1_0000
}

/// Bits 16..24 of a tropical fish variant: the base colour.
pub open spec fn base_bits(v: i32) -> int {
    (unsigned(v) / 0x1_0000) % 0x100
}

/// Bits 24..32 of a tropical fish variant: the pattern colour.
pub open spec fn pattern_colour_bits(v: i32) -> int {
    unsigned(v) / 0x100_0000
}

/// The pattern, base colour and pattern colour fields of a variant.
pub fn unpack_variant(variant: i32) -> (r: (i32, i32, i32))
    ensures
        r.0 == pattern_bits(variant),
        r.1 == base_bits(variant),
        r.2 == pattern_colour_bits(variant),
{
    let v = #[verifier::truncate] (variant as u32);
    assert(v as int == unsigned(variant)) by (bit_vector)
        requires
            v == #[verifier::truncate] (variant as u32),
    ;
    let p = v & 0xFFFF;
    let b = (v >> 16) & 0xFF;
    let c = (v >> 24) & 0xFF;
    assert(p == v % 0x1_0000 && b == (v / 0x1_0000) % 0x100 && c == v / 0x100_0000) by (bit_vector)
        requires
            p == v & 0xFFFF,
            b == (v >> 16) & 0xFF,
            c == (v >> 24) & 0xFF,
    ;
    (p as i32, b as i32, c as i32)
}

/// The variant packing a pattern code and two colour ids.
pub open spec fn packed(p: int, b: int, c: int) -> int {
    p + b * 0x1_0000 + c * 0x100_0000
}

/// Pack a pattern code and two colour ids into a variant.
pub fn pack_variant(p: i32, b: i32, c: i32) -> (r: i32)
    requires
        0 <= p < 0x1_0000,
        0 <= b < 16,
        0 <= c < 16,
    ensures
        r == packed(p as int, b as int, c as int),
{
    let pu = p as u32;
    let bu = b as u32;
    let cu = c as u32;
    let v: u32 = (pu & 0xFFFF) | ((bu & 0xFF) << 16) | ((cu & 0xFF) << 24);
    assert(v == pu + bu * 0x1_0000 + cu * 0x100_0000) by (bit_vector)
        requires
            pu < 0x1_0000,
            bu < 16,
            cu < 16,
            v == (pu & 0xFFFF) | ((bu & 0xFF) << 16) | ((cu & 0xFF) << 24),
    ;
    v as i32
}

/// The names of the fish pattern table and `kob`, read off their literals.
proof fn lemma_fish_names()
    ensures
        forall|code: int| #[trigger] is_fish_code(code) ==> fish_code_of(fish_pattern_name(code)) == code,
{
    reveal_strlit("flopper");
    reveal_strlit("sunstreak");
    reveal_strlit("stripey");
    reveal_strlit("snooper");
    reveal_strlit("glitter");
    reveal_strlit("dasher");
    reveal_strlit("blockfish");
    reveal_strlit("brinely");
    reveal_strlit("betty");
    reveal_strlit("spotty");
    reveal_strlit("clayfish");
    reveal_strlit("kob");
    let names: Seq<Seq<char>> = seq![
        "flopper"@,
        "sunstreak"@,
        "stripey"@,
        "snooper"@,
        "glitter"@,
        "dasher"@,
        "blockfish"@,
        "brinely"@,
        "betty"@,
        "spotty"@,
        "clayfish"@,
        "kob"@,
    ];
    assert forall|j: int, k: int| 0 <= j < k < 12 implies #[trigger] names[j] != #[trigger] names[k] by {
        let a = names[j];
        let b = names[k];
        if a == b {
            assert(a.len() == b.len());
            assert(a[0] == b[0]);
            assert(a[1] == b[1]);
        }
    }
    assert forall|code: int| #[trigger] is_fish_code(code) implies fish_code_of(fish_pattern_name(code)) == code by {
        assert(names[0] == "flopper"@ && names[1] == "sunstreak"@ && names[2] == "stripey"@);
        assert(names[3] == "snooper"@ && names[4] == "glitter"@ && names[5] == "dasher"@);
        assert(names[6] == "blockfish"@ && names[7] == "brinely"@ && names[8] == "betty"@);
        assert(names[9] == "spotty"@ && names[10] == "clayfish"@ && names[11] == "kob"@);
    }
}

/// No earlier entry of `t` equals entry `k`, so the first index of entry
/// `k` is `k`.
proof fn lemma_first_index(t: Seq<&'static str>, k: int, i: int)
    requires
        0 <= i <= k < t.len(),
        forall|j: int| 0 <= j < k ==> t[j]@ != t[k]@,
    ensures
        first_index_from(t, t[k]@, i) == Some(k),
    decreases k - i,
{
    if i < k {
        lemma_first_index(t, k, i + 1);
    }
}

/// The axolotl variants are distinct.
proof fn lemma_axolotl_distinct()
    ensures
        forall|j: int, k: int| 0 <= j < k < 5 ==> #[trigger] axolotl_variants()[j]@ != #[trigger] axolotl_variants()[k]@,
{
    reveal_strlit("lucy");
    reveal_strlit("wild");
    reveal_strlit("gold");
    reveal_strlit("cyan");
    reveal_strlit("blue");
    assert(axolotl_variants()[0]@[0] == 'l');
    assert(axolotl_variants()[1]@[0] == 'w');
    assert(axolotl_variants()[2]@[0] == 'g');
    assert(axolotl_variants()[3]@[0] == 'c');
    assert(axolotl_variants()[4]@[0] == 'b');
}

/// The banner colours are distinct: each is told apart by its length and
/// its first and last characters.
proof fn lemma_colours_distinct()
    ensures
        forall|j: int, k: int| 0 <= j < k < 16 ==> #[trigger] banner_colours()[j]@ != #[trigger] banner_colours()[k]@,
{
    reveal_strlit("white");
    reveal_strlit("orange");
    reveal_strlit("magenta");
    reveal_strlit("light_blue");
    reveal_strlit("yellow");
    reveal_strlit("lime");
    reveal_strlit("pink");
    reveal_strlit("gray");
    reveal_strlit("light_gray");
    reveal_strlit("cyan");
    reveal_strlit("purple");
    reveal_strlit("blue");
    reveal_strlit("brown");
    reveal_strlit("green");
    reveal_strlit("red");
    reveal_strlit("black");
    let t = banner_colours();
    assert forall|j: int, k: int| 0 <= j < k < 16 implies #[trigger] t[j]@ != #[trigger] t[k]@ by {
        let a = t[j]@;
        let b = t[k]@;
        if a == b {
            assert(a.len() == b.len());
            assert(a[0] == b[0]);
            assert(a[a.len() - 1] == b[b.len() - 1]);
        }
    }
}

/// Reading an old axolotl index as a variant and back gives the index.
pub proof fn law_axolotl_round_trip(i: i32)
    requires
        0 <= i < 5,
    ensures
        index_or_zero(axolotl_variants(), entry_or_first(axolotl_variants(), i as int)@) == i,
{
    lemma_axolotl_distinct();
    lemma_first_index(axolotl_variants(), i as int, 0);
}

/// Reading a colour id as a banner colour and back gives the id.
pub proof fn law_colour_round_trip(i: int)
    requires
        0 <= i < 16,
    ensures
        index_or_zero(banner_colours(), entry_or_first(banner_colours(), i)@) == i,
{
    lemma_colours_distinct();
    lemma_first_index(banner_colours(), i, 0);
}

/// Unpacking a tropical fish variant into pattern and colour names and
/// packing those back gives the variant, where its pattern is listed and its
/// colours are banner colours.
pub proof fn law_fish_variant_round_trip(v: i32)
    requires
        is_fish_code(pattern_bits(v)),
        base_bits(v) < 16,
        pattern_colour_bits(v) < 16,
    ensures
        packed(
            fish_code_of(fish_pattern_name(pattern_bits(v))),
            index_or_zero(banner_colours(), entry_or_first(banner_colours(), base_bits(v))@),
            index_or_zero(banner_colours(), entry_or_first(banner_colours(), pattern_colour_bits(v))@),
        ) == v,
{
    lemma_fish_names();
    law_colour_round_trip(base_bits(v));
    law_colour_round_trip(pattern_colour_bits(v));
    let u = unsigned(v);
    assert(u == (u / 0x1_0000) * 0x1_0000 + u % 0x1_0000);
    assert(u / 0x1_0000 == (u / 0x1_0000 / 0x100) * 0x100 + (u / 0x1_0000) % 0x100);
    assert(u / 0x1_0000 / 0x100 == u / 0x100_0000);
}

/// The keys this version moves data between are distinct.
proof fn lemma_keys()
    ensures
        "minecraft:bucket_entity_data"@ != "minecraft:axolotl/variant"@,
        "minecraft:bucket_entity_data"@ != "minecraft:salmon/size"@,
        "minecraft:bucket_entity_data"@ != "minecraft:tropical_fish/pattern"@,
        "minecraft:bucket_entity_data"@ != "minecraft:tropical_fish/base_color"@,
        "minecraft:bucket_entity_data"@ != "minecraft:tropical_fish/pattern_color"@,
        "minecraft:tropical_fish/pattern"@ != "minecraft:tropical_fish/base_color"@,
        "minecraft:tropical_fish/pattern"@ != "minecraft:tropical_fish/pattern_color"@,
        "minecraft:tropical_fish/base_color"@ != "minecraft:tropical_fish/pattern_color"@,
        "minecraft:entity_data"@ != "minecraft:painting/variant"@,
        "id"@ != "variant"@,
{
    reveal_strlit("minecraft:bucket_entity_data");
    reveal_strlit("minecraft:axolotl/variant");
    reveal_strlit("minecraft:salmon/size");
    reveal_strlit("minecraft:tropical_fish/pattern");
    reveal_strlit("minecraft:tropical_fish/base_color");
    reveal_strlit("minecraft:tropical_fish/pattern_color");
    reveal_strlit("minecraft:entity_data");
    reveal_strlit("minecraft:painting/variant");
    reveal_strlit("id");
    reveal_strlit("variant");
    assert("minecraft:bucket_entity_data"@[10] != "minecraft:axolotl/variant"@[10]);
    assert("minecraft:bucket_entity_data"@[10] != "minecraft:salmon/size"@[10]);
    assert("minecraft:bucket_entity_data"@[10] != "minecraft:tropical_fish/pattern"@[10]);
    assert("minecraft:bucket_entity_data"@[10] != "minecraft:tropical_fish/base_color"@[10]);
    assert("minecraft:bucket_entity_data"@[10] != "minecraft:tropical_fish/pattern_color"@[10]);
    assert("minecraft:tropical_fish/pattern"@[24] != "minecraft:tropical_fish/base_color"@[24]);
    assert("minecraft:tropical_fish/pattern"@.len() != "minecraft:tropical_fish/pattern_color"@.len());
    assert("minecraft:tropical_fish/base_color"@[24] != "minecraft:tropical_fish/pattern_color"@[24]);
    assert("minecraft:entity_data"@[10] != "minecraft:painting/variant"@[10]);
    assert("id"@[0] != "variant"@[0]);
}

/// A first index found from `i` on lies in `[i, t.len())`.
proof fn lemma_first_index_range(t: Seq<&'static str>, name: Seq<char>, i: int)
    requires
        0 <= i,
    ensures
        first_index_from(t, name, i) matches Some(k) ==> i <= k < t.len(),
    decreases t.len() - i,
{
    if 0 <= i < t.len() && t[i]@ != name {
        lemma_first_index_range(t, name, i + 1);
    }
}

/// Forward on components: an axolotl bucket's `Variant` index becomes
/// `minecraft:axolotl/variant`.
pub open spec fn axolotl_lifted(c: Map<Seq<char>, NbtValue>, c2: Map<Seq<char>, NbtValue>) -> bool {
    match map_of(c, "minecraft:bucket_entity_data"@) {
        Some(b) => match int_of(b@, "Variant"@) {
            Some(v) => {
                &&& map_of(c2, "minecraft:bucket_entity_data"@) matches Some(b2) && b2@ == b@.remove("Variant"@)
                &&& c2.remove("minecraft:bucket_entity_data"@).remove("minecraft:axolotl/variant"@) == c.remove(
                    "minecraft:bucket_entity_data"@,
                ).remove("minecraft:axolotl/variant"@)
                &&& str_of(c2, "minecraft:axolotl/variant"@) == Some(entry_or_first(axolotl_variants(), v as int)@)
            },
            None => c2 == c,
        },
        None => c2 == c,
    }
}

/// Forward on components of an axolotl bucket.
pub fn lift_axolotl(c: &mut NbtMap)
    ensures
        axolotl_lifted(old(c)@, final(c)@),
{
    let v = match c.get_map("minecraft:bucket_entity_data") {
        Some(b) => match b.get_i32("Variant") {
            Some(v) => v,
            None => return ,
        },
        None => return ,
    };
    let ghost c0 = c@;
    let mut b = c.take_map("minecraft:bucket_entity_data").unwrap();
    b.take("Variant");
    c.set_map("minecraft:bucket_entity_data", b);
    c.set_string("minecraft:axolotl/variant", lookup_axolotl(v));
    proof {
        lemma_keys();
        assert(c@.remove("minecraft:bucket_entity_data"@).remove("minecraft:axolotl/variant"@) =~= c0.remove(
            "minecraft:bucket_entity_data"@,
        ).remove("minecraft:axolotl/variant"@));
    }
}

/// Forward on components: a salmon bucket's `type` becomes
/// `minecraft:salmon/size`.
pub open spec fn salmon_lifted(c: Map<Seq<char>, NbtValue>, c2: Map<Seq<char>, NbtValue>) -> bool {
    match map_of(c, "minecraft:bucket_entity_data"@) {
        Some(b) => match lookup(b@, "type"@) {
            Some(t) => {
                &&& map_of(c2, "minecraft:bucket_entity_data"@) matches Some(b2) && b2@ == b@.remove("type"@)
                &&& c2.remove("minecraft:bucket_entity_data"@).remove("minecraft:salmon/size"@) == c.remove(
                    "minecraft:bucket_entity_data"@,
                ).remove("minecraft:salmon/size"@)
                &&& lookup(c2, "minecraft:salmon/size"@) == Some(t)
            },
            None => c2 == c,
        },
        None => c2 == c,
    }
}

/// Forward on components of a salmon bucket.
pub fn lift_salmon(c: &mut NbtMap)
    ensures
        salmon_lifted(old(c)@, final(c)@),
{
    match c.get_map("minecraft:bucket_entity_data") {
        Some(b) => {
            if !b.has_key("type") {
                return ;
            }
        },
        None => return ,
    }
    let ghost c0 = c@;
    let mut b = c.take_map("minecraft:bucket_entity_data").unwrap();
    let t = b.take("type").unwrap();
    c.set_map("minecraft:bucket_entity_data", b);
    c.set("minecraft:salmon/size", t);
    proof {
        lemma_keys();
        assert(c@.remove("minecraft:bucket_entity_data"@).remove("minecraft:salmon/size"@) =~= c0.remove(
            "minecraft:bucket_entity_data"@,
        ).remove("minecraft:salmon/size"@));
    }
}

/// Forward on components: a tropical fish bucket's `BucketVariantTag` is
/// unpacked into pattern, base colour and pattern colour components.
pub open spec fn tropical_lifted(c: Map<Seq<char>, NbtValue>, c2: Map<Seq<char>, NbtValue>) -> bool {
    match map_of(c, "minecraft:bucket_entity_data"@) {
        Some(b) => match int_of(b@, "BucketVariantTag"@) {
            Some(v) => {
                &&& map_of(c2, "minecraft:bucket_entity_data"@) matches Some(b2) && b2@ == b@.remove(
                    "BucketVariantTag"@,
                )
                &&& c2.remove("minecraft:bucket_entity_data"@).remove("minecraft:tropical_fish/pattern"@).remove(
                    "minecraft:tropical_fish/base_color"@,
                ).remove("minecraft:tropical_fish/pattern_color"@) == c.remove(
                    "minecraft:bucket_entity_data"@,
                ).remove("minecraft:tropical_fish/pattern"@).remove("minecraft:tropical_fish/base_color"@).remove(
                    "minecraft:tropical_fish/pattern_color"@,
                )
                &&& str_of(c2, "minecraft:tropical_fish/pattern"@) == Some(fish_pattern_name(pattern_bits(v)))
                &&& str_of(c2, "minecraft:tropical_fish/base_color"@) == Some(
                    entry_or_first(banner_colours(), base_bits(v))@,
                )
                &&& str_of(c2, "minecraft:tropical_fish/pattern_color"@) == Some(
                    entry_or_first(banner_colours(), pattern_colour_bits(v))@,
                )
            },
            None => c2 == c,
        },
        None => c2 == c,
    }
}

/// Forward on components of a tropical fish bucket.
pub fn lift_tropical_fish(c: &mut NbtMap)
    ensures
        tropical_lifted(old(c)@, final(c)@),
{
    let variant = match c.get_map("minecraft:bucket_entity_data") {
        Some(b) => match b.get_i32("BucketVariantTag") {
            Some(v) => v,
            None => return ,
        },
        None => return ,
    };
    let ghost c0 = c@;
    let mut b = c.take_map("minecraft:bucket_entity_data").unwrap();
    b.take("BucketVariantTag");
    c.set_map("minecraft:bucket_entity_data", b);
    let (p, base, pc) = unpack_variant(variant);
    c.set_string("minecraft:tropical_fish/pattern", lookup_fish_pattern(p));
    c.set_string("minecraft:tropical_fish/base_color", banner_colour(base));
    c.set_string("minecraft:tropical_fish/pattern_color", banner_colour(pc));
    proof {
        lemma_keys();
        assert(c@.remove("minecraft:bucket_entity_data"@).remove("minecraft:tropical_fish/pattern"@).remove(
            "minecraft:tropical_fish/base_color"@,
        ).remove("minecraft:tropical_fish/pattern_color"@) =~= c0.remove("minecraft:bucket_entity_data"@).remove(
            "minecraft:tropical_fish/pattern"@,
        ).remove("minecraft:tropical_fish/base_color"@).remove("minecraft:tropical_fish/pattern_color"@));
    }
}

/// Forward on components: a painting's `variant` moves out of its entity
/// data to `minecraft:painting/variant`; entity data left holding only its
/// id is dropped.
pub open spec fn painting_lifted(c: Map<Seq<char>, NbtValue>, c2: Map<Seq<char>, NbtValue>) -> bool {
    match map_of(c, "minecraft:entity_data"@) {
        Some(e) => if str_of(e@, "id"@) == Some("minecraft:painting"@) {
            let rest = e@.remove("variant"@);
            &&& c2.remove("minecraft:entity_data"@).remove("minecraft:painting/variant"@) == c.remove(
                "minecraft:entity_data"@,
            ).remove("minecraft:painting/variant"@)
            &&& lookup(c2, "minecraft:painting/variant"@) == (match lookup(e@, "variant"@) {
                Some(v) => Some(v),
                None => lookup(c, "minecraft:painting/variant"@),
            })
            &&& if rest.dom().len() == 1 {
                !c2.dom().contains("minecraft:entity_data"@)
            } else {
                map_of(c2, "minecraft:entity_data"@) matches Some(e2) && e2@ == rest
            }
        } else {
            c2 == c
        },
        None => c2 == c,
    }
}

/// Forward on components of a painting item.
pub fn lift_painting(c: &mut NbtMap)
    ensures
        painting_lifted(old(c)@, final(c)@),
{
    let is_painting = match c.get_map("minecraft:entity_data") {
        Some(e) => match e.get_string("id") {
            Some(s) => str_eq(s, "minecraft:painting"),
            None => false,
        },
        None => false,
    };
    if !is_painting {
        return ;
    }
    let ghost c0 = c@;
    let ghost e_old = map_of(c@, "minecraft:entity_data"@)->0;
    let mut e = c.take_map("minecraft:entity_data").unwrap();
    let ghost cmid = c@;
    let variant = e.take("variant");
    let remove = e.len() == 1;
    c.set_map("minecraft:entity_data", e);
    proof {
        lemma_put_back(c0, cmid, "minecraft:entity_data"@, NbtValue::Compound(e));
        lemma_keys();
        assert(lookup(c@, "minecraft:painting/variant"@) == lookup(c0, "minecraft:painting/variant"@));
    }
    match variant {
        Some(v) => c.set("minecraft:painting/variant", v),
        None => {},
    }
    assert(map_of(c@, "minecraft:entity_data"@) == Some(e));
    if remove {
        c.take("minecraft:entity_data");
    }
    proof {
        assert(c@.remove("minecraft:entity_data"@).remove("minecraft:painting/variant"@) =~= c0.remove(
            "minecraft:entity_data"@,
        ).remove("minecraft:painting/variant"@));
    }
}

/// Forward on the components of the item `id`.
pub open spec fn components_lifted(id: Seq<char>, c: Map<Seq<char>, NbtValue>, c2: Map<Seq<char>, NbtValue>) -> bool {
    if id == "minecraft:axolotl_bucket"@ {
        axolotl_lifted(c, c2)
    } else if id == "minecraft:salmon_bucket"@ {
        salmon_lifted(c, c2)
    } else if id == "minecraft:tropical_fish_bucket"@ {
        tropical_lifted(c, c2)
    } else if id == "minecraft:painting"@ {
        painting_lifted(c, c2)
    } else {
        c2 == c
    }
}

/// The item stack after the forward change.
pub open spec fn mob_data_lifted(old: Map<Seq<char>, NbtValue>, new: Map<Seq<char>, NbtValue>) -> bool {
    match str_of(old, "id"@) {
        Some(id) => within(old, new, "components"@, |c, c2| components_lifted(id, c, c2)),
        None => new == old,
    }
}

/// What [`lift_mob_data`] makes of `data_in`.
pub open spec fn lift_mob_data_effect(data_in: NbtMap, data_out: NbtMap) -> bool {
    &&& mob_data_lifted(data_in@, data_out@)
}

/// Forward on an item stack.
pub fn lift_mob_data(data: &mut NbtMap)
    ensures
        mob_data_lifted(old(data)@, final(data)@),
{
    if data.get_map("components").is_none() {
        return ;
    }
    let kind: u8 = match data.get_string("id") {
        Some(id) => if str_eq(id, "minecraft:axolotl_bucket") {
            1
        } else if str_eq(id, "minecraft:salmon_bucket") {
            2
        } else if str_eq(id, "minecraft:tropical_fish_bucket") {
            3
        } else if str_eq(id, "minecraft:painting") {
            4
        } else {
            0
        },
        None => return ,
    };
    let ghost id = str_of(data@, "id"@)->0;
    let mut c = data.take_map("components").unwrap();
    let ghost mid = data@;
    let ghost c0 = c@;
    if kind == 1 {
        lift_axolotl(&mut c);
    } else if kind == 2 {
        lift_salmon(&mut c);
    } else if kind == 3 {
        lift_tropical_fish(&mut c);
    } else if kind == 4 {
        lift_painting(&mut c);
    }
    proof {
        assert(components_lifted(id, c0, c@));
    }
    data.set_map("components", c);
    proof {
        lemma_put_back(old(data)@, mid, "components"@, NbtValue::Compound(c));
    }
}

/// The bucket entity data a reverse change writes into: the old one, or a
/// new empty one where there is no compound.
pub open spec fn bucket_before(c: Map<Seq<char>, NbtValue>) -> Map<Seq<char>, NbtValue> {
    match map_of(c, "minecraft:bucket_entity_data"@) {
        Some(b) => b@,
        None => Map::empty(),
    }
}

/// `c2` is `c` with `key` moved out and the bucket entity data holding `tag`
/// at `field`.
pub open spec fn into_bucket(
    c: Map<Seq<char>, NbtValue>,
    c2: Map<Seq<char>, NbtValue>,
    gone: Map<Seq<char>, NbtValue>,
    field: Seq<char>,
    tag: NbtValue,
) -> bool {
    &&& c2.remove("minecraft:bucket_entity_data"@) == gone.remove("minecraft:bucket_entity_data"@)
    &&& map_of(c2, "minecraft:bucket_entity_data"@) matches Some(b2) && b2@ == bucket_before(c).insert(field, tag)
}

/// Put `tag` at `field` of the bucket entity data of `c`, making the bucket
/// where there is none.
fn put_in_bucket(c: &mut NbtMap, field: &str, tag: NbtValue)
    ensures
        final(c)@.remove("minecraft:bucket_entity_data"@) == old(c)@.remove("minecraft:bucket_entity_data"@),
        map_of(final(c)@, "minecraft:bucket_entity_data"@) matches Some(b2) && b2@ == bucket_before(old(c)@).insert(
            field@,
            tag,
        ),
{
    let mut b = match c.take_map("minecraft:bucket_entity_data") {
        Some(b) => b,
        None => NbtMap::new(),
    };
    let ghost mid = c@;
    b.set(field, tag);
    c.set_map("minecraft:bucket_entity_data", b);
    proof {
        assert(c@.remove("minecraft:bucket_entity_data"@) =~= mid.remove("minecraft:bucket_entity_data"@));
    }
}

/// Reverse on components: `minecraft:axolotl/variant` goes back to the
/// bucket's `Variant` index.
pub open spec fn axolotl_lowered(c: Map<Seq<char>, NbtValue>, c2: Map<Seq<char>, NbtValue>) -> bool {
    match str_of(c, "minecraft:axolotl/variant"@) {
        Some(name) => into_bucket(
            c,
            c2,
            c.remove("minecraft:axolotl/variant"@),
            "Variant"@,
            NbtValue::Int(index_or_zero(axolotl_variants(), name) as i32),
        ),
        None => c2 == c,
    }
}

/// Reverse on components of an axolotl bucket.
pub fn lower_axolotl(c: &mut NbtMap)
    ensures
        axolotl_lowered(old(c)@, final(c)@),
{
    let variant = match c.get_string("minecraft:axolotl/variant") {
        Some(name) => axolotl_index(name),
        None => return ,
    };
    c.take("minecraft:axolotl/variant");
    proof {
        lemma_keys();
    }
    put_in_bucket(c, "Variant", NbtValue::Int(variant));
}

/// Reverse on components: `minecraft:salmon/size` goes back to the bucket's
/// `type`.
pub open spec fn salmon_lowered(c: Map<Seq<char>, NbtValue>, c2: Map<Seq<char>, NbtValue>) -> bool {
    match lookup(c, "minecraft:salmon/size"@) {
        Some(v) => into_bucket(c, c2, c.remove("minecraft:salmon/size"@), "type"@, v),
        None => c2 == c,
    }
}

/// Reverse on components of a salmon bucket.
pub fn lower_salmon(c: &mut NbtMap)
    ensures
        salmon_lowered(old(c)@, final(c)@),
{
    let size = match c.take("minecraft:salmon/size") {
        Some(v) => v,
        None => {
            proof {
                assert(c@ =~= old(c)@);
            }
            return ;
        },
    };
    proof {
        lemma_keys();
    }
    put_in_bucket(c, "type", size);
}

/// The pattern code a tag names: a string's code, else 0.
pub open spec fn code_of_tag(t: Option<NbtValue>) -> int {
    match t {
        Some(NbtValue::String(s)) => fish_code_of(s@),
        _ => 0,
    }
}

/// The colour id a tag names: a string's id, else 0.
pub open spec fn colour_of_tag(t: Option<NbtValue>) -> int {
    match t {
        Some(NbtValue::String(s)) => index_or_zero(banner_colours(), s@),
        _ => 0,
    }
}

/// Reverse on components: the three tropical fish components are packed
/// back into the bucket's `BucketVariantTag`.
pub open spec fn tropical_lowered(c: Map<Seq<char>, NbtValue>, c2: Map<Seq<char>, NbtValue>) -> bool {
    let p = lookup(c, "minecraft:tropical_fish/pattern"@);
    let b = lookup(c, "minecraft:tropical_fish/base_color"@);
    let pc = lookup(c, "minecraft:tropical_fish/pattern_color"@);
    if p is None && b is None && pc is None {
        c2 == c
    } else {
        into_bucket(
            c,
            c2,
            c.remove("minecraft:tropical_fish/pattern"@).remove("minecraft:tropical_fish/base_color"@).remove(
                "minecraft:tropical_fish/pattern_color"@,
            ),
            "BucketVariantTag"@,
            NbtValue::Int(packed(code_of_tag(p), colour_of_tag(b), colour_of_tag(pc)) as i32),
        )
    }
}

/// The pattern code of a tag.
fn tag_code(t: &Option<NbtValue>) -> (r: i32)
    ensures
        r == code_of_tag(*t),
        0 <= r < 0x1_0000,
{
    match t {
        Some(NbtValue::String(s)) => fish_pattern_code(s.as_str()),
        _ => 0,
    }
}

/// The colour id of a tag.
fn tag_colour(t: &Option<NbtValue>) -> (r: i32)
    ensures
        r == colour_of_tag(*t),
        0 <= r < 16,
{
    match t {
        Some(NbtValue::String(s)) => {
            proof {
                lemma_first_index_range(banner_colours(), s@, 0);
            }
            banner_colour_id(s.as_str())
        },
        _ => 0,
    }
}

/// Reverse on components of a tropical fish bucket.
pub fn lower_tropical_fish(c: &mut NbtMap)
    ensures
        tropical_lowered(old(c)@, final(c)@),
{
    let pattern = c.take("minecraft:tropical_fish/pattern");
    let base = c.take("minecraft:tropical_fish/base_color");
    let pattern_col = c.take("minecraft:tropical_fish/pattern_color");
    proof {
        lemma_keys();
    }
    if pattern.is_none() && base.is_none() && pattern_col.is_none() {
        proof {
            assert(c@ =~= old(c)@);
        }
        return ;
    }
    let variant = pack_variant(tag_code(&pattern), tag_colour(&base), tag_colour(&pattern_col));
    put_in_bucket(c, "BucketVariantTag", NbtValue::Int(variant));
}

/// `e2` is the painting entity data the reverse writes from `before` (the
/// old entity data, if a compound) with `v` as its variant: a string id is
/// kept, any other id becomes `minecraft:painting`.
pub open spec fn painting_restored(
    before: Option<Map<Seq<char>, NbtValue>>,
    e2: Map<Seq<char>, NbtValue>,
    v: NbtValue,
) -> bool {
    &&& e2.dom().contains("variant"@)
    &&& e2["variant"@] == v
    &&& match before {
        Some(e) => if str_of(e, "id"@) is Some {
            e2.remove("variant"@) == e.remove("variant"@)
        } else {
            e2.remove("variant"@) == e.remove("variant"@).insert("id"@, e2["id"@]) && str_of(e2, "id"@) == Some(
                "minecraft:painting"@,
            )
        },
        None => e2.remove("variant"@).dom() == set!["id"@] && str_of(e2, "id"@) == Some("minecraft:painting"@),
    }
}

/// Reverse on components: `minecraft:painting/variant` goes back into the
/// painting's entity data.
pub open spec fn painting_lowered(c: Map<Seq<char>, NbtValue>, c2: Map<Seq<char>, NbtValue>) -> bool {
    match lookup(c, "minecraft:painting/variant"@) {
        Some(v) => {
            &&& c2.remove("minecraft:entity_data"@) == c.remove("minecraft:painting/variant"@).remove(
                "minecraft:entity_data"@,
            )
            &&& map_of(c2, "minecraft:entity_data"@) matches Some(e2) && painting_restored(
                match map_of(c, "minecraft:entity_data"@) {
                    Some(e) => Some(e@),
                    None => None,
                },
                e2@,
                v,
            )
        },
        None => c2 == c,
    }
}

/// Reverse on components of a painting item.
pub fn lower_painting(c: &mut NbtMap)
    ensures
        painting_lowered(old(c)@, final(c)@),
{
    let variant = match c.take("minecraft:painting/variant") {
        Some(v) => v,
        None => {
            proof {
                assert(c@ =~= old(c)@);
            }
            return ;
        },
    };
    proof {
        lemma_keys();
    }
    let ghost mid = c@;
    let ghost before = match map_of(c@, "minecraft:entity_data"@) {
        Some(e) => Some(e@),
        None => None,
    };
    assert(before == match map_of(old(c)@, "minecraft:entity_data"@) {
        Some(e) => Some(e@),
        None => None,
    });
    let mut e = match c.take_map("minecraft:entity_data") {
        Some(e) => e,
        None => NbtMap::new(),
    };
    let ghost e0 = e@;
    let ghost mid2 = c@;
    if e.get_string("id").is_none() {
        e.set_string("id", "minecraft:painting");
    }
    let ghost e1 = e@;
    e.set("variant", variant);
    c.set_map("minecraft:entity_data", e);
    proof {
        assert(c@.remove("minecraft:entity_data"@) =~= mid.remove("minecraft:entity_data"@));
        match before {
            Some(b) => {
                if str_of(b, "id"@) is Some {
                    assert(e@.remove("variant"@) =~= b.remove("variant"@));
                } else {
                    assert(e@.remove("variant"@) =~= b.remove("variant"@).insert("id"@, e@["id"@]));
                }
            },
            None => {
                assert(e@.remove("variant"@).dom() =~= set!["id"@]);
            },
        }
    }
}

/// Reverse on the components of the item `id`.
pub open spec fn components_lowered(id: Seq<char>, c: Map<Seq<char>, NbtValue>, c2: Map<Seq<char>, NbtValue>) -> bool {
    if id == "minecraft:axolotl_bucket"@ {
        axolotl_lowered(c, c2)
    } else if id == "minecraft:salmon_bucket"@ {
        salmon_lowered(c, c2)
    } else if id == "minecraft:tropical_fish_bucket"@ {
        tropical_lowered(c, c2)
    } else if id == "minecraft:painting"@ {
        painting_lowered(c, c2)
    } else {
        c2 == c
    }
}

/// The item stack after the reverse change.
pub open spec fn mob_data_lowered(old: Map<Seq<char>, NbtValue>, new: Map<Seq<char>, NbtValue>) -> bool {
    match str_of(old, "id"@) {
        Some(id) => within(old, new, "components"@, |c, c2| components_lowered(id, c, c2)),
        None => new == old,
    }
}

/// What [`lower_mob_data`] makes of `data_in`.
pub open spec fn lower_mob_data_effect(data_in: NbtMap, data_out: NbtMap) -> bool {
    &&& mob_data_lowered(data_in@, data_out@)
}

/// Reverse on an item stack (lossless).
pub fn lower_mob_data(data: &mut NbtMap)
    ensures
        mob_data_lowered(old(data)@, final(data)@),
{
    if data.get_map("components").is_none() {
        return ;
    }
    let kind: u8 = match data.get_string("id") {
        Some(id) => if str_eq(id, "minecraft:axolotl_bucket") {
            1
        } else if str_eq(id, "minecraft:salmon_bucket") {
            2
        } else if str_eq(id, "minecraft:tropical_fish_bucket") {
            3
        } else if str_eq(id, "minecraft:painting") {
            4
        } else {
            0
        },
        None => return ,
    };
    let ghost id = str_of(data@, "id"@)->0;
    let mut c = data.take_map("components").unwrap();
    let ghost mid = data@;
    let ghost c0 = c@;
    if kind == 1 {
        lower_axolotl(&mut c);
    } else if kind == 2 {
        lower_salmon(&mut c);
    } else if kind == 3 {
        lower_tropical_fish(&mut c);
    } else if kind == 4 {
        lower_painting(&mut c);
    }
    proof {
        assert(components_lowered(id, c0, c@));
    }
    data.set_map("components", c);
    proof {
        lemma_put_back(old(data)@, mid, "components"@, NbtValue::Compound(c));
    }
}

/// Lifting an axolotl bucket's int `Variant` and lowering it back restores
/// the bucket, where the index names a variant and the component was not
/// there before.
pub proof fn law_axolotl_bucket_round_trip(
    c: Map<Seq<char>, NbtValue>,
    mid: Map<Seq<char>, NbtValue>,
    c2: Map<Seq<char>, NbtValue>,
)
    requires
        map_of(c, "minecraft:bucket_entity_data"@) matches Some(b) && lookup(b@, "Variant"@) matches Some(
            NbtValue::Int(v),
        ) && 0 <= v < 5,
        !c.dom().contains("minecraft:axolotl/variant"@),
        axolotl_lifted(c, mid),
        axolotl_lowered(mid, c2),
    ensures
        c2.remove("minecraft:bucket_entity_data"@) == c.remove("minecraft:bucket_entity_data"@),
        map_of(c2, "minecraft:bucket_entity_data"@) matches Some(b2) && b2@ == map_of(
            c,
            "minecraft:bucket_entity_data"@,
        )->0@,
{
    lemma_keys();
    let b = map_of(c, "minecraft:bucket_entity_data"@)->0;
    let v = int_of(b@, "Variant"@)->0;
    law_axolotl_round_trip(v);
    assert(mid.remove("minecraft:axolotl/variant"@).remove("minecraft:bucket_entity_data"@) =~= mid.remove(
        "minecraft:bucket_entity_data"@,
    ).remove("minecraft:axolotl/variant"@));
    assert(c.remove("minecraft:bucket_entity_data"@).remove("minecraft:axolotl/variant"@) =~= c.remove(
        "minecraft:bucket_entity_data"@,
    ));
    assert(c2.remove("minecraft:bucket_entity_data"@) =~= c.remove("minecraft:bucket_entity_data"@));
    assert(b@.remove("Variant"@).insert("Variant"@, NbtValue::Int(v)) =~= b@);
}

/// Lifting a salmon bucket's `type` and lowering it back restores the
/// bucket, where the component was not there before.
pub proof fn law_salmon_bucket_round_trip(
    c: Map<Seq<char>, NbtValue>,
    mid: Map<Seq<char>, NbtValue>,
    c2: Map<Seq<char>, NbtValue>,
)
    requires
        map_of(c, "minecraft:bucket_entity_data"@) matches Some(b) && b@.dom().contains("type"@),
        !c.dom().contains("minecraft:salmon/size"@),
        salmon_lifted(c, mid),
        salmon_lowered(mid, c2),
    ensures
        c2.remove("minecraft:bucket_entity_data"@) == c.remove("minecraft:bucket_entity_data"@),
        map_of(c2, "minecraft:bucket_entity_data"@) matches Some(b2) && b2@ == map_of(
            c,
            "minecraft:bucket_entity_data"@,
        )->0@,
{
    lemma_keys();
    let b = map_of(c, "minecraft:bucket_entity_data"@)->0;
    assert(mid.remove("minecraft:salmon/size"@).remove("minecraft:bucket_entity_data"@) =~= mid.remove(
        "minecraft:bucket_entity_data"@,
    ).remove("minecraft:salmon/size"@));
    assert(c.remove("minecraft:bucket_entity_data"@).remove("minecraft:salmon/size"@) =~= c.remove(
        "minecraft:bucket_entity_data"@,
    ));
    assert(c2.remove("minecraft:bucket_entity_data"@) =~= c.remove("minecraft:bucket_entity_data"@));
    assert(b@.remove("type"@).insert("type"@, b@["type"@]) =~= b@);
}

/// Unpacking a tropical fish bucket's int `BucketVariantTag` into its three
/// components and packing them back restores the bucket, where the pattern
/// is listed, the colours are banner colours and the components were not
/// there before.
pub proof fn law_tropical_bucket_round_trip(
    c: Map<Seq<char>, NbtValue>,
    mid: Map<Seq<char>, NbtValue>,
    c2: Map<Seq<char>, NbtValue>,
)
    requires
        map_of(c, "minecraft:bucket_entity_data"@) matches Some(b) && lookup(b@, "BucketVariantTag"@) matches Some(
            NbtValue::Int(v),
        ) && is_fish_code(pattern_bits(v)) && base_bits(v) < 16 && pattern_colour_bits(v) < 16,
        !c.dom().contains("minecraft:tropical_fish/pattern"@),
        !c.dom().contains("minecraft:tropical_fish/base_color"@),
        !c.dom().contains("minecraft:tropical_fish/pattern_color"@),
        tropical_lifted(c, mid),
        tropical_lowered(mid, c2),
    ensures
        c2.remove("minecraft:bucket_entity_data"@) == c.remove("minecraft:bucket_entity_data"@),
        map_of(c2, "minecraft:bucket_entity_data"@) matches Some(b2) && b2@ == map_of(
            c,
            "minecraft:bucket_entity_data"@,
        )->0@,
{
    lemma_keys();
    let b = map_of(c, "minecraft:bucket_entity_data"@)->0;
    let v = int_of(b@, "BucketVariantTag"@)->0;
    law_fish_variant_round_trip(v);
    let tp = "minecraft:tropical_fish/pattern"@;
    let tb = "minecraft:tropical_fish/base_color"@;
    let tpc = "minecraft:tropical_fish/pattern_color"@;
    let bk = "minecraft:bucket_entity_data"@;
    assert(mid.remove(tp).remove(tb).remove(tpc).remove(bk) =~= mid.remove(bk).remove(tp).remove(tb).remove(tpc));
    assert(c.remove(bk).remove(tp).remove(tb).remove(tpc) =~= c.remove(bk));
    assert(c2.remove(bk) =~= c.remove(bk));
    assert(b@.remove("BucketVariantTag"@).insert("BucketVariantTag"@, NbtValue::Int(v)) =~= b@);
}

/// Lifting a painting's `variant` and lowering it back restores its entity
/// data, where the component was not there before.
pub proof fn law_painting_round_trip(
    c: Map<Seq<char>, NbtValue>,
    mid: Map<Seq<char>, NbtValue>,
    c2: Map<Seq<char>, NbtValue>,
)
    requires
        map_of(c, "minecraft:entity_data"@) matches Some(e) && str_of(e@, "id"@) == Some("minecraft:painting"@)
            && e@.dom().contains("variant"@) && e@.dom().finite(),
        !c.dom().contains("minecraft:painting/variant"@),
        painting_lifted(c, mid),
        painting_lowered(mid, c2),
    ensures
        c2.remove("minecraft:entity_data"@) == c.remove("minecraft:entity_data"@),
        map_of(c2, "minecraft:entity_data"@) matches Some(e2) && e2@.remove("id"@) == map_of(
            c,
            "minecraft:entity_data"@,
        )->0@.remove("id"@) && str_of(e2@, "id"@) == Some("minecraft:painting"@),
{
    lemma_keys();
    let e = map_of(c, "minecraft:entity_data"@)->0;
    let e2 = map_of(c2, "minecraft:entity_data"@)->0;
    let ek = "minecraft:entity_data"@;
    let pv = "minecraft:painting/variant"@;
    assert(mid.remove(pv).remove(ek) =~= mid.remove(ek).remove(pv));
    assert(c.remove(ek).remove(pv) =~= c.remove(ek));
    assert(c2.remove(ek) =~= c.remove(ek));
    let rest = e@.remove("variant"@);
    if rest.dom().len() == 1 {
        assert(rest.dom().contains("id"@));
        assert(rest.dom() =~= set!["id"@]) by {
            assert forall|k: Seq<char>| rest.dom().contains(k) implies k == "id"@ by {
                if k != "id"@ {
                    assert(rest.dom().remove("id"@).contains(k));
                    assert(rest.dom().remove("id"@).len() == 0);
                    assert(rest.dom().remove("id"@) =~= Set::<Seq<char>>::empty());
                }
            }
        }
        assert(e2@.remove("id"@) =~= e@.remove("id"@));
    } else {
        let em = map_of(mid, ek)->0;
        assert(em@ == rest);
        assert(str_of(rest, "id"@) == Some("minecraft:painting"@));
        assert(lookup(mid, pv) == Some(e@["variant"@]));
        assert(e2@.remove("variant"@) == rest.remove("variant"@));
        assert(e2@ =~= e@) by {
            assert(rest.remove("variant"@) =~= rest);
            assert forall|k: Seq<char>| #[trigger] e2@.dom().contains(k) == e@.dom().contains(k) by {
                if k != "variant"@ {
                    assert(e2@.remove("variant"@).dom().contains(k) == e2@.dom().contains(k));
                }
            }
            assert forall|k: Seq<char>| #[trigger] e2@.dom().contains(k) implies e2@[k] == e@[k] by {
                if k != "variant"@ {
                    assert(e2@.remove("variant"@)[k] == e2@[k]);
                }
            }
        }
    }
}

/// What this version registers.
pub open spec fn registrations() -> Seq<Registration> {
    seq![
        entry(TypeKey::ItemStack, VERSION, 0, Action::Convert(Conv::V4299LiftMobData)),
        entry(TypeKey::ItemStack, VERSION, 0, Action::Revert(Conv::V4299LowerMobData)),
    ]
}

/// Register this version's converters.
pub fn register(reg: &mut RegistryBuilder)
    ensures
        final(reg).entries@ == old(reg).entries@ + registrations(),
{
    reg.add(TypeKey::ItemStack, VERSION, 0, Action::Convert(Conv::V4299LiftMobData));
    reg.add(TypeKey::ItemStack, VERSION, 0, Action::Revert(Conv::V4299LowerMobData));
    proof {
        assert(final(reg).entries@ =~= old(reg).entries@ + registrations());
    }
}

} // verus!
