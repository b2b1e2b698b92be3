//! The colour that stands for each ore type.

use vstd::prelude::*;
use vstd::string::StringExecFns;
use crate::gpu_table::OreColors;
use crate::table::NameTable;

verus! {

/// The ore types that have a colour, each with its red, green and blue
/// channel.
pub open spec fn ore_color_list() -> Seq<(Seq<char>, (u8, u8, u8))> {
    seq![
        ("Iron_01"@, (255u8, 216u8, 0u8)),
        ("Iron_02"@, (255u8, 216u8, 0u8)),
        ("Nickel_01"@, (239u8, 166u8, 117u8)),
        ("Silicon_01"@, (216u8, 107u8, 128u8)),
        ("Magnesium_01"@, (0u8, 255u8, 255u8)),
        ("Cobalt_01"@, (181u8, 254u8, 0u8)),
        ("Silver_01"@, (145u8, 145u8, 145u8)),
        ("Gold_01"@, (255u8, 0u8, 220u8)),
        ("Platinum_01"@, (219u8, 249u8, 255u8)),
        ("Uraninite_01"@, (155u8, 114u8, 241u8)),
        ("Copper"@, (184u8, 115u8, 51u8)),
        ("Bauxite"@, (249u8, 166u8, 64u8)),
        ("Coal"@, (145u8, 145u8, 145u8)),
        ("Titanium"@, (81u8, 127u8, 84u8)),
        ("OilSand"@, (183u8, 0u8, 3u8)),
        ("Sulfur"@, (190u8, 167u8, 151u8)),
        ("Lithium"@, (172u8, 80u8, 141u8)),
        ("Tantalum"@, (255u8, 0u8, 0u8)),
        ("Cronyx"@, (184u8, 115u8, 51u8)),
        ("Dorium"@, (181u8, 254u8, 0u8)),
    ]
}

/// Whether `table` holds exactly the entries of `list`, in order.
pub open spec fn holds_list(table: OreColors, list: Seq<(Seq<char>, (u8, u8, u8))>) -> bool {
    &&& table.entries@.len() == list.len()
    &&& forall|k: int|
        0 <= k < list.len() ==> table.key(k) == list[k].0 && table.value(k) == list[k].1
}

/// The table of ore colours that the classification pass uses unless it
/// is given another.
pub fn ore_colors() -> (table: OreColors)
    ensures
        holds_list(table, ore_color_list()),
{
    let mut entries: Vec<(String, (u8, u8, u8))> = Vec::new();
    entries.push((String::from_str("Iron_01"), (255, 216, 0)));
    entries.push((String::from_str("Iron_02"), (255, 216, 0)));
    entries.push((String::from_str("Nickel_01"), (239, 166, 117)));
    entries.push((String::from_str("Silicon_01"), (216, 107, 128)));
    entries.push((String::from_str("Magnesium_01"), (0, 255, 255)));
    entries.push((String::from_str("Cobalt_01"), (181, 254, 0)));
    entries.push((String::from_str("Silver_01"), (145, 145, 145)));
    entries.push((String::from_str("Gold_01"), (255, 0, 220)));
    entries.push((String::from_str("Platinum_01"), (219, 249, 255)));
    entries.push((String::from_str("Uraninite_01"), (155, 114, 241)));
    entries.push((String::from_str("Copper"), (184, 115, 51)));
    entries.push((String::from_str("Bauxite"), (249, 166, 64)));
    entries.push((String::from_str("Coal"), (145, 145, 145)));
    entries.push((String::from_str("Titanium"), (81, 127, 84)));
    entries.push((String::from_str("OilSand"), (183, 0, 3)));
    entries.push((String::from_str("Sulfur"), (190, 167, 151)));
    entries.push((String::from_str("Lithium"), (172, 80, 141)));
    entries.push((String::from_str("Tantalum"), (255, 0, 0)));
    entries.push((String::from_str("Cronyx"), (184, 115, 51)));
    entries.push((String::from_str("Dorium"), (181, 254, 0)));
    NameTable { entries }
}

} // verus!
