//! The table of settings that every store starts from.
//!
//! The table fixes the name, the initial value and the initial lock of each
//! field, and the order in which fields are listed and uploaded. Real-valued
//! fields hold the bit patterns of IEEE-754 single-precision numbers.
use crate::settings::Entry;
use crate::settings::Field;
use crate::settings::holds_key;
use crate::settings::index_of;
use crate::settings::lemma_index_of_first;
use crate::settings::lemma_index_of_none;
use crate::settings::locked_in_table;
use crate::settings::Settings;
use crate::settings::SettingValue;
use vstd::prelude::*;
use vstd::string::*;

verus! {

/// The number of fields in the table.
pub const FIELD_COUNT: usize = 42;

/// The name of the field at `index` of the table.
pub open spec fn default_key(index: int) -> Seq<char> {
    if index == 0 {
        "pos_x"@
    } else if index == 1 {
        "pos_y"@
    } else if index == 2 {
        "pos_z"@
    } else if index == 3 {
        "look_x"@
    } else if index == 4 {
        "look_y"@
    } else if index == 5 {
        "look_z"@
    } else if index == 6 {
        "up_x"@
    } else if index == 7 {
        "up_y"@
    } else if index == 8 {
        "up_z"@
    } else if index == 9 {
        "fov"@
    } else if index == 10 {
        "focal_distance"@
    } else if index == 11 {
        "scale"@
    } else if index == 12 {
        "folding_limit"@
    } else if index == 13 {
        "fixed_radius_2"@
    } else if index == 14 {
        "min_radius_2"@
    } else if index == 15 {
        "dof_amount"@
    } else if index == 16 {
        "fog_distance"@
    } else if index == 17 {
        "fog_brightness"@
    } else if index == 18 {
        "light_pos_1_x"@
    } else if index == 19 {
        "light_pos_1_y"@
    } else if index == 20 {
        "light_pos_1_z"@
    } else if index == 21 {
        "light_radius_1"@
    } else if index == 22 {
        "light_brightness_1_hue"@
    } else if index == 23 {
        "light_brightness_1_sat"@
    } else if index == 24 {
        "light_brightness_1_val"@
    } else if index == 25 {
        "ambient_brightness_hue"@
    } else if index == 26 {
        "ambient_brightness_sat"@
    } else if index == 27 {
        "ambient_brightness_val"@
    } else if index == 28 {
        "reflect_brightness"@
    } else if index == 29 {
        "surface_color_variance"@
    } else if index == 30 {
        "surface_color_shift"@
    } else if index == 31 {
        "surface_color_saturation"@
    } else if index == 32 {
        "bailout"@
    } else if index == 33 {
        "de_multiplier"@
    } else if index == 34 {
        "max_ray_dist"@
    } else if index == 35 {
        "quality_first_ray"@
    } else if index == 36 {
        "quality_rest_ray"@
    } else if index == 37 {
        "white_clamp"@
    } else if index == 38 {
        "max_iters"@
    } else if index == 39 {
        "max_ray_steps"@
    } else if index == 40 {
        "num_ray_bounces"@
    } else {
        "render_scale"@
    }
}

/// The initial value of the field at `index` of the table.
pub open spec fn default_value(index: int) -> SettingValue {
    if index == 0 {
        SettingValue::F32(0x00000000, 0x3F800000)
    } else if index == 1 {
        SettingValue::F32(0x00000000, 0x3F800000)
    } else if index == 2 {
        SettingValue::F32(0x40A00000, 0x3F800000)
    } else if index == 3 {
        SettingValue::F32(0x00000000, 0x3F800000)
    } else if index == 4 {
        SettingValue::F32(0x00000000, 0x3F800000)
    } else if index == 5 {
        SettingValue::F32(0xBF800000, 0x3F800000)
    } else if index == 6 {
        SettingValue::F32(0x00000000, 0x3F800000)
    } else if index == 7 {
        SettingValue::F32(0x3F800000, 0x3F800000)
    } else if index == 8 {
        SettingValue::F32(0x00000000, 0x3F800000)
    } else if index == 9 {
        SettingValue::F32(0x3F800000, 0xBF800000)
    } else if index == 10 {
        SettingValue::F32(0x40400000, 0xBF800000)
    } else if index == 11 {
        SettingValue::F32(0xC0000000, 0x3F000000)
    } else if index == 12 {
        SettingValue::F32(0x3F800000, 0xBF000000)
    } else if index == 13 {
        SettingValue::F32(0x3F800000, 0xBF000000)
    } else if index == 14 {
        SettingValue::F32(0x3E000000, 0xBF000000)
    } else if index == 15 {
        SettingValue::F32(0x3A83126F, 0xBF000000)
    } else if index == 16 {
        SettingValue::F32(0x41200000, 0xBF800000)
    } else if index == 17 {
        SettingValue::F32(0x3F800000, 0x3F000000)
    } else if index == 18 {
        SettingValue::F32(0x40400000, 0x3F000000)
    } else if index == 19 {
        SettingValue::F32(0x40600000, 0x3F000000)
    } else if index == 20 {
        SettingValue::F32(0x40200000, 0x3F000000)
    } else if index == 21 {
        SettingValue::F32(0x3F800000, 0xBF000000)
    } else if index == 22 {
        SettingValue::F32(0x00000000, 0x3E800000)
    } else if index == 23 {
        SettingValue::F32(0x3ECCCCCD, 0xBF800000)
    } else if index == 24 {
        SettingValue::F32(0x40800000, 0xBF800000)
    } else if index == 25 {
        SettingValue::F32(0x3F266666, 0x3E800000)
    } else if index == 26 {
        SettingValue::F32(0x3E4CCCCD, 0xBF800000)
    } else if index == 27 {
        SettingValue::F32(0x3F800000, 0xBF800000)
    } else if index == 28 {
        SettingValue::F32(0x3F800000, 0x3E000000)
    } else if index == 29 {
        SettingValue::F32(0x3F800000, 0xBE800000)
    } else if index == 30 {
        SettingValue::F32(0x00000000, 0x3E800000)
    } else if index == 31 {
        SettingValue::F32(0x3F800000, 0x3E000000)
    } else if index == 32 {
        SettingValue::F32(0x44800000, 0xBF800000)
    } else if index == 33 {
        SettingValue::F32(0x3F700000, 0x3E000000)
    } else if index == 34 {
        SettingValue::F32(0x41800000, 0xBF000000)
    } else if index == 35 {
        SettingValue::F32(0x40000000, 0xBF000000)
    } else if index == 36 {
        SettingValue::F32(0x42800000, 0xBF000000)
    } else if index == 37 {
        SettingValue::U32(0)
    } else if index == 38 {
        SettingValue::U32(64)
    } else if index == 39 {
        SettingValue::U32(256)
    } else if index == 40 {
        SettingValue::U32(3)
    } else {
        SettingValue::U32(1)
    }
}

/// Whether the field at `index` of the table starts out locked.
pub open spec fn default_is_const(index: int) -> bool {
    if index == 0 {
        false
    } else if index == 1 {
        false
    } else if index == 2 {
        false
    } else if index == 3 {
        false
    } else if index == 4 {
        false
    } else if index == 5 {
        false
    } else if index == 6 {
        false
    } else if index == 7 {
        false
    } else if index == 8 {
        false
    } else if index == 9 {
        false
    } else if index == 10 {
        false
    } else if index == 11 {
        false
    } else if index == 12 {
        false
    } else if index == 13 {
        false
    } else if index == 14 {
        false
    } else if index == 15 {
        false
    } else if index == 16 {
        false
    } else if index == 17 {
        false
    } else if index == 18 {
        false
    } else if index == 19 {
        false
    } else if index == 20 {
        false
    } else if index == 21 {
        false
    } else if index == 22 {
        false
    } else if index == 23 {
        false
    } else if index == 24 {
        false
    } else if index == 25 {
        false
    } else if index == 26 {
        false
    } else if index == 27 {
        false
    } else if index == 28 {
        false
    } else if index == 29 {
        false
    } else if index == 30 {
        false
    } else if index == 31 {
        false
    } else if index == 32 {
        true
    } else if index == 33 {
        true
    } else if index == 34 {
        true
    } else if index == 35 {
        true
    } else if index == 36 {
        true
    } else if index == 37 {
        true
    } else if index == 38 {
        true
    } else if index == 39 {
        true
    } else if index == 40 {
        true
    } else {
        false
    }
}

/// The names of the table, in order.
pub open spec fn default_keys() -> Seq<Seq<char>> {
    Seq::new(FIELD_COUNT as nat, |i: int| default_key(i))
}

/// No name occurs twice in the table.
pub proof fn lemma_default_keys_distinct()
    ensures
        default_keys().no_duplicates(),
{
    assert forall|i: int, j: int|
        0 <= i < default_keys().len() && 0 <= j < default_keys().len() && i != j implies default_keys()[i]
        != default_keys()[j] by {
        lemma_key_signature(i);
        lemma_key_signature(j);
    }
}

/// Each name of the table is told apart from the others by its length and
/// three of its characters.
spec fn key_signature(index: int) -> (nat, char, char, char) {
    if index == 0 {
        (5, 'p', 'x', 's')
    } else if index == 1 {
        (5, 'p', 'y', 's')
    } else if index == 2 {
        (5, 'p', 'z', 's')
    } else if index == 3 {
        (6, 'l', 'x', 'k')
    } else if index == 4 {
        (6, 'l', 'y', 'k')
    } else if index == 5 {
        (6, 'l', 'z', 'k')
    } else if index == 6 {
        (4, 'u', 'x', 'p')
    } else if index == 7 {
        (4, 'u', 'y', 'p')
    } else if index == 8 {
        (4, 'u', 'z', 'p')
    } else if index == 9 {
        (3, 'f', 'v', 'f')
    } else if index == 10 {
        (14, 'f', 'e', 'n')
    } else if index == 11 {
        (5, 's', 'e', 'a')
    } else if index == 12 {
        (13, 'f', 't', 'm')
    } else if index == 13 {
        (14, 'f', '2', 's')
    } else if index == 14 {
        (12, 'm', '2', 's')
    } else if index == 15 {
        (10, 'd', 't', 'u')
    } else if index == 16 {
        (12, 'f', 'e', 'n')
    } else if index == 17 {
        (14, 'f', 's', 'e')
    } else if index == 18 {
        (13, 'l', 'x', '1')
    } else if index == 19 {
        (13, 'l', 'y', '1')
    } else if index == 20 {
        (13, 'l', 'z', '1')
    } else if index == 21 {
        (14, 'l', '1', 's')
    } else if index == 22 {
        (22, 'l', 'e', 'h')
    } else if index == 23 {
        (22, 'l', 't', 's')
    } else if index == 24 {
        (22, 'l', 'l', 'v')
    } else if index == 25 {
        (22, 'a', 'e', 'h')
    } else if index == 26 {
        (22, 'a', 't', 's')
    } else if index == 27 {
        (22, 'a', 'l', 'v')
    } else if index == 28 {
        (18, 'r', 's', 'e')
    } else if index == 29 {
        (22, 's', 'e', 'n')
    } else if index == 30 {
        (19, 's', 't', 'i')
    } else if index == 31 {
        (24, 's', 'n', 'i')
    } else if index == 32 {
        (7, 'b', 't', 'o')
    } else if index == 33 {
        (13, 'd', 'r', 'i')
    } else if index == 34 {
        (12, 'm', 't', 'i')
    } else if index == 35 {
        (17, 'q', 'y', 'r')
    } else if index == 36 {
        (16, 'q', 'y', 'r')
    } else if index == 37 {
        (11, 'w', 'p', 'a')
    } else if index == 38 {
        (9, 'm', 's', 'e')
    } else if index == 39 {
        (13, 'm', 's', 'e')
    } else if index == 40 {
        (15, 'n', 's', 'c')
    } else {
        (12, 'r', 'e', 'a')
    }
}

proof fn lemma_key_signature(index: int)
    requires
        0 <= index < FIELD_COUNT,
    ensures
        default_key(index).len() == key_signature(index).0,
        default_key(index)[0] == key_signature(index).1,
        default_key(index)[default_key(index).len() - 1] == key_signature(index).2,
        default_key(index)[default_key(index).len() - 3] == key_signature(index).3,
{
    reveal_strlit("pos_x");
    reveal_strlit("pos_y");
    reveal_strlit("pos_z");
    reveal_strlit("look_x");
    reveal_strlit("look_y");
    reveal_strlit("look_z");
    reveal_strlit("up_x");
    reveal_strlit("up_y");
    reveal_strlit("up_z");
    reveal_strlit("fov");
    reveal_strlit("focal_distance");
    reveal_strlit("scale");
    reveal_strlit("folding_limit");
    reveal_strlit("fixed_radius_2");
    reveal_strlit("min_radius_2");
    reveal_strlit("dof_amount");
    reveal_strlit("fog_distance");
    reveal_strlit("fog_brightness");
    reveal_strlit("light_pos_1_x");
    reveal_strlit("light_pos_1_y");
    reveal_strlit("light_pos_1_z");
    reveal_strlit("light_radius_1");
    reveal_strlit("light_brightness_1_hue");
    reveal_strlit("light_brightness_1_sat");
    reveal_strlit("light_brightness_1_val");
    reveal_strlit("ambient_brightness_hue");
    reveal_strlit("ambient_brightness_sat");
    reveal_strlit("ambient_brightness_val");
    reveal_strlit("reflect_brightness");
    reveal_strlit("surface_color_variance");
    reveal_strlit("surface_color_shift");
    reveal_strlit("surface_color_saturation");
    reveal_strlit("bailout");
    reveal_strlit("de_multiplier");
    reveal_strlit("max_ray_dist");
    reveal_strlit("quality_first_ray");
    reveal_strlit("quality_rest_ray");
    reveal_strlit("white_clamp");
    reveal_strlit("max_iters");
    reveal_strlit("max_ray_steps");
    reveal_strlit("num_ray_bounces");
    reveal_strlit("render_scale");
}

/// The name of the field at `index` of the table.
pub fn nth(index: usize) -> (key: &'static str)
    requires
        index < FIELD_COUNT,
    ensures
        key@ == default_key(index as int),
{
    if index == 0 {
        "pos_x"
    } else if index == 1 {
        "pos_y"
    } else if index == 2 {
        "pos_z"
    } else if index == 3 {
        "look_x"
    } else if index == 4 {
        "look_y"
    } else if index == 5 {
        "look_z"
    } else if index == 6 {
        "up_x"
    } else if index == 7 {
        "up_y"
    } else if index == 8 {
        "up_z"
    } else if index == 9 {
        "fov"
    } else if index == 10 {
        "focal_distance"
    } else if index == 11 {
        "scale"
    } else if index == 12 {
        "folding_limit"
    } else if index == 13 {
        "fixed_radius_2"
    } else if index == 14 {
        "min_radius_2"
    } else if index == 15 {
        "dof_amount"
    } else if index == 16 {
        "fog_distance"
    } else if index == 17 {
        "fog_brightness"
    } else if index == 18 {
        "light_pos_1_x"
    } else if index == 19 {
        "light_pos_1_y"
    } else if index == 20 {
        "light_pos_1_z"
    } else if index == 21 {
        "light_radius_1"
    } else if index == 22 {
        "light_brightness_1_hue"
    } else if index == 23 {
        "light_brightness_1_sat"
    } else if index == 24 {
        "light_brightness_1_val"
    } else if index == 25 {
        "ambient_brightness_hue"
    } else if index == 26 {
        "ambient_brightness_sat"
    } else if index == 27 {
        "ambient_brightness_val"
    } else if index == 28 {
        "reflect_brightness"
    } else if index == 29 {
        "surface_color_variance"
    } else if index == 30 {
        "surface_color_shift"
    } else if index == 31 {
        "surface_color_saturation"
    } else if index == 32 {
        "bailout"
    } else if index == 33 {
        "de_multiplier"
    } else if index == 34 {
        "max_ray_dist"
    } else if index == 35 {
        "quality_first_ray"
    } else if index == 36 {
        "quality_rest_ray"
    } else if index == 37 {
        "white_clamp"
    } else if index == 38 {
        "max_iters"
    } else if index == 39 {
        "max_ray_steps"
    } else if index == 40 {
        "num_ray_bounces"
    } else {
        "render_scale"
    }
}

/// The initial value of the field at `index` of the table.
pub fn nth_value(index: usize) -> (value: SettingValue)
    requires
        index < FIELD_COUNT,
    ensures
        value == default_value(index as int),
{
    if index == 0 {
        SettingValue::F32(0x00000000, 0x3F800000)
    } else if index == 1 {
        SettingValue::F32(0x00000000, 0x3F800000)
    } else if index == 2 {
        SettingValue::F32(0x40A00000, 0x3F800000)
    } else if index == 3 {
        SettingValue::F32(0x00000000, 0x3F800000)
    } else if index == 4 {
        SettingValue::F32(0x00000000, 0x3F800000)
    } else if index == 5 {
        SettingValue::F32(0xBF800000, 0x3F800000)
    } else if index == 6 {
        SettingValue::F32(0x00000000, 0x3F800000)
    } else if index == 7 {
        SettingValue::F32(0x3F800000, 0x3F800000)
    } else if index == 8 {
        SettingValue::F32(0x00000000, 0x3F800000)
    } else if index == 9 {
        SettingValue::F32(0x3F800000, 0xBF800000)
    } else if index == 10 {
        SettingValue::F32(0x40400000, 0xBF800000)
    } else if index == 11 {
        SettingValue::F32(0xC0000000, 0x3F000000)
    } else if index == 12 {
        SettingValue::F32(0x3F800000, 0xBF000000)
    } else if index == 13 {
        SettingValue::F32(0x3F800000, 0xBF000000)
    } else if index == 14 {
        SettingValue::F32(0x3E000000, 0xBF000000)
    } else if index == 15 {
        SettingValue::F32(0x3A83126F, 0xBF000000)
    } else if index == 16 {
        SettingValue::F32(0x41200000, 0xBF800000)
    } else if index == 17 {
        SettingValue::F32(0x3F800000, 0x3F000000)
    } else if index == 18 {
        SettingValue::F32(0x40400000, 0x3F000000)
    } else if index == 19 {
        SettingValue::F32(0x40600000, 0x3F000000)
    } else if index == 20 {
        SettingValue::F32(0x40200000, 0x3F000000)
    } else if index == 21 {
        SettingValue::F32(0x3F800000, 0xBF000000)
    } else if index == 22 {
        SettingValue::F32(0x00000000, 0x3E800000)
    } else if index == 23 {
        SettingValue::F32(0x3ECCCCCD, 0xBF800000)
    } else if index == 24 {
        SettingValue::F32(0x40800000, 0xBF800000)
    } else if index == 25 {
        SettingValue::F32(0x3F266666, 0x3E800000)
    } else if index == 26 {
        SettingValue::F32(0x3E4CCCCD, 0xBF800000)
    } else if index == 27 {
        SettingValue::F32(0x3F800000, 0xBF800000)
    } else if index == 28 {
        SettingValue::F32(0x3F800000, 0x3E000000)
    } else if index == 29 {
        SettingValue::F32(0x3F800000, 0xBE800000)
    } else if index == 30 {
        SettingValue::F32(0x00000000, 0x3E800000)
    } else if index == 31 {
        SettingValue::F32(0x3F800000, 0x3E000000)
    } else if index == 32 {
        SettingValue::F32(0x44800000, 0xBF800000)
    } else if index == 33 {
        SettingValue::F32(0x3F700000, 0x3E000000)
    } else if index == 34 {
        SettingValue::F32(0x41800000, 0xBF000000)
    } else if index == 35 {
        SettingValue::F32(0x40000000, 0xBF000000)
    } else if index == 36 {
        SettingValue::F32(0x42800000, 0xBF000000)
    } else if index == 37 {
        SettingValue::U32(0)
    } else if index == 38 {
        SettingValue::U32(64)
    } else if index == 39 {
        SettingValue::U32(256)
    } else if index == 40 {
        SettingValue::U32(3)
    } else {
        SettingValue::U32(1)
    }
}

/// Whether the field at `index` of the table starts out locked.
pub fn nth_is_const(index: usize) -> (locked: bool)
    requires
        index < FIELD_COUNT,
    ensures
        locked == default_is_const(index as int),
{
    if index == 0 {
        false
    } else if index == 1 {
        false
    } else if index == 2 {
        false
    } else if index == 3 {
        false
    } else if index == 4 {
        false
    } else if index == 5 {
        false
    } else if index == 6 {
        false
    } else if index == 7 {
        false
    } else if index == 8 {
        false
    } else if index == 9 {
        false
    } else if index == 10 {
        false
    } else if index == 11 {
        false
    } else if index == 12 {
        false
    } else if index == 13 {
        false
    } else if index == 14 {
        false
    } else if index == 15 {
        false
    } else if index == 16 {
        false
    } else if index == 17 {
        false
    } else if index == 18 {
        false
    } else if index == 19 {
        false
    } else if index == 20 {
        false
    } else if index == 21 {
        false
    } else if index == 22 {
        false
    } else if index == 23 {
        false
    } else if index == 24 {
        false
    } else if index == 25 {
        false
    } else if index == 26 {
        false
    } else if index == 27 {
        false
    } else if index == 28 {
        false
    } else if index == 29 {
        false
    } else if index == 30 {
        false
    } else if index == 31 {
        false
    } else if index == 32 {
        true
    } else if index == 33 {
        true
    } else if index == 34 {
        true
    } else if index == 35 {
        true
    } else if index == 36 {
        true
    } else if index == 37 {
        true
    } else if index == 38 {
        true
    } else if index == 39 {
        true
    } else if index == 40 {
        true
    } else {
        false
    }
}

/// The entries and the locked names of a new store: every field of the
/// table with its initial value, in the table's order, and the names of the
/// fields that start out locked.
pub fn make_defaults() -> (made: (Vec<Entry>, Vec<String>))
    ensures
        made.0.len() == FIELD_COUNT,
        forall|i: int|
            0 <= i < FIELD_COUNT ==> (#[trigger] made.0[i]).key@ == default_key(i) && made.0[i].value
                == default_value(i),
        forall|j: int|
            0 <= j < made.1.len() ==> locked_in_table((#[trigger] made.1[j])@, FIELD_COUNT as int),
        forall|i: int|
            0 <= i < FIELD_COUNT && #[trigger] default_is_const(i) ==> holds_key(
                made.1@,
                default_key(i),
            ),
{
    let mut entries: Vec<Entry> = Vec::new();
    let mut constants: Vec<String> = Vec::new();
    let mut index: usize = 0;
    while index < FIELD_COUNT
        invariant
            index <= FIELD_COUNT,
            entries.len() == index,
            forall|i: int| 0 <= i < index ==> (#[trigger] entries[i]).key@ == default_key(i) && entries[i].value == default_value(i),
            forall|j: int|
                0 <= j < constants.len() ==> locked_in_table((#[trigger] constants[j])@, index as int),
            forall|i: int|
                0 <= i < index && #[trigger] default_is_const(i) ==> holds_key(
                    constants@,
                    default_key(i),
                ),
        decreases FIELD_COUNT - index,
    {
        entries.push(Entry { key: nth(index).to_owned(), value: nth_value(index) });
        let ghost before = constants@;
        if nth_is_const(index) {
            constants.push(nth(index).to_owned());
        }
        proof {
            assert forall|j: int| 0 <= j < constants.len() implies locked_in_table(
                (#[trigger] constants[j])@,
                index + 1,
            ) by {
                if j < before.len() {
                    assert(constants[j] == before[j]);
                    let i = choose|i: int|
                        0 <= i < index && #[trigger] default_is_const(i) && default_key(i)
                            == before[j]@;
                    assert(0 <= i < index + 1 && default_is_const(i) && default_key(i)
                        == constants[j]@);
                } else {
                    assert(default_is_const(index as int));
                }
            }
            assert forall|i: int| 0 <= i < index + 1 && #[trigger] default_is_const(i) implies holds_key(
                constants@,
                default_key(i),
            ) by {
                if i < index {
                    let j = choose|j: int|
                        0 <= j < before.len() && (#[trigger] before[j])@ == default_key(i);
                    assert(constants[j] == before[j]);
                } else {
                    assert(constants[constants.len() - 1]@ == default_key(i));
                }
            }
        }
        index = index + 1;
    }
    (entries, constants)
}

/// The names of the table, in order.
pub fn keys() -> (names: Vec<&'static str>)
    ensures
        names.len() == FIELD_COUNT,
        forall|i: int| 0 <= i < FIELD_COUNT ==> (#[trigger] names[i])@ == default_key(i),
{
    let mut names: Vec<&'static str> = Vec::new();
    let mut index: usize = 0;
    while index < FIELD_COUNT
        invariant
            index <= FIELD_COUNT,
            names.len() == index,
            forall|i: int| 0 <= i < index ==> (#[trigger] names[i])@ == default_key(i),
        decreases FIELD_COUNT - index,
    {
        names.push(nth(index));
        index = index + 1;
    }
    names
}

/// The initial value of the field named `key`; `None` where the table has no
/// such field.
pub fn default_for(key: &str) -> (value: Option<SettingValue>)
    ensures
        value == match index_of(default_keys(), key@) {
            Some(index) => Some(default_value(index)),
            None => None,
        },
{
    let wanted = key.to_owned();
    let mut index: usize = 0;
    while index < FIELD_COUNT
        invariant
            index <= FIELD_COUNT,
            wanted@ == key@,
            forall|i: int| 0 <= i < index ==> default_keys()[i] != key@,
        decreases FIELD_COUNT - index,
    {
        if nth(index).to_owned() == wanted {
            proof {
                lemma_index_of_first(default_keys(), key@, index as int);
            }
            return Some(nth_value(index));
        }
        index = index + 1;
    }
    proof {
        lemma_index_of_none(default_keys(), key@);
    }
    None
}

/// The position of `look_x` in the table. `look_y`, `look_z`, `up_x`, `up_y`
/// and `up_z` follow it.
pub const CAMERA_AT: usize = 3;

/// The six fields from `CAMERA_AT` on are the directions of the camera.
pub proof fn lemma_camera_keys()
    ensures
        default_key(CAMERA_AT as int) == "look_x"@,
        default_key(CAMERA_AT + 1) == "look_y"@,
        default_key(CAMERA_AT + 2) == "look_z"@,
        default_key(CAMERA_AT + 3) == "up_x"@,
        default_key(CAMERA_AT + 4) == "up_y"@,
        default_key(CAMERA_AT + 5) == "up_z"@,
{
}

/// The directions of the camera, as the bits of six real numbers.
#[derive(Clone, Copy, Debug, PartialEq, Eq, Structural)]
pub struct Camera {
    pub look_x: u32,
    pub look_y: u32,
    pub look_z: u32,
    pub up_x: u32,
    pub up_y: u32,
    pub up_z: u32,
}

/// Why a store could not be interpolated or its camera set right.
#[derive(Clone, Copy, Debug, PartialEq, Eq, Structural)]
pub enum InterpolateError {
    /// A field is a whole number in one keyframe and a real one in another.
    InconsistentType,
    /// One of the six camera fields is not a real number.
    CameraNotReal,
}

/// The bits of the real number at `index`, if the field is real.
pub open spec fn real_bits(fields: Seq<Field>, index: int) -> Option<u32> {
    if 0 <= index < fields.len() {
        match fields[index].value {
            SettingValue::F32(bits, _) => Some(bits),
            SettingValue::U32(_) => None,
        }
    } else {
        None
    }
}

/// The camera that `fields` hold; `None` where a camera field is missing or
/// not real.
pub open spec fn camera_of(fields: Seq<Field>) -> Option<Camera> {
    match (
        real_bits(fields, CAMERA_AT as int),
        real_bits(fields, CAMERA_AT + 1),
        real_bits(fields, CAMERA_AT + 2),
        real_bits(fields, CAMERA_AT + 3),
        real_bits(fields, CAMERA_AT + 4),
        real_bits(fields, CAMERA_AT + 5),
    ) {
        (Some(look_x), Some(look_y), Some(look_z), Some(up_x), Some(up_y), Some(up_z)) => Some(
            Camera { look_x, look_y, look_z, up_x, up_y, up_z },
        ),
        _ => None,
    }
}

/// `fields` with the number at `index` replaced.
pub open spec fn with_number_at(fields: Seq<Field>, index: int, number: u32) -> Seq<Field> {
    fields.update(
        index,
        Field { key: fields[index].key, value: fields[index].value.with_number(number) },
    )
}

/// `fields` with the numbers of the camera fields replaced by those of
/// `camera`; keys and scales stay.
pub open spec fn with_camera(fields: Seq<Field>, camera: Camera) -> Seq<Field> {
    let a = with_number_at(fields, CAMERA_AT as int, camera.look_x);
    let b = with_number_at(a, CAMERA_AT + 1, camera.look_y);
    let c = with_number_at(b, CAMERA_AT + 2, camera.look_z);
    let d = with_number_at(c, CAMERA_AT + 3, camera.up_x);
    let e = with_number_at(d, CAMERA_AT + 4, camera.up_y);
    with_number_at(e, CAMERA_AT + 5, camera.up_z)
}

/// Whether `after` is `before` with its camera replaced by what `orient`
/// gives for it.
pub open spec fn is_oriented<O: Fn(Camera) -> Camera>(
    orient: O,
    before: Seq<Field>,
    after: Seq<Field>,
) -> bool {
    match camera_of(before) {
        Some(camera) => exists|turned: Camera| #[trigger]
            call_ensures(orient, (camera,), turned) && after == with_camera(before, turned),
        None => false,
    }
}

/// The bits of the real number at `index` of the store.
fn read_real(settings: &Settings, index: usize) -> (bits: Option<u32>)
    ensures
        bits == real_bits(settings@.fields, index as int),
{
    let entries = settings.value_map();
    if index < entries.len() {
        match entries[index].value {
            SettingValue::F32(bits, _) => Some(bits),
            SettingValue::U32(_) => None,
        }
    } else {
        None
    }
}

/// The camera of the store.
pub fn camera(settings: &Settings) -> (found: Option<Camera>)
    ensures
        found == camera_of(settings@.fields),
{
    match (
        read_real(settings, CAMERA_AT),
        read_real(settings, CAMERA_AT + 1),
        read_real(settings, CAMERA_AT + 2),
        read_real(settings, CAMERA_AT + 3),
        read_real(settings, CAMERA_AT + 4),
        read_real(settings, CAMERA_AT + 5),
    ) {
        (Some(look_x), Some(look_y), Some(look_z), Some(up_x), Some(up_y), Some(up_z)) => Some(
            Camera { look_x, look_y, look_z, up_x, up_y, up_z },
        ),
        _ => None,
    }
}

/// Sets the camera of the store right: hands its six numbers to `orient`,
/// which is to make the look direction a unit vector and the up direction a
/// unit vector at a right angle to it, and stores what comes back. Scales
/// stay. A store whose camera fields are not all real is left as it is.
pub fn normalize<O: Fn(Camera) -> Camera>(settings: &mut Settings, orient: O) -> (result: Result<
    (),
    InterpolateError,
>)
    requires
        forall|camera: Camera| call_requires(orient, (camera,)),
    ensures
        match result {
            Ok(_) => is_oriented(orient, old(settings)@.fields, final(settings)@.fields),
            Err(error) => {
                &&& error == InterpolateError::CameraNotReal
                &&& camera_of(old(settings)@.fields) is None
                &&& final(settings)@.fields == old(settings)@.fields
            },
        },
        final(settings)@.keys() == old(settings)@.keys(),
        final(settings)@.constants == old(settings)@.constants,
        final(settings)@.rebuild == old(settings)@.rebuild,
{
    match camera(settings) {
        None => Err(InterpolateError::CameraNotReal),
        Some(found) => {
            let turned = orient(found);
            set_number(settings, CAMERA_AT, turned.look_x);
            set_number(settings, CAMERA_AT + 1, turned.look_y);
            set_number(settings, CAMERA_AT + 2, turned.look_z);
            set_number(settings, CAMERA_AT + 3, turned.up_x);
            set_number(settings, CAMERA_AT + 4, turned.up_y);
            set_number(settings, CAMERA_AT + 5, turned.up_z);
            Ok(())
        },
    }
}

/// Replaces the real number at `index`; its scale stays.
fn set_number(settings: &mut Settings, index: usize, bits: u32)
    requires
        real_bits(old(settings)@.fields, index as int) is Some,
    ensures
        final(settings)@.fields == with_number_at(old(settings)@.fields, index as int, bits),
        final(settings)@.keys() == old(settings)@.keys(),
        final(settings)@.constants == old(settings)@.constants,
        final(settings)@.rebuild == old(settings)@.rebuild,
{
    let scale = match settings.value_map()[index].value {
        SettingValue::F32(_, scale) => scale,
        SettingValue::U32(_) => 0,
    };
    settings.set_at(index, SettingValue::F32(bits, scale));
}

} // verus!
