use clam5::default_settings::default_for;
use clam5::default_settings::keys;
use clam5::default_settings::make_defaults;
use clam5::default_settings::nth;
use clam5::default_settings::nth_is_const;
use clam5::default_settings::nth_value;
use clam5::default_settings::FIELD_COUNT;
use clam5::settings::SettingValue;
use clam5::settings::Settings;

fn float(value: f32, scale: f32) -> SettingValue {
    SettingValue::F32(value.to_bits(), scale.to_bits())
}

fn show(bits: u32) -> String {
    format!("{}", f32::from_bits(bits))
}

#[test]
fn the_table_has_its_fields_in_order() {
    assert_eq!(FIELD_COUNT, 42);
    let names = keys();
    assert_eq!(names.len(), 42);
    assert_eq!(names[0], "pos_x");
    assert_eq!(names[9], "fov");
    assert_eq!(names[10], "focal_distance");
    assert_eq!(names[31], "surface_color_saturation");
    assert_eq!(names[41], "render_scale");
    for index in 0..FIELD_COUNT {
        assert_eq!(nth(index), names[index]);
    }
    assert_eq!(Settings::keys(), names);
}

#[test]
fn no_name_of_the_table_occurs_twice() {
    let names = keys();
    for i in 0..names.len() {
        for j in 0..i {
            assert_ne!(names[i], names[j]);
        }
    }
}

#[test]
fn the_table_holds_the_initial_values() {
    assert_eq!(nth_value(0), float(0.0, 1.0));
    assert_eq!(nth_value(2), float(5.0, 1.0));
    assert_eq!(nth_value(5), float(-1.0, 1.0));
    assert_eq!(nth_value(9), float(1.0, -1.0));
    assert_eq!(nth_value(10), float(3.0, -1.0));
    assert_eq!(nth_value(11), float(-2.0, 0.5));
    assert_eq!(nth_value(14), float(0.125, -0.5));
    assert_eq!(nth_value(15), float(0.001, -0.5));
    assert_eq!(nth_value(19), float(3.5, 0.5));
    assert_eq!(nth_value(23), float(0.4, -1.0));
    assert_eq!(nth_value(25), float(0.65, 0.25));
    assert_eq!(nth_value(26), float(0.2, -1.0));
    assert_eq!(nth_value(29), float(1.0, -0.25));
    assert_eq!(nth_value(32), float(1024.0, -1.0));
    assert_eq!(nth_value(33), float(0.9375, 0.125));
    assert_eq!(nth_value(36), float(64.0, -0.5));
    assert_eq!(nth_value(37), SettingValue::U32(0));
    assert_eq!(nth_value(38), SettingValue::U32(64));
    assert_eq!(nth_value(39), SettingValue::U32(256));
    assert_eq!(nth_value(40), SettingValue::U32(3));
    assert_eq!(nth_value(41), SettingValue::U32(1));
}

#[test]
fn the_table_locks_the_quality_fields() {
    for index in 0..FIELD_COUNT {
        assert_eq!(nth_is_const(index), (32..=40).contains(&index), "{}", nth(index));
    }
}

#[test]
fn default_for_finds_by_name() {
    assert_eq!(default_for("fov"), Some(float(1.0, -1.0)));
    assert_eq!(default_for("max_iters"), Some(SettingValue::U32(64)));
    assert_eq!(default_for("nothing"), None);
    assert_eq!(default_for(""), None);
    assert_eq!(default_for(" fov"), None);
    assert_eq!(Settings::default_for("render_scale"), Some(SettingValue::U32(1)));
}

#[test]
fn a_new_store_is_the_table() {
    let store = Settings::new();
    let entries = store.value_map();
    assert_eq!(entries.len(), FIELD_COUNT);
    for index in 0..FIELD_COUNT {
        assert_eq!(entries[index].key, nth(index));
        assert_eq!(entries[index].value, nth_value(index));
        assert_eq!(store.get(nth(index)), Some(&nth_value(index)));
        assert_eq!(store.is_const(nth(index)), nth_is_const(index));
        assert_eq!(store.nth(index), nth(index));
    }
    assert_eq!(store.constants().len(), 9);
}

#[test]
fn get_of_an_unknown_key_is_none() {
    let store = Settings::new();
    assert_eq!(store.get("VR"), None);
    assert_eq!(store.get(""), None);
    assert_eq!(store.get("FOV"), None);
}

#[test]
fn insert_replaces_in_place_and_returns_the_old_value() {
    let mut store = Settings::new();
    let old = store.insert("fov".to_string(), float(2.0, -1.0));
    assert_eq!(old, Some(float(1.0, -1.0)));
    assert_eq!(store.get("fov"), Some(&float(2.0, -1.0)));
    assert_eq!(store.value_map().len(), FIELD_COUNT);
    assert_eq!(store.value_map()[9].key, "fov");
    assert_eq!(store.value_map()[9].value, float(2.0, -1.0));
    assert_eq!(store.value_map()[8].value, nth_value(8));
    assert_eq!(store.value_map()[10].value, nth_value(10));
}

#[test]
fn insert_of_a_new_key_goes_to_the_end() {
    let mut store = Settings::new();
    assert_eq!(store.insert("VR".to_string(), SettingValue::U32(1)), None);
    assert_eq!(store.value_map().len(), FIELD_COUNT + 1);
    assert_eq!(store.value_map()[FIELD_COUNT].key, "VR");
    assert_eq!(store.get("VR"), Some(&SettingValue::U32(1)));
    assert_eq!(store.insert("VR".to_string(), SettingValue::U32(2)), Some(SettingValue::U32(1)));
    assert_eq!(store.value_map().len(), FIELD_COUNT + 1);
}

#[test]
fn insert_does_not_hold_the_kind() {
    let mut store = Settings::new();
    store.insert("max_iters".to_string(), float(1.5, 1.0));
    assert_eq!(store.get("max_iters"), Some(&float(1.5, 1.0)));
}

#[test]
fn locks_are_set_and_cleared() {
    let mut store = Settings::new();
    assert!(!store.is_const("fov"));
    store.set_const("fov", true);
    assert!(store.is_const("fov"));
    store.set_const("fov", true);
    assert_eq!(store.constants().iter().filter(|name| name.as_str() == "fov").count(), 1);
    store.set_const("fov", false);
    assert!(!store.is_const("fov"));
    store.set_const("fov", false);
    assert!(!store.is_const("fov"));
    assert!(store.is_const("bailout"));
    store.set_const("not a field", true);
    assert!(store.is_const("not a field"));
    assert_eq!(store.get("not a field"), None);
    store.clear_constants();
    assert!(store.constants().is_empty());
    assert!(!store.is_const("bailout"));
    assert_eq!(store.get("bailout"), Some(&float(1024.0, -1.0)));
}

#[test]
fn all_constants_locks_every_field() {
    let mut store = Settings::new();
    store.insert("extra".to_string(), SettingValue::U32(0));
    store.set_const("loose", true);
    store.all_constants();
    for index in 0..FIELD_COUNT {
        assert!(store.is_const(nth(index)));
    }
    assert!(store.is_const("extra"));
    assert!(store.is_const("loose"));
    assert!(!store.is_const("other"));
    assert_eq!(store.constants().len(), FIELD_COUNT + 2);
}

#[test]
fn the_rebuild_request_is_read_once() {
    let mut store = Settings::new();
    assert!(!store.check_rebuild());
    store.rebuild();
    store.rebuild();
    assert!(store.check_rebuild());
    assert!(!store.check_rebuild());
}

#[test]
fn equality_is_that_of_the_values() {
    let a = Settings::new();
    let mut b = Settings::new();
    assert!(a == b);
    b.rebuild();
    b.set_const("fov", true);
    b.clear_constants();
    assert!(a == b);
    b.insert("fov".to_string(), float(2.0, -1.0));
    assert!(a != b);
    b.insert("fov".to_string(), float(1.0, -1.0));
    assert!(a == b);
    b.insert("fov".to_string(), float(1.0, 1.0));
    assert!(a != b);
}

#[test]
fn equality_sees_added_keys_on_either_side() {
    let a = Settings::new();
    let mut b = Settings::new();
    b.insert("VR".to_string(), SettingValue::U32(0));
    assert!(a != b);
    assert!(b != a);
    let mut c = Settings::new();
    c.insert("VR".to_string(), SettingValue::U32(0));
    assert!(b == c);
}

#[test]
fn equality_does_not_depend_on_the_order_of_added_keys() {
    let mut a = Settings::new();
    a.insert("one".to_string(), SettingValue::U32(1));
    a.insert("two".to_string(), SettingValue::U32(2));
    let mut b = Settings::new();
    b.insert("two".to_string(), SettingValue::U32(2));
    b.insert("one".to_string(), SettingValue::U32(1));
    assert!(a == b);
}

#[test]
fn a_clone_is_equal_and_apart() {
    let mut a = Settings::new();
    a.set_const("fov", true);
    a.rebuild();
    let mut b = a.clone();
    assert!(a == b);
    assert!(b.is_const("fov"));
    assert!(b.check_rebuild());
    b.insert("fov".to_string(), float(9.0, -1.0));
    assert_eq!(a.get("fov"), Some(&float(1.0, -1.0)));
    assert!(a.check_rebuild());
}

#[test]
fn serialize_binary_is_the_numbers_low_byte_first() {
    let mut store = Settings::new();
    let bytes = store.serialize_binary();
    assert_eq!(bytes.len(), 4 * FIELD_COUNT);
    for index in 0..FIELD_COUNT {
        let number = match nth_value(index) {
            SettingValue::U32(n) => n,
            SettingValue::F32(bits, _) => bits,
        };
        assert_eq!(&bytes[4 * index..4 * index + 4], &number.to_le_bytes());
    }
    assert_eq!(&bytes[8..12], &[0x00, 0x00, 0xa0, 0x40]);
    assert_eq!(&bytes[4 * 39..4 * 40], &[0x00, 0x01, 0x00, 0x00]);
    store.insert("max_ray_steps".to_string(), SettingValue::U32(0x0102_0304));
    let changed = store.serialize_binary();
    assert_eq!(&changed[4 * 39..4 * 40], &[0x04, 0x03, 0x02, 0x01]);
    assert_eq!(&changed[..4 * 39], &bytes[..4 * 39]);
}

#[test]
fn serialize_binary_leaves_out_scales_locks_and_added_keys() {
    let plain = Settings::new();
    let mut other = Settings::new();
    other.insert("fov".to_string(), float(1.0, 123.0));
    other.insert("VR".to_string(), SettingValue::U32(5));
    other.all_constants();
    other.rebuild();
    assert_eq!(plain.serialize_binary(), other.serialize_binary());
}

#[test]
fn status_lists_the_table_with_marks() {
    let store = Settings::new();
    let listing = store.status(9, show);
    let rows: Vec<&str> = listing.split('\n').collect();
    assert_eq!(rows.len(), FIELD_COUNT + 1);
    assert_eq!(rows[FIELD_COUNT], "");
    assert_eq!(rows[0], "  pos_x = 0");
    assert_eq!(rows[2], "  pos_z = 5");
    assert_eq!(rows[9], "* fov = 1");
    assert_eq!(rows[14], "  min_radius_2 = 0.125");
    assert_eq!(rows[32], " @bailout = 1024");
    assert_eq!(rows[38], " @max_iters = 64");
    assert_eq!(rows[41], "  render_scale = 1");
}

#[test]
fn status_marks_a_locked_selected_field_with_both() {
    let mut store = Settings::new();
    store.insert("extra".to_string(), SettingValue::U32(7));
    let listing = store.status(40, show);
    assert!(listing.contains("*@num_ray_bounces = 3\n"));
    assert!(!listing.contains("extra"));
    let none = store.status(1000, show);
    assert!(!none.contains('*'));
}

#[test]
fn make_defaults_gives_the_table_and_its_locks() {
    let (entries, constants) = make_defaults();
    assert_eq!(entries.len(), FIELD_COUNT);
    for index in 0..FIELD_COUNT {
        assert_eq!(entries[index].key, nth(index));
        assert_eq!(entries[index].value, nth_value(index));
    }
    let locked: Vec<&str> = (0..FIELD_COUNT).filter(|i| nth_is_const(*i)).map(nth).collect();
    assert_eq!(constants, locked);
    assert_eq!(
        locked,
        vec![
            "bailout",
            "de_multiplier",
            "max_ray_dist",
            "quality_first_ray",
            "quality_rest_ray",
            "white_clamp",
            "max_iters",
            "max_ray_steps",
            "num_ray_bounces"
        ]
    );
}
