use clam5::default_settings::nth;
use clam5::default_settings::FIELD_COUNT;
use clam5::lines::ConfigParseError;
use clam5::lines::LineSource;
use clam5::settings::SettingValue;
use clam5::settings::Settings;

fn float(value: f32, scale: f32) -> SettingValue {
    SettingValue::F32(value.to_bits(), scale.to_bits())
}

fn show(bits: u32) -> String {
    format!("{}", f32::from_bits(bits))
}

fn read(text: &str) -> Option<u32> {
    text.parse::<f32>().ok().map(f32::to_bits)
}

fn source(text: &str) -> LineSource {
    LineSource::new(text.lines().map(str::to_string).collect(), read)
}

#[test]
fn save_writes_one_line_for_each_field() {
    let store = Settings::new();
    let lines = store.save(show);
    assert_eq!(lines.len(), FIELD_COUNT);
    assert_eq!(lines[0], "pos_x = 0");
    assert_eq!(lines[2], "pos_z = 5");
    assert_eq!(lines[5], "look_z = -1");
    assert_eq!(lines[14], "min_radius_2 = 0.125");
    assert_eq!(lines[15], "dof_amount = 0.001");
    assert_eq!(lines[25], "ambient_brightness_hue = 0.65");
    assert_eq!(lines[32], "bailout = 1024");
    assert_eq!(lines[37], "white_clamp = 0");
    assert_eq!(lines[39], "max_ray_steps = 256");
    for index in 0..FIELD_COUNT {
        assert!(lines[index].starts_with(&format!("{} = ", nth(index))));
    }
}

#[test]
fn save_writes_added_keys_after_the_table() {
    let mut store = Settings::new();
    store.insert("VR".to_string(), SettingValue::U32(1));
    let lines = store.save(show);
    assert_eq!(lines.len(), FIELD_COUNT + 1);
    assert_eq!(lines[FIELD_COUNT], "VR = 1");
}

#[test]
fn save_keyframe_closes_the_record() {
    let store = Settings::new();
    let lines = store.save_keyframe(show);
    assert_eq!(lines.len(), FIELD_COUNT + 1);
    assert_eq!(lines[FIELD_COUNT], "---");
    assert_eq!(&lines[..FIELD_COUNT], &store.save(show)[..]);
}

#[test]
fn load_of_what_was_saved_gives_the_store_back() {
    let mut saved = Settings::new();
    saved.insert("fov".to_string(), float(0.3, -1.0));
    saved.insert("pos_x".to_string(), float(-12.625, 1.0));
    saved.insert("dof_amount".to_string(), float(1.0e-7, -0.5));
    saved.insert("fog_distance".to_string(), float(3.4e38, -1.0));
    saved.insert("max_iters".to_string(), SettingValue::U32(u32::MAX));
    saved.insert("white_clamp".to_string(), SettingValue::U32(1));
    let mut lines = LineSource::new(saved.save(show), read);
    let mut loaded = saved.clone();
    assert_eq!(loaded.load(&mut lines), Ok(()));
    assert!(loaded == saved);
    assert_eq!(lines.position(), FIELD_COUNT);
    for index in 0..FIELD_COUNT {
        assert_eq!(loaded.value_map()[index].value, saved.value_map()[index].value);
    }
}

#[test]
fn load_into_another_store_takes_the_numbers_and_keeps_its_scales() {
    let mut saved = Settings::new();
    saved.insert("fov".to_string(), float(0.5, 7.0));
    saved.insert("max_iters".to_string(), SettingValue::U32(12));
    let mut lines = LineSource::new(saved.save(show), read);
    let mut target = Settings::new();
    assert_eq!(target.load_iter(&mut lines), Ok((FIELD_COUNT, false)));
    assert_eq!(target.get("fov"), Some(&float(0.5, -1.0)));
    assert_eq!(target.get("max_iters"), Some(&SettingValue::U32(12)));
}

#[test]
fn load_iter_stops_at_the_record_end() {
    let mut lines = source("fov = 2\nmax_iters = 7\n---\nfov = 3\n");
    let mut store = Settings::new();
    assert_eq!(store.load_iter(&mut lines), Ok((2, true)));
    assert_eq!(lines.position(), 3);
    assert_eq!(store.get("fov"), Some(&float(2.0, -1.0)));
    assert_eq!(store.get("max_iters"), Some(&SettingValue::U32(7)));
    assert_eq!(store.load_iter(&mut lines), Ok((1, false)));
    assert_eq!(lines.position(), 4);
    assert_eq!(store.get("fov"), Some(&float(3.0, -1.0)));
    assert_eq!(store.load_iter(&mut lines), Ok((0, false)));
    assert_eq!(lines.position(), 4);
}

#[test]
fn load_iter_of_an_empty_source_reads_nothing() {
    let mut lines = source("");
    let mut store = Settings::new();
    assert_eq!(store.load_iter(&mut lines), Ok((0, false)));
    assert!(store == Settings::new());
}

#[test]
fn load_iter_of_an_empty_record_reads_nothing_and_goes_on() {
    let mut lines = source("---\n---\nfov = 4\n");
    let mut store = Settings::new();
    assert_eq!(store.load_iter(&mut lines), Ok((0, true)));
    assert_eq!(store.load_iter(&mut lines), Ok((0, true)));
    assert_eq!(store.load_iter(&mut lines), Ok((1, false)));
}

#[test]
fn load_iter_trims_around_the_equals_sign_and_the_dashes() {
    let mut lines = source("   fov=2.5  \n\tmax_iters\t=\t9\n  ---  \n");
    let mut store = Settings::new();
    assert_eq!(store.load_iter(&mut lines), Ok((2, true)));
    assert_eq!(store.get("fov"), Some(&float(2.5, -1.0)));
    assert_eq!(store.get("max_iters"), Some(&SettingValue::U32(9)));
}

#[test]
fn load_iter_lets_the_last_line_of_a_key_win() {
    let mut lines = source("fov = 2\nfov = 3\n");
    let mut store = Settings::new();
    assert_eq!(store.load_iter(&mut lines), Ok((2, false)));
    assert_eq!(store.get("fov"), Some(&float(3.0, -1.0)));
}

#[test]
fn load_iter_refuses_a_line_that_is_no_field() {
    let mut lines = source("fov = 2\nnonsense\nmax_iters = 3\n");
    let mut store = Settings::new();
    assert_eq!(store.load_iter(&mut lines), Err(ConfigParseError::MalformedLine { line: 1 }));
    assert_eq!(lines.position(), 2);
    assert_eq!(store.get("fov"), Some(&float(2.0, -1.0)));
    assert_eq!(store.get("max_iters"), Some(&SettingValue::U32(64)));
}

#[test]
fn load_iter_refuses_a_blank_line() {
    let mut lines = source("\n");
    let mut store = Settings::new();
    assert_eq!(store.load_iter(&mut lines), Err(ConfigParseError::MalformedLine { line: 0 }));
}

#[test]
fn load_iter_refuses_an_unknown_key() {
    let mut lines = source("fov = 2\nzoom = 1\n");
    let mut store = Settings::new();
    assert_eq!(store.load_iter(&mut lines), Err(ConfigParseError::UnknownKey { line: 1 }));
    assert_eq!(store.get("zoom"), None);
    assert_eq!(store.value_map().len(), FIELD_COUNT);
}

#[test]
fn load_iter_refuses_two_fields_on_one_line() {
    let mut lines = source("fov = 2 = 3\n");
    let mut store = Settings::new();
    assert_eq!(store.load_iter(&mut lines), Err(ConfigParseError::UnknownKey { line: 0 }));
}

#[test]
fn load_iter_refuses_a_value_of_the_wrong_kind() {
    let mut store = Settings::new();
    let mut lines = source("max_iters = 1.5\n");
    assert_eq!(store.load_iter(&mut lines), Err(ConfigParseError::InvalidValue { line: 0 }));
    let mut lines = source("max_iters = -1\n");
    assert_eq!(store.load_iter(&mut lines), Err(ConfigParseError::InvalidValue { line: 0 }));
    let mut lines = source("max_iters = 4294967296\n");
    assert_eq!(store.load_iter(&mut lines), Err(ConfigParseError::InvalidValue { line: 0 }));
    let mut lines = source("fov = wide\n");
    assert_eq!(store.load_iter(&mut lines), Err(ConfigParseError::InvalidValue { line: 0 }));
    let mut lines = source("fov =\n");
    assert_eq!(store.load_iter(&mut lines), Err(ConfigParseError::InvalidValue { line: 0 }));
    assert!(store == Settings::new());
}

#[test]
fn load_iter_reads_a_whole_number_as_a_real_one_where_the_field_is_real() {
    let mut store = Settings::new();
    let mut lines = source("fov = 3\n");
    assert_eq!(store.load_iter(&mut lines), Ok((1, false)));
    assert_eq!(store.get("fov"), Some(&float(3.0, -1.0)));
}

#[test]
fn load_iter_reads_by_the_kind_that_is_there() {
    let mut store = Settings::new();
    store.insert("max_iters".to_string(), float(0.0, 2.0));
    let mut lines = source("max_iters = 1.5\n");
    assert_eq!(store.load_iter(&mut lines), Ok((1, false)));
    assert_eq!(store.get("max_iters"), Some(&float(1.5, 2.0)));
}

#[test]
fn load_iter_leaves_locks_and_the_rebuild_request() {
    let mut store = Settings::new();
    store.set_const("fov", true);
    store.rebuild();
    let mut lines = source("fov = 2\n---\n");
    assert_eq!(store.load_iter(&mut lines), Ok((1, true)));
    assert!(store.is_const("fov"));
    assert!(store.check_rebuild());
}

#[test]
fn load_reads_one_record() {
    let mut lines = source("fov = 2\n---\nfov = 3\n");
    let mut store = Settings::new();
    assert_eq!(store.load(&mut lines), Ok(()));
    assert_eq!(store.get("fov"), Some(&float(2.0, -1.0)));
    assert_eq!(lines.position(), 2);
}

#[test]
fn load_hands_the_error_on() {
    let mut lines = source("fov 2\n");
    let mut store = Settings::new();
    assert_eq!(store.load(&mut lines), Err(ConfigParseError::MalformedLine { line: 0 }));
}

#[test]
fn a_line_source_walks_its_lines() {
    let mut lines = source("fov = 2\n---\n");
    assert_eq!(lines.position(), 0);
    assert_eq!(lines.current(), Some("fov = 2"));
    assert_eq!(lines.current_real(), Some(2.0f32.to_bits()));
    lines.advance();
    assert_eq!(lines.current(), Some("---"));
    assert_eq!(lines.current_real(), None);
    lines.advance();
    assert_eq!(lines.current(), None);
    assert_eq!(lines.current_real(), None);
    lines.advance();
    assert_eq!(lines.position(), 2);
}

#[test]
fn a_line_source_reads_reals_of_field_lines_only() {
    let calls = std::cell::Cell::new(0);
    let lines = vec!["fov = 2".to_string(), "3".to_string(), "---".to_string(), "a = b".to_string()];
    let source = LineSource::new(lines, |text: &str| {
        calls.set(calls.get() + 1);
        read(text)
    });
    assert_eq!(calls.get(), 2);
    assert_eq!(source.current_real(), Some(2.0f32.to_bits()));
}
