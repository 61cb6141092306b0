use clam5::default_settings::camera;
use clam5::default_settings::normalize;
use clam5::default_settings::Camera;
use clam5::default_settings::InterpolateError;
use clam5::default_settings::FIELD_COUNT;
use clam5::keyframes::interpolate;
use clam5::keyframes::KeyframeError;
use clam5::keyframes::KeyframeList;
use clam5::keyframes::Samples;
use clam5::lines::ConfigParseError;
use clam5::lines::LineSource;
use clam5::settings::SettingValue;
use clam5::settings::Settings;

fn float(value: f32, scale: f32) -> SettingValue {
    SettingValue::F32(value.to_bits(), scale.to_bits())
}

fn show(bits: u32) -> String {
    format!("{}", f32::from_bits(bits))
}

fn read(text: &str) -> Option<u32> {
    text.parse::<f32>().ok().map(f32::to_bits)
}

fn source(text: &str) -> LineSource {
    LineSource::new(text.lines().map(str::to_string).collect(), read)
}

fn curve(before: f32, here: f32, after: f32, beyond: f32, t: f32) -> f32 {
    let t2 = t * t;
    let t3 = t2 * t;
    ((2.0 * here)
        + (-before + after) * t
        + (2.0 * before - 5.0 * here + 4.0 * after - beyond) * t2
        + (-before + 3.0 * here - 3.0 * after + beyond) * t3)
        / 2.0
}

fn blend_at(t: f32) -> impl Fn(Samples) -> u32 {
    move |s: Samples| {
        if s.is_real {
            curve(
                f32::from_bits(s.prev),
                f32::from_bits(s.cur),
                f32::from_bits(s.next),
                f32::from_bits(s.next2),
                t,
            )
            .to_bits()
        } else {
            curve(s.prev as f32, s.cur as f32, s.next as f32, s.next2 as f32, t) as u32
        }
    }
}

fn keep(camera: Camera) -> Camera {
    camera
}

fn orient(camera: Camera) -> Camera {
    let look = [
        f32::from_bits(camera.look_x),
        f32::from_bits(camera.look_y),
        f32::from_bits(camera.look_z),
    ];
    let up = [f32::from_bits(camera.up_x), f32::from_bits(camera.up_y), f32::from_bits(camera.up_z)];
    let unit = |v: [f32; 3]| {
        let len = (v[0] * v[0] + v[1] * v[1] + v[2] * v[2]).sqrt();
        [v[0] / len, v[1] / len, v[2] / len]
    };
    let cross = |a: [f32; 3], b: [f32; 3]| {
        [a[1] * b[2] - a[2] * b[1], a[2] * b[0] - a[0] * b[2], a[0] * b[1] - a[1] * b[0]]
    };
    let look = unit(look);
    let up = unit(cross(cross(look, up), look));
    Camera {
        look_x: look[0].to_bits(),
        look_y: look[1].to_bits(),
        look_z: look[2].to_bits(),
        up_x: up[0].to_bits(),
        up_y: up[1].to_bits(),
        up_z: up[2].to_bits(),
    }
}

fn record(changes: &[(&str, SettingValue)]) -> Vec<String> {
    let mut store = Settings::new();
    for (key, value) in changes {
        store.insert(key.to_string(), *value);
    }
    store.save_keyframe(show)
}

fn list_of(records: &[Vec<String>]) -> KeyframeList {
    let lines: Vec<String> = records.iter().flatten().cloned().collect();
    let mut source = LineSource::new(lines, read);
    KeyframeList::new(&mut source, Settings::new()).unwrap()
}

fn number(list: &KeyframeList, key: &str) -> f32 {
    match list.base().get(key) {
        Some(SettingValue::F32(bits, _)) => f32::from_bits(*bits),
        other => panic!("{} is {:?}", key, other),
    }
}

#[test]
fn two_records_give_two_keyframes_and_a_blend_between_them() {
    let text = "fov = 1\nfocal_distance = 3\n---\nfov = 2\nfocal_distance = 3\n---\n";
    let mut lines = source(text);
    let mut list = KeyframeList::new(&mut lines, Settings::new()).unwrap();
    assert_eq!(list.len(), 2);
    assert_eq!(list.keyframe(0).get("fov"), Some(&float(1.0, -1.0)));
    assert_eq!(list.keyframe(1).get("fov"), Some(&float(2.0, -1.0)));
    assert_eq!(list.interpolate(0, blend_at(0.5), orient), Ok(()));
    let fov = number(&list, "fov");
    assert!(1.0 < fov && fov < 2.0);
    assert_eq!(fov, 1.5);
    assert_eq!(number(&list, "focal_distance"), 3.0);
}

#[test]
fn a_record_counts_once_a_line_closes_it() {
    let mut lines = source("fov = 1\n---\nfov = 2\n");
    let list = KeyframeList::new(&mut lines, Settings::new()).unwrap();
    assert_eq!(list.len(), 1);
    assert_eq!(list.keyframe(0).get("fov"), Some(&float(1.0, -1.0)));
    assert_eq!(list.base().get("fov"), Some(&float(2.0, -1.0)));
    assert_eq!(lines.position(), 3);
}

#[test]
fn empty_records_are_passed_over() {
    let mut lines = source("---\nfov = 1\n---\n---\n---\nfov = 2\n---\n");
    let list = KeyframeList::new(&mut lines, Settings::new()).unwrap();
    assert_eq!(list.len(), 2);
}

#[test]
fn a_keyframe_carries_what_earlier_records_set() {
    let mut lines = source("fov = 1\n---\nscale = 4\n---\n");
    let list = KeyframeList::new(&mut lines, Settings::new()).unwrap();
    assert_eq!(list.keyframe(1).get("fov"), Some(&float(1.0, -1.0)));
    assert_eq!(list.keyframe(1).get("scale"), Some(&float(4.0, 0.5)));
    assert_eq!(list.keyframe(0).get("scale"), Some(&float(-2.0, 0.5)));
}

#[test]
fn a_log_without_a_keyframe_is_refused() {
    for text in ["", "---\n", "fov = 1\n", "---\n---\n"] {
        let mut lines = source(text);
        let result = KeyframeList::new(&mut lines, Settings::new());
        assert!(matches!(result, Err(KeyframeError::EmptyKeyframeLog)), "{:?}", text);
    }
}

#[test]
fn a_refused_line_ends_the_build() {
    let mut lines = source("fov = 1\n---\nfov = x\n---\n");
    let result = KeyframeList::new(&mut lines, Settings::new());
    assert!(matches!(
        result,
        Err(KeyframeError::Parse(ConfigParseError::InvalidValue { line: 2 }))
    ));
    let mut lines = source("what\n");
    let result = KeyframeList::new(&mut lines, Settings::new());
    assert!(matches!(
        result,
        Err(KeyframeError::Parse(ConfigParseError::MalformedLine { line: 0 }))
    ));
    let mut lines = source("zoom = 1\n---\n");
    let result = KeyframeList::new(&mut lines, Settings::new());
    assert!(matches!(
        result,
        Err(KeyframeError::Parse(ConfigParseError::UnknownKey { line: 0 }))
    ));
}

#[test]
fn the_working_copy_keeps_locks_and_added_keys() {
    let mut base = Settings::new();
    base.set_const("fov", true);
    base.insert("VR".to_string(), SettingValue::U32(1));
    let mut lines = source("VR = 2\n---\n");
    let list = KeyframeList::new(&mut lines, base).unwrap();
    assert!(list.base().is_const("fov"));
    assert_eq!(list.keyframe(0).get("VR"), Some(&SettingValue::U32(2)));
    assert_eq!(list.keyframe(0).value_map().len(), FIELD_COUNT + 1);
}

#[test]
fn the_ends_of_the_list_are_met_exactly() {
    let records = [
        record(&[("fov", float(0.3, -1.0)), ("max_iters", SettingValue::U32(10))]),
        record(&[("fov", float(0.7, -1.0)), ("max_iters", SettingValue::U32(20))]),
        record(&[("fov", float(1.9, -1.0)), ("max_iters", SettingValue::U32(35))]),
    ];
    let mut list = list_of(&records);
    assert_eq!(list.len(), 3);
    assert_eq!(list.interpolate(0, blend_at(0.0), orient), Ok(()));
    assert!(*list.base() == *list.keyframe(0));
    assert_eq!(list.interpolate(2, blend_at(0.0), orient), Ok(()));
    assert!(*list.base() == *list.keyframe(2));
    assert_eq!(list.base().get("fov"), Some(&float(1.9, -1.0)));
    assert_eq!(list.base().get("max_iters"), Some(&SettingValue::U32(35)));
}

#[test]
fn a_list_of_one_gives_that_one() {
    let mut list = list_of(&[record(&[("fov", float(0.3, -1.0))])]);
    assert_eq!(list.interpolate(0, blend_at(0.0), orient), Ok(()));
    assert!(*list.base() == *list.keyframe(0));
    let spy = |s: Samples| {
        assert_eq!((s.prev, s.next, s.next2), (s.cur, s.cur, s.cur));
        s.cur
    };
    assert_eq!(list.interpolate(0, spy, keep), Ok(()));
    assert!(*list.base() == *list.keyframe(0));
}

#[test]
fn the_blend_takes_the_neighbours_held_inside_the_list() {
    let records: Vec<Vec<String>> =
        (0..5).map(|i| record(&[("max_iters", SettingValue::U32(10 * (i + 1)))])).collect();
    let mut list = list_of(&records);
    let seen = std::cell::RefCell::new(Vec::new());
    let spy = |s: Samples| {
        if !s.is_real {
            seen.borrow_mut().push((s.prev, s.cur, s.next, s.next2));
        }
        s.cur
    };
    let at = |seen: &std::cell::RefCell<Vec<(u32, u32, u32, u32)>>| {
        let found: Vec<_> = seen.borrow().iter().copied().filter(|s| matches!(s.1, 10 | 20 | 30 | 40 | 50)).collect();
        seen.borrow_mut().clear();
        found
    };
    list.interpolate(0, &spy, keep).unwrap();
    assert_eq!(at(&seen), vec![(10, 10, 20, 30)]);
    list.interpolate(1, &spy, keep).unwrap();
    assert_eq!(at(&seen), vec![(10, 20, 30, 40)]);
    list.interpolate(3, &spy, keep).unwrap();
    assert_eq!(at(&seen), vec![(30, 40, 50, 50)]);
    list.interpolate(4, &spy, keep).unwrap();
    assert_eq!(at(&seen), vec![(40, 50, 50, 50)]);
}

#[test]
fn whole_numbers_are_blended_as_whole_numbers() {
    let records = [
        record(&[("max_iters", SettingValue::U32(10))]),
        record(&[("max_iters", SettingValue::U32(20))]),
    ];
    let mut list = list_of(&records);
    list.interpolate(0, blend_at(0.5), orient).unwrap();
    assert_eq!(list.base().get("max_iters"), Some(&SettingValue::U32(15)));
    list.interpolate(0, blend_at(0.25), orient).unwrap();
    assert_eq!(list.base().get("max_iters"), Some(&SettingValue::U32(12)));
}

#[test]
fn the_scale_is_that_of_the_current_keyframe() {
    let mut a = Settings::new();
    a.insert("fov".to_string(), float(1.0, 5.0));
    let mut b = Settings::new();
    b.insert("fov".to_string(), float(2.0, 6.0));
    let blended = interpolate(
        float(0.0, 4.0),
        float(1.0, 5.0),
        float(2.0, 6.0),
        float(3.0, 7.0),
        &blend_at(0.5),
    );
    assert_eq!(blended, Ok(float(1.5, 5.0)));
}

#[test]
fn interpolate_blends_four_values_of_one_kind() {
    let u = SettingValue::U32;
    assert_eq!(interpolate(u(0), u(10), u(20), u(30), &blend_at(0.5)), Ok(u(15)));
    assert_eq!(interpolate(u(0), u(10), u(20), u(30), &blend_at(0.0)), Ok(u(10)));
    assert_eq!(interpolate(u(0), u(10), u(20), u(30), &blend_at(1.0)), Ok(u(20)));
    let got = interpolate(
        float(0.0, 1.0),
        float(0.0, 1.0),
        float(1.0, 1.0),
        float(1.0, 1.0),
        &blend_at(0.5),
    );
    assert_eq!(got, Ok(float(0.5, 1.0)));
    let got = interpolate(
        float(0.0, 1.0),
        float(0.0, 1.0),
        float(1.0, 1.0),
        float(1.0, 1.0),
        &blend_at(0.25),
    );
    assert_eq!(got, Ok(float(0.203125, 1.0)));
}

#[test]
fn interpolate_refuses_mixed_kinds() {
    let u = SettingValue::U32;
    let f = float(1.0, 1.0);
    let never = |_: Samples| -> u32 { panic!("blend of mixed kinds") };
    for values in [[f, u(1), u(1), u(1)], [u(1), f, u(1), u(1)], [u(1), u(1), f, u(1)], [u(1), u(1), u(1), f], [f, f, f, u(1)], [u(1), f, f, f]] {
        assert_eq!(
            interpolate(values[0], values[1], values[2], values[3], &never),
            Err(InterpolateError::InconsistentType)
        );
    }
}

#[test]
fn every_keyframe_has_the_kinds_of_the_working_copy() {
    let mut base = Settings::new();
    base.insert("max_iters".to_string(), float(1.0, 1.0));
    let mut lines = source("max_iters = 5\n---\nfov = 2\n---\n");
    let mut list = KeyframeList::new(&mut lines, base).unwrap();
    assert_eq!(list.keyframe(0).get("max_iters"), Some(&float(5.0, 1.0)));
    assert_eq!(list.keyframe(1).get("max_iters"), Some(&float(5.0, 1.0)));
    assert_eq!(list.interpolate(0, blend_at(0.5), keep), Ok(()));
    assert_eq!(list.base().get("max_iters"), Some(&float(5.0, 1.0)));
    assert_eq!(list.base().get("fov"), Some(&float(1.5, -1.0)));
}

#[test]
fn a_camera_that_is_not_real_leaves_the_working_copy() {
    let mut base = Settings::new();
    base.insert("look_y".to_string(), SettingValue::U32(0));
    let mut lines = source("fov = 2\n---\n");
    let mut list = KeyframeList::new(&mut lines, base).unwrap();
    let before = list.base().clone();
    assert_eq!(list.interpolate(0, blend_at(0.0), orient), Err(InterpolateError::CameraNotReal));
    assert!(*list.base() == before);
    assert_eq!(list.base().get("fov"), Some(&float(2.0, -1.0)));
}

#[test]
fn normalize_sets_the_camera_right() {
    let mut store = Settings::new();
    store.insert("look_x".to_string(), float(0.0, 2.0));
    store.insert("look_y".to_string(), float(0.0, 3.0));
    store.insert("look_z".to_string(), float(-4.0, 4.0));
    store.insert("up_x".to_string(), float(0.0, 5.0));
    store.insert("up_y".to_string(), float(3.0, 6.0));
    store.insert("up_z".to_string(), float(3.0, 7.0));
    assert_eq!(normalize(&mut store, orient), Ok(()));
    assert_eq!(store.get("look_x"), Some(&float(0.0, 2.0)));
    assert_eq!(store.get("look_y"), Some(&float(0.0, 3.0)));
    assert_eq!(store.get("look_z"), Some(&float(-1.0, 4.0)));
    assert_eq!(store.get("up_x"), Some(&float(0.0, 5.0)));
    assert_eq!(store.get("up_y"), Some(&float(1.0, 6.0)));
    assert_eq!(store.get("up_z"), Some(&float(0.0, 7.0)));
    assert_eq!(store.get("pos_z"), Some(&float(5.0, 1.0)));
    assert_eq!(store.get("fov"), Some(&float(1.0, -1.0)));
}

#[test]
fn normalize_refuses_a_camera_that_is_not_real() {
    let mut store = Settings::new();
    store.insert("up_z".to_string(), SettingValue::U32(1));
    let before = store.clone();
    let never = |_: Camera| -> Camera { panic!("camera handed out") };
    assert_eq!(normalize(&mut store, never), Err(InterpolateError::CameraNotReal));
    assert!(store == before);
    assert_eq!(camera(&store), None);
}

#[test]
fn camera_reads_the_six_directions() {
    let store = Settings::new();
    assert_eq!(
        camera(&store),
        Some(Camera {
            look_x: 0.0f32.to_bits(),
            look_y: 0.0f32.to_bits(),
            look_z: (-1.0f32).to_bits(),
            up_x: 0.0f32.to_bits(),
            up_y: 1.0f32.to_bits(),
            up_z: 0.0f32.to_bits(),
        })
    );
}

#[test]
fn interpolation_normalizes_the_camera_of_a_keyframe() {
    let mut list = list_of(&[record(&[("look_z", float(-2.0, 1.0))])]);
    list.interpolate(0, blend_at(0.0), orient).unwrap();
    assert_eq!(list.base().get("look_z"), Some(&float(-1.0, 1.0)));
    assert_eq!(list.keyframe(0).get("look_z"), Some(&float(-2.0, 1.0)));
}
