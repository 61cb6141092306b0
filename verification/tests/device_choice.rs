use clam5::device::select;
use clam5::device::Choice;
use clam5::device::DeviceSelectionError;
use std::cell::RefCell;

fn never(choice: Choice) -> Result<u32, String> {
    panic!("asked for {:?}", choice)
}

#[test]
fn an_index_beyond_the_devices_is_refused_and_nothing_is_asked() {
    let counts = vec![2, 0, 3];
    for index in [5, 6, 100, usize::MAX] {
        let result = select(&counts, Some(index), &never);
        match result {
            Err(DeviceSelectionError::DeviceIndexOutOfRange { index: i, count }) => {
                assert_eq!(i, index);
                assert_eq!(count, 5);
            },
            other => panic!("{:?}", other),
        }
    }
    let result = select(&Vec::new(), Some(0), &never);
    assert!(matches!(
        result,
        Err(DeviceSelectionError::DeviceIndexOutOfRange { index: 0, count: 0 })
    ));
}

#[test]
fn an_index_counts_the_devices_platform_by_platform() {
    let counts = vec![2, 0, 3];
    let expected = [(0, 0), (0, 1), (2, 0), (2, 1), (2, 2)];
    for (index, (platform, device)) in expected.iter().enumerate() {
        let asked = RefCell::new(Vec::new());
        let connect = |choice: Choice| -> Result<u32, String> {
            asked.borrow_mut().push(choice);
            Ok(7)
        };
        assert!(matches!(select(&counts, Some(index), &connect), Ok(7)));
        assert_eq!(
            *asked.borrow(),
            vec![Choice::Device { platform: *platform, device: *device }]
        );
    }
}

#[test]
fn a_refused_device_at_an_index_is_not_searched_around() {
    let counts = vec![1, 1];
    let asked = RefCell::new(Vec::new());
    let connect = |choice: Choice| -> Result<u32, String> {
        asked.borrow_mut().push(choice);
        Err("busy".to_string())
    };
    let result = select(&counts, Some(1), &connect);
    assert!(matches!(result, Err(DeviceSelectionError::NoComputeDeviceFound(Some(e))) if e == "busy"));
    assert_eq!(*asked.borrow(), vec![Choice::Device { platform: 1, device: 0 }]);
}

#[test]
fn the_search_takes_the_first_graphics_device() {
    let counts = vec![1, 4, 2];
    let asked = RefCell::new(Vec::new());
    let connect = |choice: Choice| -> Result<usize, String> {
        asked.borrow_mut().push(choice);
        match choice {
            Choice::Gpu { platform } if platform >= 1 => Ok(platform),
            _ => Err("none".to_string()),
        }
    };
    assert!(matches!(select(&counts, None, &connect), Ok(1)));
    assert_eq!(*asked.borrow(), vec![Choice::Gpu { platform: 0 }, Choice::Gpu { platform: 1 }]);
}

#[test]
fn the_search_falls_back_to_any_device() {
    let counts = vec![1, 1, 1];
    let asked = RefCell::new(Vec::new());
    let connect = |choice: Choice| -> Result<usize, String> {
        asked.borrow_mut().push(choice);
        match choice {
            Choice::Any { platform: 1 } => Ok(11),
            _ => Err("none".to_string()),
        }
    };
    assert!(matches!(select(&counts, None, &connect), Ok(11)));
    assert_eq!(
        *asked.borrow(),
        vec![
            Choice::Gpu { platform: 0 },
            Choice::Gpu { platform: 1 },
            Choice::Gpu { platform: 2 },
            Choice::Any { platform: 0 },
            Choice::Any { platform: 1 },
        ]
    );
}

#[test]
fn a_search_that_finds_nothing_carries_the_last_error() {
    let counts = vec![1, 1];
    let connect = |choice: Choice| -> Result<u32, String> { Err(format!("{:?}", choice)) };
    let result = select(&counts, None, &connect);
    match result {
        Err(DeviceSelectionError::NoComputeDeviceFound(Some(error))) => {
            assert_eq!(error, format!("{:?}", Choice::Any { platform: 1 }));
        },
        other => panic!("{:?}", other),
    }
}

#[test]
fn a_search_over_no_platform_has_no_error_to_carry() {
    let result = select(&Vec::new(), None, &never);
    assert!(matches!(result, Err(DeviceSelectionError::NoComputeDeviceFound(None))));
}

#[test]
fn the_search_asks_platforms_without_devices_too() {
    let counts = vec![0, 0];
    let asked = RefCell::new(0);
    let connect = |_: Choice| -> Result<u32, String> {
        *asked.borrow_mut() += 1;
        Err("empty".to_string())
    };
    assert!(select(&counts, None, &connect).is_err());
    assert_eq!(*asked.borrow(), 4);
}
