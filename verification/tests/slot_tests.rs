use wik::slot::{LoadSlot, LoadStatus};

#[test]
fn at_most_one_in_flight() {
    // Two launches in rapid succession on the same slot admit exactly one
    // worker.
    let mut slot: LoadSlot<Vec<u32>> = LoadSlot::new(Vec::new());
    let mut spawned = 0;
    if slot.try_launch() {
        spawned += 1;
    }
    if slot.try_launch() {
        spawned += 1;
    }
    assert_eq!(spawned, 1);
}

#[test]
fn launch_allowed_again_after_success() {
    let mut slot: LoadSlot<u32> = LoadSlot::new(0);
    assert!(slot.try_launch());
    slot.finish_success(7);
    assert!(slot.try_launch());
}

#[test]
fn success_replaces_value_and_clears_flag() {
    let mut slot: LoadSlot<u32> = LoadSlot::new(1);
    assert!(slot.try_launch());
    assert!(slot.is_loading());
    slot.finish_success(2);
    assert!(!slot.is_loading());
    match slot.poll() {
        LoadStatus::Ready(v) => assert_eq!(*v, 2),
        LoadStatus::Loading => panic!("slot should be ready"),
    }
}

#[test]
fn failure_keeps_previous_value_and_clears_flag() {
    let mut slot: LoadSlot<u32> = LoadSlot::new(5);
    assert!(slot.try_launch());
    slot.finish_failure();
    assert!(!slot.is_loading());
    match slot.poll() {
        LoadStatus::Ready(v) => assert_eq!(*v, 5),
        LoadStatus::Loading => panic!("slot should be ready"),
    }
}

#[test]
fn poll_reports_loading_while_in_flight() {
    let mut slot: LoadSlot<u32> = LoadSlot::new(0);
    assert!(matches!(slot.poll(), LoadStatus::Ready(_)));
    slot.try_launch();
    assert!(matches!(slot.poll(), LoadStatus::Loading));
}
