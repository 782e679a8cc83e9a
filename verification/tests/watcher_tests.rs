use raymarcher::fileobserver::FileObserver;

fn three_paths() -> Vec<Vec<u8>> {
    vec![b"a.glsl".to_vec(), b"b.glsl".to_vec(), b"c.glsl".to_vec()]
}

#[test]
fn touched_file_reported_exactly_once() {
    // Three files at T0; touching file #2 to T1 reports exactly it,
    // and an immediate second poll reports nothing.
    let t0: u64 = 100;
    let t1: u64 = 101;
    let mut o = FileObserver::new(three_paths(), &vec![Some(t0), Some(t0), Some(t0)]).unwrap();
    let first = o.modified(&vec![Some(t0), Some(t1), Some(t0)]).unwrap();
    assert_eq!(first, vec![1]);
    let second = o.modified(&vec![Some(t0), Some(t1), Some(t0)]).unwrap();
    assert_eq!(second, Vec::<usize>::new());
}

#[test]
fn further_advance_reports_again() {
    let mut o = FileObserver::new(three_paths(), &vec![Some(5), Some(5), Some(5)]).unwrap();
    assert_eq!(o.modified(&vec![Some(5), Some(6), Some(5)]).unwrap(), vec![1]);
    assert_eq!(o.modified(&vec![Some(5), Some(7), Some(5)]).unwrap(), vec![1]);
}

#[test]
fn several_changes_come_in_input_order() {
    let mut o = FileObserver::new(three_paths(), &vec![Some(1), Some(1), Some(1)]).unwrap();
    let r = o.modified(&vec![Some(2), Some(1), Some(3)]).unwrap();
    assert_eq!(r, vec![0, 2]);
}

#[test]
fn older_timestamp_is_no_change() {
    let mut o = FileObserver::new(three_paths(), &vec![Some(9), Some(9), Some(9)]).unwrap();
    assert_eq!(o.modified(&vec![Some(8), Some(9), Some(9)]).unwrap(), Vec::<usize>::new());
}

#[test]
fn unreadable_path_fails_construction() {
    let e = FileObserver::new(three_paths(), &vec![Some(1), None, Some(1)]).unwrap_err();
    assert_eq!(e.index, 1);
    assert_eq!(e.path, b"b.glsl".to_vec());
}

#[test]
fn unreadable_path_fails_poll_and_keeps_state() {
    let mut o = FileObserver::new(three_paths(), &vec![Some(1), Some(1), Some(1)]).unwrap();
    let e = o.modified(&vec![Some(2), Some(2), None]).unwrap_err();
    assert_eq!(e.index, 2);
    assert_eq!(e.path, b"c.glsl".to_vec());
    // nothing advanced: the earlier changes are still reported next time
    let r = o.modified(&vec![Some(2), Some(2), Some(1)]).unwrap();
    assert_eq!(r, vec![0, 1]);
}

#[test]
fn rewound_time_detects_same_edit() {
    let mut o = FileObserver::new(three_paths(), &vec![Some(1), Some(1), Some(1)]).unwrap();
    assert_eq!(o.modified(&vec![Some(4), Some(1), Some(1)]).unwrap(), vec![0]);
    o.set_time(0, 1);
    assert_eq!(o.modified(&vec![Some(4), Some(1), Some(1)]).unwrap(), vec![0]);
}
