use chrono::NaiveDate;
use schedule_manager::schedule::Schedule;
use schedule_manager::time::Timestamp;

fn on_new_year(hour: u32, minute: u32) -> Timestamp {
    let moment = NaiveDate::from_ymd_opt(2024, 1, 1)
        .unwrap()
        .and_hms_opt(hour, minute, 0)
        .unwrap()
        .and_utc();
    Timestamp::new(moment.timestamp(), moment.timestamp_subsec_nanos()).unwrap()
}

fn existing(h0: u32, m0: u32, h1: u32, m1: u32) -> Schedule {
    Schedule {
        id: 0,
        subject: "既存予定".to_string(),
        start: on_new_year(h0, m0),
        end: on_new_year(h1, m1),
    }
}

fn seven_to_eight() -> Schedule {
    Schedule {
        id: 1,
        subject: "新規予定".to_string(),
        start: on_new_year(19, 0),
        end: on_new_year(20, 0),
    }
}

#[test]
fn test_schedule_intersects_overlaps_the_start() {
    assert_eq!(existing(18, 15, 19, 15).intersects(&seven_to_eight()), true);
}

#[test]
fn test_schedule_intersects_overlaps_the_end() {
    assert_eq!(existing(19, 45, 20, 45).intersects(&seven_to_eight()), true);
}

#[test]
fn test_schedule_intersects_contains() {
    assert_eq!(existing(18, 30, 20, 15).intersects(&seven_to_eight()), true);
}

#[test]
fn test_schedule_intersects_after() {
    assert_eq!(existing(20, 15, 20, 45).intersects(&seven_to_eight()), false);
}

#[test]
fn test_schedule_intersects_before() {
    assert_eq!(existing(18, 15, 18, 45).intersects(&seven_to_eight()), false);
}

#[test]
fn test_schedule_intersects_inside() {
    assert_eq!(existing(19, 15, 19, 45).intersects(&seven_to_eight()), true);
}

#[test]
fn test_schedule_intersects_same_interval() {
    assert_eq!(existing(19, 0, 20, 0).intersects(&seven_to_eight()), true);
}

#[test]
fn intersects_is_false_when_one_ends_where_the_other_starts() {
    let a = existing(18, 0, 19, 0);
    let b = seven_to_eight();
    assert_eq!(a.intersects(&b), false);
    assert_eq!(b.intersects(&a), false);
    let c = existing(20, 0, 21, 0);
    assert_eq!(b.intersects(&c), false);
    assert_eq!(c.intersects(&b), false);
}

#[test]
fn intersects_is_symmetric() {
    let fixed = seven_to_eight();
    let others = [
        existing(18, 15, 19, 15),
        existing(19, 45, 20, 45),
        existing(18, 30, 20, 15),
        existing(20, 15, 20, 45),
        existing(18, 15, 18, 45),
        existing(19, 15, 19, 45),
        existing(19, 0, 20, 0),
        existing(18, 0, 19, 0),
        existing(20, 0, 21, 0),
        existing(20, 0, 19, 0),
        existing(19, 30, 19, 30),
    ];
    for a in others.iter() {
        assert_eq!(a.intersects(&fixed), fixed.intersects(a));
        for b in others.iter() {
            assert_eq!(a.intersects(b), b.intersects(a));
        }
    }
}

#[test]
fn intersects_ignores_id_and_subject() {
    let a = Schedule::new(9, String::new(), on_new_year(18, 15), on_new_year(19, 15));
    assert_eq!(a.intersects(&seven_to_eight()), true);
    assert_eq!(a.intersects(&a), true);
}

#[test]
fn intersects_with_an_end_before_the_start() {
    let backward = existing(20, 0, 19, 0);
    assert_eq!(backward.intersects(&seven_to_eight()), false);
    assert_eq!(backward.intersects(&backward), false);
    let wide = existing(18, 0, 21, 0);
    assert_eq!(backward.intersects(&wide), true);
    assert_eq!(wide.intersects(&backward), true);
    assert_eq!(existing(19, 45, 19, 15).intersects(&seven_to_eight()), true);
}

#[test]
fn intersects_looks_at_the_nanoseconds() {
    let second = on_new_year(19, 0).secs();
    let a = Schedule::new(
        0,
        "a".to_string(),
        on_new_year(18, 0),
        Timestamp::new(second, 1).unwrap(),
    );
    let b = Schedule::new(
        1,
        "b".to_string(),
        Timestamp::new(second, 0).unwrap(),
        on_new_year(20, 0),
    );
    let c = Schedule::new(
        2,
        "c".to_string(),
        Timestamp::new(second, 1).unwrap(),
        on_new_year(20, 0),
    );
    assert_eq!(a.intersects(&b), true);
    assert_eq!(a.intersects(&c), false);
}

#[test]
fn new_keeps_the_fields() {
    let made = Schedule::new(3, "件名".to_string(), on_new_year(19, 0), on_new_year(20, 0));
    assert_eq!(made.id, 3);
    assert_eq!(made.subject, "件名");
    assert_eq!(made.start, on_new_year(19, 0));
    assert_eq!(made.end, on_new_year(20, 0));
}

#[test]
fn duplicate_is_equal() {
    let made = Schedule::new(3, "件名".to_string(), on_new_year(19, 0), on_new_year(20, 0));
    assert_eq!(made.duplicate(), made);
}
