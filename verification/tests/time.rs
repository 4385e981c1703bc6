use fablr_core::calendar::epoch_to_civil;
use fablr_core::calendar::unix_to_iso;
use fablr_core::clock::now_iso8601;
use fablr_core::clock::now_unix;
use fablr_core::clock::now_unix_millis;
use fablr_core::clock::unix_millis;
use fablr_core::clock::unix_seconds;
use fablr_core::ids::project_id;
use fablr_core::ids::unique_id;

#[test]
fn known_times() {
    for (secs, text) in [
        (0, "1970-01-01T00:00:00Z"),
        (-1, "1969-12-31T23:59:59Z"),
        (951782400, "2000-02-29T00:00:00Z"),
        (951868799, "2000-02-29T23:59:59Z"),
        (951868800, "2000-03-01T00:00:00Z"),
        (-2203891201, "1900-02-28T23:59:59Z"),
        (-2203891200, "1900-03-01T00:00:00Z"),
        (1700000000, "2023-11-14T22:13:20Z"),
        (1709210096, "2024-02-29T12:34:56Z"),
        (253402300799, "9999-12-31T23:59:59Z"),
        (253402300800, "10000-01-01T00:00:00Z"),
        (-62167219200, "0000-01-01T00:00:00Z"),
        (-62167219201, "-001-12-31T23:59:59Z"),
    ] {
        assert_eq!(unix_to_iso(secs), text);
    }
}

#[test]
fn civil_fields() {
    assert_eq!(epoch_to_civil(1700000000), (2023, 11, 14, 22, 13, 20));
    assert_eq!(epoch_to_civil(-86400 * 719468), (0, 3, 1, 0, 0, 0));
    let (_, month, day, hour, min, sec) = epoch_to_civil(i64::MAX);
    assert!((1..=12).contains(&month) && (1..=31).contains(&day));
    assert_eq!((hour, min, sec), (15, 30, 7));
    epoch_to_civil(i64::MIN);
}

#[test]
fn consecutive_days_are_consecutive_dates() {
    let mut previous = epoch_to_civil(-86400 * 200000);
    let mut day = -199999i64;
    while day < 200000 {
        let (y, m, d, _, _, _) = epoch_to_civil(day * 86400);
        let next_day = (previous.0, previous.1, previous.2 + 1) == (y, m, d);
        let next_month = d == 1 && (previous.0, previous.1 + 1) == (y, m);
        let next_year = (m, d) == (1, 1) && previous.1 == 12 && previous.0 + 1 == y;
        assert!(next_day || next_month || next_year);
        previous = epoch_to_civil(day * 86400);
        day += 1;
    }
}

#[test]
fn texts_sort_by_time() {
    let times = [-62167219200i64, -1, 0, 59, 60, 3599, 3600, 86399, 86400, 951782400, 253402300799];
    for pair in times.windows(2) {
        assert!(unix_to_iso(pair[0]) < unix_to_iso(pair[1]));
    }
}

#[test]
fn the_clock_runs() {
    let seconds = now_unix();
    let millis = now_unix_millis();
    assert!(seconds > 1_600_000_000);
    assert!(millis / 1000 >= seconds as u64);
    assert!(millis / 1000 <= seconds as u64 + 10);
    let text = now_iso8601();
    assert!(unix_to_iso(seconds) <= text && text <= unix_to_iso(seconds + 10));
    assert_eq!(unix_seconds(None), 0);
    assert_eq!(unix_seconds(Some(17)), 17);
    assert_eq!(unix_seconds(Some(u64::MAX)), -1);
    assert_eq!(unix_millis(None), 0);
    assert_eq!(unix_millis(Some(1 << 64)), 0);
}

#[test]
fn project_ids() {
    assert_eq!(project_id(0, 0), "project_0_0");
    assert_eq!(project_id(0x18bcfe56800, 255), "project_18bcfe56800_ff");
    assert_eq!(project_id(u64::MAX, 16), "project_ffffffffffffffff_10");
}

#[test]
fn the_running_number_moves_on() {
    let mut counter = 9u64;
    let a = unique_id(&mut counter);
    let b = unique_id(&mut counter);
    assert!(a.starts_with("project_") && a.ends_with("_9"));
    assert!(b.ends_with("_a"));
    assert_ne!(a, b);
    assert_eq!(counter, 11);
    let mut seen: Vec<String> = Vec::new();
    let mut wrapping = u64::MAX - 50;
    for _ in 0..100 {
        let id = unique_id(&mut wrapping);
        assert!(!seen.contains(&id));
        seen.push(id);
    }
    counter = u64::MAX;
    assert!(unique_id(&mut counter).ends_with("_ffffffffffffffff"));
    assert_eq!(counter, 0);
}
