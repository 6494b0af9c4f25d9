use thread_tracker::cache::{
    from_record, select_snapshot, snapshot_dir_name, to_record, CacheError,
};
use thread_tracker::cli::{CachedArgs, CheckArgs};
use thread_tracker::parsing::{Status, ThreadSlug};
use thread_tracker::report::group_results;
use thread_tracker::throttle::{check_allowed, day_passed_since_last_check, get_check_timestamp};

fn outcome(id: &str, title: &str, status: Status) -> ThreadSlug {
    ThreadSlug { id: id.to_string(), title: title.to_string(), status, error: None }
}

fn batch() -> Vec<ThreadSlug> {
    vec![
        outcome("1", "Done", Status::Completed),
        outcome("2", "Gone", Status::Abandoned),
        ThreadSlug::error("3", "Network error: boom"),
        outcome("4", "Ongoing", Status::InDevelopment),
    ]
}

#[test]
fn grouped_report_of_four() {
    let b = batch();
    let r = group_results(&b);
    assert_eq!((r.in_development, r.total), (1, 4));
    assert_eq!(r.sections.len(), 2);
    assert_eq!(r.sections[0].status, Status::Completed);
    assert_eq!(r.sections[0].members, vec![0]);
    assert_eq!(r.sections[1].status, Status::Abandoned);
    assert_eq!(r.sections[1].members, vec![1]);
    assert!(r.sections.iter().all(|s| s.status != Status::OnHold));
    assert_eq!(r.errors, vec![2]);
    assert_eq!(Status::OnHold.heading(), "On hold");
}

#[test]
fn report_twice_is_the_same() {
    let b = batch();
    let r1 = group_results(&b);
    let r2 = group_results(&b);
    assert_eq!((r1.in_development, r1.total), (r2.in_development, r2.total));
    assert_eq!(r1.errors, r2.errors);
    assert_eq!(r1.sections.len(), r2.sections.len());
    for (a, c) in r1.sections.iter().zip(r2.sections.iter()) {
        assert_eq!(a.status, c.status);
        assert_eq!(a.members, c.members);
    }
    assert_eq!(b.len(), 4);
    assert_eq!(b[2].error.as_deref(), Some("Network error: boom"));
}

#[test]
fn empty_batch_report() {
    let r = group_results(&Vec::new());
    assert_eq!((r.in_development, r.total), (0, 0));
    assert!(r.sections.is_empty() && r.errors.is_empty());
}

#[test]
fn offsets_select_newest_first() {
    let created: Vec<u128> = vec![100, 200, 300];
    assert_eq!(select_snapshot(Some(0), &created), Ok(2));
    assert_eq!(select_snapshot(None, &created), Ok(2));
    assert_eq!(select_snapshot(Some(1), &created), Ok(1));
    assert_eq!(select_snapshot(Some(2), &created), Ok(0));
    assert_eq!(select_snapshot(Some(3), &created), Err(CacheError::OutOfRange));
    assert_eq!(select_snapshot(Some(-1), &created), Err(CacheError::NegativeOffset));
    assert_eq!(select_snapshot(Some(0), &Vec::new()), Err(CacheError::NoSnapshots));
    assert_eq!(select_snapshot(Some(-1), &Vec::new()), Err(CacheError::NegativeOffset));
}

#[test]
fn unsorted_and_equal_times() {
    let created: Vec<u128> = vec![300, 100, 300, 200];
    assert_eq!(select_snapshot(Some(0), &created), Ok(2));
    assert_eq!(select_snapshot(Some(1), &created), Ok(0));
    assert_eq!(select_snapshot(Some(2), &created), Ok(3));
    assert_eq!(select_snapshot(Some(3), &created), Ok(1));
    let args = CachedArgs { offset: Some(4) };
    assert_eq!(select_snapshot(args.offset, &created), Err(CacheError::OutOfRange));
}

#[test]
fn snapshot_names() {
    assert_eq!(snapshot_dir_name(0).as_deref(), Some("1970-01-01 00-00-00"));
    assert_eq!(snapshot_dir_name(1431648000).as_deref(), Some("2015-05-15 00-00-00"));
    assert_eq!(snapshot_dir_name(1700000000).as_deref(), Some("2023-11-14 22-13-20"));
}

#[test]
fn records_round_trip() {
    for t in batch() {
        let rec = to_record(&t);
        let back = from_record(&rec).unwrap();
        assert_eq!(back.id, t.id);
        assert_eq!(back.title, t.title);
        assert_eq!(back.status, t.status);
        assert_eq!(back.error, t.error);
    }
    assert_eq!(Status::Completed.tag(), "Completed");
    assert_eq!(Status::from_tag("OnHold"), Some(Status::OnHold));
    assert_eq!(Status::from_tag("onhold"), None);
}

#[test]
fn throttle_decisions() {
    assert_eq!(get_check_timestamp(None), 0);
    assert_eq!(get_check_timestamp(Some("1700000000")), 1700000000);
    assert_eq!(get_check_timestamp(Some("+5")), 5);
    assert_eq!(get_check_timestamp(Some("-7")), -7);
    assert_eq!(get_check_timestamp(Some("12 ")), 0);
    assert_eq!(get_check_timestamp(Some("abc")), 0);
    assert_eq!(get_check_timestamp(Some("99999999999999999999")), 0);
    assert!(day_passed_since_last_check(86401, 0));
    assert!(!day_passed_since_last_check(86400, 0));
    assert!(day_passed_since_last_check(i64::MAX, i64::MIN));
    assert!(check_allowed(true, 10, 5));
    assert!(!check_allowed(false, 10, 5));
}

#[test]
fn auth_cookies_follow_tokens() {
    let args = CheckArgs {
        file: "links.txt".to_string(),
        force: false,
        xf_user: Some("u".to_string()),
        xf_tfa_trust: Some("t".to_string()),
    };
    assert_eq!(
        args.auth_cookies(),
        vec![("xf_user".to_string(), "u".to_string()), ("xf_tfa_trust".to_string(), "t".to_string())]
    );
    let none = CheckArgs { file: String::new(), force: true, xf_user: None, xf_tfa_trust: None };
    assert!(none.auth_cookies().is_empty());
}
