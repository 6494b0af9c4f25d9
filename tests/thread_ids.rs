use thread_tracker::links::{extract_thread_ids, thread_url};

#[test]
fn slugged_and_bare_links_collapse() {
    let ids = extract_thread_ids("see /threads/cool-game.1234 and also /threads/1234 here");
    assert_eq!(ids, vec!["1234".to_string()]);
}

#[test]
fn ids_are_unique_digit_runs() {
    let text = "https://f95zone.to/threads/a.1/ /THREADS/22 /Threads/x.y.3 /threads/b.22/post-9 \
                /threads/nope /threads/.7 /threads/12.34";
    let ids = extract_thread_ids(text);
    for id in &ids {
        assert!(!id.is_empty());
        assert!(id.chars().all(|c| c.is_ascii_digit()));
    }
    let mut sorted = ids.clone();
    sorted.sort();
    sorted.dedup();
    assert_eq!(sorted.len(), ids.len());
    assert_eq!(ids, vec!["1", "22", "7", "34"]);
}

#[test]
fn no_links_no_ids() {
    assert!(extract_thread_ids("").is_empty());
    assert!(extract_thread_ids("/thread/12 /threads/ threads/5").is_empty());
}

#[test]
fn thread_url_joins_host_and_id() {
    assert_eq!(thread_url("1234"), "https://f95zone.to/threads/1234");
}
