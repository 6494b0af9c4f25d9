use thread_tracker::parsing::{logged_in, parse_thread, FetchError, Status};
use thread_tracker::title::normalize_title;

fn page(header: &str) -> String {
    format!("<!DOCTYPE html><html><head><title>t</title></head><body><div>{header}</div></body></html>")
}

#[test]
fn labeled_prefix_and_trailing_groups_are_removed() {
    let body = page(
        "<div class=\"p-title \"><h1 class=\"p-title-value\"><a href=\"/x\" class=\"labelLink\">\
         <span>[Tag]</span></a> Title Words [v1.0] [Demo]</h1></div>",
    );
    let t = parse_thread("77", Ok(Some(body)));
    assert_eq!(t.id, "77");
    assert_eq!(t.title, "Title Words");
    assert_eq!(t.status, Status::InDevelopment);
    assert!(t.error.is_none());
}

#[test]
fn mid_string_aside_is_kept() {
    let body = page("<div class=\"p-title\"><h1 class=\"p-title-value\">Part [One] Two</h1></div>");
    let t = parse_thread("1", Ok(Some(body)));
    assert_eq!(t.title, "Part [One] Two");
    assert_eq!(normalize_title("Part [One] Two"), "Part [One] Two");
}

#[test]
fn normalizer_strips_only_trailing_groups() {
    assert_eq!(normalize_title(" Title Words [v1.0] [Demo]"), "Title Words");
    assert_eq!(normalize_title("A [b] c [d]  "), "A [b] c");
    assert_eq!(normalize_title("[Demo]"), "");
    assert_eq!(normalize_title("  Plain  "), "Plain");
}

#[test]
fn appended_labels_are_skipped() {
    let body = page(
        "<div class=\"p-title\"><h1 class=\"p-title-value\">Name <span class=\"label-append\">\
         <span>Extra</span></span><em>Bold</em> [Final]</h1></div>",
    );
    let t = parse_thread("5", Ok(Some(body)));
    assert_eq!(t.title, "Name Bold");
}

#[test]
fn first_matching_label_wins() {
    let body = page(
        "<div class=\"p-title\"><h1 class=\"p-title-value\"><a class=\"labelLink\"><span>17+</span></a>\
         <a class=\"labelLink\"><span>Abandoned</span></a><a class=\"labelLink\"><span>RPGM</span></a>\
         Game</h1></div>",
    );
    let t = parse_thread("2", Ok(Some(body)));
    assert_eq!(t.status, Status::Abandoned);
    assert_eq!(t.title, "Game");

    let body = page(
        "<div class=\"p-title\"><h1 class=\"p-title-value\"><a class=\"labelLink\"><span>Completed</span></a>\
         <a class=\"labelLink\"><span>On Hold</span></a> Game</h1></div>",
    );
    assert_eq!(parse_thread("3", Ok(Some(body))).status, Status::Completed);
}

#[test]
fn no_matching_label_is_in_development() {
    let body = page(
        "<div class=\"p-title\"><h1 class=\"p-title-value\"><a class=\"labelLink\"><span>VN</span></a>\
         Game</h1></div>",
    );
    assert_eq!(parse_thread("4", Ok(Some(body))).status, Status::InDevelopment);
}

#[test]
fn status_rules_ignore_case() {
    assert_eq!(Status::from_str("COMPLETED"), Some(Status::Completed));
    assert_eq!(Status::from_str("[abandoned]"), Some(Status::Abandoned));
    assert_eq!(Status::from_str("On Hold"), Some(Status::OnHold));
    assert_eq!(Status::from_str("onhold"), Some(Status::OnHold));
    assert_eq!(Status::from_str("On-Hold"), Some(Status::OnHold));
    assert_eq!(Status::from_str("Ren'Py"), None);
    assert_eq!(Status::default(), Status::InDevelopment);
}

#[test]
fn missing_header_is_an_error() {
    let t = parse_thread("9", Ok(Some(page("<p class=\"p-title-value\">x</p>"))));
    assert_eq!(t.error.as_deref(), Some("Failed to locate thread header"));
    assert_eq!(t.title, "");
    assert_eq!(t.status, Status::InDevelopment);
}

#[test]
fn missing_title_value_gives_empty_title() {
    let body = page("<div class=\"p-title\"><span>Completed</span></div>");
    let t = parse_thread("8", Ok(Some(body)));
    assert!(t.error.is_none());
    assert_eq!(t.title, "");
    assert_eq!(t.status, Status::Completed);
}

#[test]
fn fetch_failures_are_recorded() {
    let t = parse_thread(
        "10",
        Err(FetchError::BadStatus { code: 404, text: "Not Found".to_string() }),
    );
    assert_eq!(t.error.as_deref(), Some("Bad response code: 404 Not Found"));
    let t = parse_thread("11", Err(FetchError::Network("timed out".to_string())));
    assert_eq!(t.error.as_deref(), Some("Network error: timed out"));
    assert_eq!(t.id, "11");
    let t = parse_thread("12", Ok(None));
    assert_eq!(t.error.as_deref(), Some("Failed to read response body"));
}

#[test]
fn login_probe_outcomes() {
    assert_eq!(logged_in(&Ok(())), Ok(true));
    assert_eq!(
        logged_in(&Err(FetchError::BadStatus { code: 403, text: "Forbidden".to_string() })),
        Ok(false)
    );
    assert_eq!(
        logged_in(&Err(FetchError::Network("dns".to_string()))),
        Err("Network error: dns".to_string())
    );
}

#[test]
fn default_outcome_is_empty() {
    let t = thread_tracker::parsing::ThreadSlug::default();
    assert_eq!((t.id.as_str(), t.title.as_str()), ("", ""));
    assert_eq!(t.status, Status::InDevelopment);
    assert!(t.error.is_none());
    let c = t.clone();
    assert_eq!(format!("{:?}", c.status), "InDevelopment");
}
