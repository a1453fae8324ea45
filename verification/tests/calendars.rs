use mindwtr_store::calendars::{sanitize_calendar, sanitize_calendars, ExternalCalendarSubscription};

fn sub(id: &str, name: &str, url: &str, enabled: bool) -> ExternalCalendarSubscription {
    ExternalCalendarSubscription { id: id.to_string(), name: name.to_string(), url: url.to_string(), enabled }
}

#[test]
fn blank_url_drops_the_subscription() {
    assert_eq!(sanitize_calendar(&sub("1", "Work", "", true)), None);
    assert_eq!(sanitize_calendar(&sub("1", "Work", " \t\n", true)), None);
}

#[test]
fn blank_name_becomes_calendar() {
    assert_eq!(sanitize_calendar(&sub("1", "", "https://x/a.ics", false)), Some(sub("1", "Calendar", "https://x/a.ics", false)));
    assert_eq!(sanitize_calendar(&sub("2", "   ", "https://x/a.ics", true)), Some(sub("2", "Calendar", "https://x/a.ics", true)));
}

#[test]
fn name_and_url_are_trimmed() {
    assert_eq!(
        sanitize_calendar(&sub(" id ", "  Team  cal \n", "\thttps://x/a b.ics  ", true)),
        Some(sub(" id ", "Team  cal", "https://x/a b.ics", true))
    );
}

#[test]
fn list_keeps_order_and_drops_blank_urls() {
    let list = vec![
        sub("a", " A ", " https://a ", true),
        sub("b", "B", "  ", true),
        sub("c", "", "https://c", false),
        sub("d", "D", "", false),
        sub("e", "E", "https://e", true),
    ];
    let cleaned = sanitize_calendars(&list);
    assert_eq!(
        cleaned,
        vec![sub("a", "A", "https://a", true), sub("c", "Calendar", "https://c", false), sub("e", "E", "https://e", true)]
    );
    assert_eq!(sanitize_calendars(&cleaned), cleaned);
    assert_eq!(sanitize_calendars(&Vec::new()), Vec::new());
    assert_eq!(cleaned[0].clone(), cleaned[0]);
}
