use noted_core::applecal::{
    access_state, hhmm, local_span, meeting_link, participant_email, range_days, summarize_attendees,
    to_cal_event, Access, AppleCalCfg, AuthorizationStatus, LocalMoment, Participant,
    ParticipantStatus, RangeEvent, ACCOUNT,
};

/// The local moment of a UTC instant (tests run in the default zone, UTC).
fn utc_moment(unix: i64) -> LocalMoment {
    LocalMoment {
        day: unix.div_euclid(86_400),
        minute: unix.rem_euclid(86_400) / 60,
    }
}

fn utc(y: i32, m: u32, d: u32, h: u32, min: u32) -> i64 {
    chrono::NaiveDate::from_ymd_opt(y, m, d)
        .unwrap()
        .and_hms_opt(h, min, 0)
        .unwrap()
        .and_utc()
        .timestamp()
}

#[test]
fn a_timed_event_becomes_a_day_plus_minute_offsets() {
    let start = utc(2026, 6, 2, 9, 30);
    let span = local_span(utc_moment(start), utc_moment(start + 3600), false);
    assert!(!span.all_day);
    assert!(span.start_min.is_some());
    assert_eq!(span.end_min.unwrap() - span.start_min.unwrap(), 60);
}

#[test]
fn a_zero_length_event_still_gets_a_clickable_block() {
    let start = utc(2026, 6, 2, 9, 0);
    let span = local_span(utc_moment(start), utc_moment(start), false);
    assert_eq!(span.end_min.unwrap() - span.start_min.unwrap(), 15);
}

#[test]
fn a_single_all_day_event_reports_no_end_date() {
    let start = utc(2026, 6, 2, 0, 0);
    let span = local_span(utc_moment(start), utc_moment(start + 86_400), true);
    assert!(span.all_day);
    assert_eq!(span.end_day, None);
    assert_eq!(span.start_min, None);
}

#[test]
fn a_multi_day_all_day_event_ends_on_its_last_covered_day() {
    let start = utc(2026, 6, 2, 0, 0);
    let span = local_span(utc_moment(start), utc_moment(start + 3 * 86_400), true);
    assert_eq!(span.end_day, Some(utc_moment(start).day + 2));
}

#[test]
fn a_timed_event_past_midnight_counts_from_its_first_day() {
    let start = utc(2026, 6, 2, 23, 0);
    let span = local_span(utc_moment(start), utc_moment(start + 2 * 3600), false);
    assert_eq!(span.start_min, Some(23 * 60));
    assert_eq!(span.end_min, Some(25 * 60));
}

fn range_event(all_day: bool, start_min: Option<i64>, end_min: Option<i64>, title: &str) -> RangeEvent {
    RangeEvent {
        id: "x".to_owned(),
        title: title.to_owned(),
        all_day,
        start_min,
        end_min,
        calendar: "Work".to_owned(),
        calendar_id: "c".to_owned(),
        color: "#fff".to_owned(),
        account: ACCOUNT.to_owned(),
        meet_link: None,
    }
}

#[test]
fn an_all_day_event_carries_no_clock_times() {
    let cal = to_cal_event(range_event(true, None, None, "Offsite"));
    assert!(cal.all_day);
    assert_eq!(cal.start, None);
    assert_eq!(cal.task, "Offsite");
}

#[test]
fn a_timed_event_becomes_wall_clock_strings() {
    let cal = to_cal_event(range_event(false, Some(545), Some(560), "Standup"));
    assert_eq!(cal.start.as_deref(), Some("09:05"));
    assert_eq!(cal.end.as_deref(), Some("09:20"));
    assert_eq!(cal.html_link, None);
}

#[test]
fn wall_clock_wraps_past_midnight_instead_of_reading_25_30() {
    assert_eq!(hhmm(0), "00:00");
    assert_eq!(hhmm(9 * 60 + 5), "09:05");
    // 01:30 the next morning, not "25:30".
    assert_eq!(hhmm(25 * 60 + 30), "01:30");
}

#[test]
fn call_links_are_found_in_url_location_or_notes() {
    assert_eq!(
        meeting_link(Some("https://zoom.us/j/123"), None, None).as_deref(),
        Some("https://zoom.us/j/123")
    );
    assert_eq!(
        meeting_link(None, Some("Room 4 https://meet.google.com/abc-defg-hij"), None).as_deref(),
        Some("https://meet.google.com/abc-defg-hij")
    );
    // A non-call URL must not be offered as a join link.
    assert_eq!(meeting_link(Some("https://example.com/agenda"), None, None), None);
    assert_eq!(meeting_link(None, None, None), None);
}

#[test]
fn wall_clock_of_negative_offsets_and_whole_days() {
    assert_eq!(hhmm(-30), "23:30");
    assert_eq!(hhmm(1440), "00:00");
    assert_eq!(hhmm(2 * 1440 + 61), "01:01");
    assert_eq!(hhmm(i64::MIN), hhmm(i64::MIN + 1440));
}

#[test]
fn call_links_are_trimmed_of_wrapping_punctuation_and_found_in_notes() {
    assert_eq!(
        meeting_link(
            Some("https://example.com"),
            Some("Board room"),
            Some("Join: <https://Teams.Microsoft.com/l/meetup>, thanks")
        )
        .as_deref(),
        Some("https://Teams.Microsoft.com/l/meetup")
    );
    // A host mention without an http link is not a join link.
    assert_eq!(meeting_link(None, Some("zoom.us room"), None), None);
    // The location wins over the notes.
    assert_eq!(
        meeting_link(
            None,
            Some("(https://whereby.com/a)"),
            Some("https://webex.com/b")
        )
        .as_deref(),
        Some("https://whereby.com/a")
    );
}

#[test]
fn access_states_map_from_the_system_authorization() {
    assert_eq!(access_state(None), Access::Unsupported);
    assert_eq!(access_state(Some(AuthorizationStatus::FullAccess)), Access::Granted);
    assert_eq!(access_state(Some(AuthorizationStatus::WriteOnly)), Access::WriteOnly);
    assert_eq!(access_state(Some(AuthorizationStatus::NotDetermined)), Access::NotDetermined);
    assert!(Access::Granted.can_read());
    assert!(!Access::WriteOnly.can_read());
    assert_eq!(Access::WriteOnly.as_str(), "write_only");
    assert_eq!(Access::NotDetermined.as_str(), "not_determined");
    assert_eq!(ACCOUNT, "Apple Calendar");
}

#[test]
fn hiding_and_showing_a_calendar_is_idempotent() {
    let mut cfg = AppleCalCfg::default();
    assert!(cfg.is_enabled("work"));
    cfg.set_calendar_enabled("work", false);
    cfg.set_calendar_enabled("work", false);
    assert_eq!(cfg.hidden_calendars, vec!["work".to_owned()]);
    assert!(!cfg.is_enabled("work"));
    cfg.set_calendar_enabled("home", false);
    cfg.set_calendar_enabled("work", true);
    assert_eq!(cfg.hidden_calendars, vec!["home".to_owned()]);
    assert!(cfg.is_enabled("work"));
}

#[test]
fn participant_addresses_drop_mailto_and_lowercase() {
    assert_eq!(participant_email("mailto:Ada@Example.COM"), "ada@example.com");
    assert_eq!(participant_email("Bob@Example.com"), "bob@example.com");
}

#[test]
fn attendee_lists_are_capped_and_remember_a_declining_self() {
    let mut people = Vec::new();
    for i in 0..14 {
        people.push(Participant {
            url: Some(format!("mailto:P{i}@x.com")),
            name: if i == 0 { Some("First".to_owned()) } else { None },
            status: if i == 3 { ParticipantStatus::Declined } else { ParticipantStatus::Accepted },
            is_current_user: i == 3,
        });
    }
    people.push(Participant { url: None, name: Some("Room".to_owned()), status: ParticipantStatus::Other, is_current_user: false });
    let summary = summarize_attendees(&people);
    assert_eq!(summary.attendees.len(), 12);
    assert_eq!(summary.emails.len(), 14);
    assert!(summary.declined_self);
    assert_eq!(summary.attendees[0].name, "First");
    assert_eq!(summary.attendees[1].name, "p1@x.com");
    assert_eq!(ParticipantStatus::Other.as_str(), "needsAction");
}

#[test]
fn the_range_covers_the_whole_final_day() {
    let (from, to) = range_days("2026-06-02", "2026-06-04").unwrap();
    // Three inclusive days = 72h, so 23:30 on the last day is still inside.
    assert_eq!((to - from + 1) as i64 * 86_400, 3 * 86_400);
}

#[test]
fn a_backwards_range_is_rejected_rather_than_silently_empty() {
    assert!(range_days("2026-06-04", "2026-06-02").is_err());
    assert!(range_days("not-a-date", "2026-06-02").is_err());
    assert_eq!(
        range_days("2026-06-04", "2026-06-02").unwrap_err(),
        "end date 2026-06-02 precedes start 2026-06-04"
    );
    assert!(range_days("not-a-date", "2026-06-02")
        .unwrap_err()
        .starts_with("bad start date not-a-date: "));
}
