use n5011_bot::database::{
    announcement, refresh_addr, reset_num_short_announcements, save_new_user, shorten,
    update_user_addr, update_user_descr, update_user_time, user_descr, Outcome, Reason, User,
};
use n5011_bot::nodelist::Node;

fn user(addr: Option<&str>, descr: Option<&str>, last_seen: i32, count: i32) -> User {
    User {
        descr: descr.map(String::from),
        addr: addr.map(String::from),
        last_seen,
        num_short_announcements: count,
    }
}

#[test]
fn unknown_user_is_stored_and_not_announced() {
    let d = announcement(None, 100, 30);
    assert_eq!(d.outcome, Outcome::Suppressed(Reason::UnknownUserJustRegistered));
    assert_eq!(d.user, user(None, None, 100, 0));
    assert!(d.store);
    assert!(!d.refresh);
}

#[test]
fn known_user_is_announced_after_the_interval() {
    let before = user(Some("2:5011/102"), Some("greetings"), 100, 0);
    let d = announcement(Some(before), 200, 30);
    assert_eq!(d.outcome, Outcome::Announce(String::from("2:5011/102 greetings")));
    assert_eq!(d.user.last_seen, 200);
    assert_eq!(d.user.num_short_announcements, 1);
    assert_eq!(d.user.addr.as_deref(), Some("2:5011/102"));
    assert!(d.store);
    assert!(d.refresh);
}

#[test]
fn user_without_text_is_announced_with_a_trailing_space() {
    let d = announcement(Some(user(Some("2:5011/102"), None, 100, 0)), 200, 30);
    assert_eq!(d.outcome, Outcome::Announce(String::from("2:5011/102 ")));
}

#[test]
fn within_the_interval_nothing_changes() {
    let before = user(Some("2:5011/102"), Some("x"), 100, 3);
    for now in [100, 101, 129, 130, 50, -7] {
        let d = announcement(Some(before.clone()), now, 30);
        assert_eq!(d.outcome, Outcome::Suppressed(Reason::TooSoon));
        assert_eq!(d.user, before);
        assert!(!d.store);
        assert!(!d.refresh);
    }
    let d = announcement(Some(before.clone()), 131, 30);
    assert!(matches!(d.outcome, Outcome::Announce(_)));
}

#[test]
fn far_apart_times_do_not_overflow() {
    let before = user(Some("a"), None, i32::MIN, 0);
    let d = announcement(Some(before), i32::MAX, u32::MAX);
    assert_eq!(d.outcome, Outcome::Suppressed(Reason::TooSoon));
    let before = user(Some("a"), None, i32::MIN, 0);
    let d = announcement(Some(before), i32::MAX, u32::MAX - 1);
    assert_eq!(d.outcome, Outcome::Announce(String::from("a ")));
}

#[test]
fn missing_address_line_is_asked_for_and_nothing_is_stored() {
    let before = user(None, Some("x"), 100, 0);
    let d = announcement(Some(before.clone()), 200, 30);
    assert_eq!(d.outcome, Outcome::Suppressed(Reason::NoAddressYet));
    assert_eq!(d.user, before);
    assert!(!d.store);
    assert!(d.refresh);
}

#[test]
fn empty_address_line_gives_the_placeholder() {
    let d = announcement(Some(user(Some(""), Some("x"), 0, 0)), 200, 30);
    assert_eq!(d.outcome, Outcome::Announce(String::from("БОФА x")));
}

#[test]
fn every_twelfth_announcement_is_full() {
    let line = "Alice, 2:5011/102, 103, 2:5020/400";
    let mut current = user(Some(line), Some("d"), 0, 0);
    let mut now = 0;
    for n in 1..=36 {
        now += 100;
        let d = announcement(Some(current), now, 30);
        let expected = if n % 12 == 0 {
            String::from("Alice, 2:5011/102, 103, 2:5020/400 d")
        } else {
            String::from("Alice 2:5011/102 d")
        };
        assert_eq!(d.outcome, Outcome::Announce(expected), "announcement {}", n);
        assert_eq!(d.user.num_short_announcements, n % 12);
        assert_eq!(d.user.last_seen, now);
        current = d.user;
    }
}

#[test]
fn short_form_is_the_first_two_fields() {
    let short = |s: &str| -> String {
        shorten(&s.chars().collect::<Vec<char>>()).into_iter().collect()
    };
    assert_eq!(short("Alice, 2:5011/102, 103"), "Alice 2:5011/102");
    assert_eq!(short("Alice, 2:5011/102"), "Alice 2:5011/102");
    assert_eq!(short("2:5011/102"), "2:5011/102");
    assert_eq!(short(""), "");
    assert_eq!(short(",,,"), "");
    assert_eq!(short("a,"), "a");
    assert_eq!(short(",b,c"), "b");
}

#[test]
fn record_updates_touch_one_field_each() {
    let mut u = save_new_user(7);
    assert_eq!(u, user(None, None, 7, 0));
    update_user_descr(&mut u, "text");
    assert_eq!(u, user(None, Some("text"), 7, 0));
    update_user_addr(&mut u, "Alice, 2:5011/102");
    assert_eq!(u, user(Some("Alice, 2:5011/102"), Some("text"), 7, 0));
    update_user_time(&mut u, 9);
    assert_eq!(u, user(Some("Alice, 2:5011/102"), Some("text"), 9, 1));
    u.num_short_announcements = 11;
    update_user_time(&mut u, 10);
    assert_eq!(u, user(Some("Alice, 2:5011/102"), Some("text"), 10, 0));
    u.num_short_announcements = 5;
    reset_num_short_announcements(&mut u);
    assert_eq!(u, user(Some("Alice, 2:5011/102"), Some("text"), 10, 0));
}

#[test]
fn stored_record_is_shown_with_its_address_line() {
    assert_eq!(user_descr(&None), "");
    assert_eq!(user_descr(&Some(user(None, None, 0, 0))), "");
    assert_eq!(user_descr(&Some(user(None, Some("d"), 0, 0))), "d");
    assert_eq!(user_descr(&Some(user(Some("a"), None, 0, 0))), "a\n");
    assert_eq!(user_descr(&Some(user(Some("a"), Some("d"), 0, 0))), "a\nd");
}

#[test]
fn directory_answer_becomes_the_address_line() {
    let mut u = user(Some("old"), Some("d"), 5, 2);
    refresh_addr(&mut u, None);
    assert_eq!(u, user(Some("old"), Some("d"), 5, 2));
    let list = vec![
        Node {
            addr: String::from("2:5011/102.1"),
            name: String::from("Alice"),
            telegram_name: None,
            telegram_login: Some(String::from("alice")),
            user_id: 42,
        },
        Node {
            addr: String::from("2:5011/102"),
            name: String::from("Alice"),
            telegram_name: None,
            telegram_login: None,
            user_id: 42,
        },
    ];
    refresh_addr(&mut u, Some(list));
    assert_eq!(u, user(Some("Alice, 2:5011/102"), Some("d"), 5, 2));
    refresh_addr(&mut u, Some(Vec::new()));
    assert_eq!(u, user(Some("empty directory list"), Some("d"), 5, 2));
}
