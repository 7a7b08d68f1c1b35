use n5011_bot::database::{update_user_descr, User};
use n5011_bot::settings::{init_interval, interval as read_interval, set_admins, Settings};
use n5011_bot::states::{
    interval, origin, parse_interval, react, select_command, start, Command, CommandState,
    Dialogue, Effect, IntervalState, OriginState, Reply, StartState, Transition,
};

const ADMIN: i64 = 1;
const GUEST: i64 = 42;

fn settings(unit: u32, seconds: i32) -> Settings {
    let mut s = Settings::new(unit);
    set_admins(&mut s, ADMIN, 2).unwrap();
    init_interval(&mut s, seconds).unwrap();
    s
}

fn stored(addr: Option<&str>, descr: Option<&str>) -> Option<User> {
    Some(User {
        descr: descr.map(String::from),
        addr: addr.map(String::from),
        last_seen: 0,
        num_short_announcements: 0,
    })
}

fn at_start() -> Dialogue {
    Dialogue::Start(StartState { restarted: false })
}

#[test]
fn unknown_conversation_begins_with_the_restart_notice() {
    assert_eq!(Dialogue::default(), Dialogue::Start(StartState { restarted: true }));
    let s = settings(3600, 30);
    let t = start(StartState { restarted: true }, GUEST, &s);
    assert_eq!(t.reply, Reply::Menu { restarted: true, is_admin: false });
    assert_eq!(t.next, Dialogue::Command(CommandState { user_id: GUEST, is_admin: false }));
    assert_eq!(t.effect, Effect::Nothing);
}

#[test]
fn menu_is_made_for_the_users_rights() {
    let mut s = settings(3600, 30);
    let t = react(at_start(), "hello", ADMIN, &None, &mut s);
    assert_eq!(t.reply, Reply::Menu { restarted: false, is_admin: true });
    assert_eq!(t.next, Dialogue::Command(CommandState { user_id: ADMIN, is_admin: true }));
    let t = react(at_start(), "hello", GUEST, &None, &mut s);
    assert_eq!(t.reply, Reply::Menu { restarted: false, is_admin: false });
}

#[test]
fn labels_name_their_commands() {
    assert_eq!(Command::try_from("change directory"), Some(Command::Origin));
    assert_eq!(Command::try_from("list"), Some(Command::List));
    assert_eq!(Command::try_from("set interval"), Some(Command::Interval));
    assert_eq!(Command::try_from("Set interval"), None);
    assert_eq!(Command::try_from(""), None);
    for c in [Command::Origin, Command::List, Command::Interval] {
        assert_eq!(Command::try_from(&c.text()), Some(c));
    }
}

#[test]
fn unknown_text_keeps_the_menu() {
    let mut s = settings(3600, 30);
    let state = CommandState { user_id: GUEST, is_admin: false };
    let t = select_command(state, "what", &None, &mut s);
    assert_eq!(
        t,
        Transition {
            next: Dialogue::Command(state),
            reply: Reply::UnknownCommand(String::from("what")),
            effect: Effect::Nothing,
        }
    );
    let t = select_command(state, "list", &None, &mut s);
    assert_eq!(t.reply, Reply::Nothing);
    assert_eq!(t.next, Dialogue::Command(state));
}

#[test]
fn text_is_stored_and_shown_again() {
    let mut s = settings(3600, 30);
    let state = CommandState { user_id: GUEST, is_admin: false };
    let mut user = stored(Some("Alice, 2:5011/102"), Some("old"));

    let t = select_command(state, "change directory", &user, &mut s);
    assert_eq!(t.reply, Reply::OriginPrompt(String::from("Alice, 2:5011/102\nold")));
    assert_eq!(t.next, Dialogue::Origin(OriginState { state }));

    let t = react(t.next, "new text / with a slash", GUEST, &user, &mut s);
    assert_eq!(t.reply, Reply::OriginSaved(String::from("new text / with a slash")));
    assert_eq!(t.next, at_start());
    match t.effect {
        Effect::SaveDescr { user_id, descr } => {
            assert_eq!(user_id, GUEST);
            update_user_descr(user.as_mut().unwrap(), &descr);
        }
        other => panic!("no text to store: {:?}", other),
    }

    let t = select_command(state, "change directory", &user, &mut s);
    assert_eq!(
        t.reply,
        Reply::OriginPrompt(String::from("Alice, 2:5011/102\nnew text / with a slash"))
    );
}

#[test]
fn cancel_leaves_the_text() {
    let state = OriginState { state: CommandState { user_id: GUEST, is_admin: false } };
    let t = origin(state, "/");
    assert_eq!(
        t,
        Transition { next: at_start(), reply: Reply::OriginUnchanged, effect: Effect::Nothing }
    );
    let t = origin(state, "");
    assert_eq!(t.reply, Reply::OriginSaved(String::new()));
}

#[test]
fn admin_sets_the_interval_in_seconds() {
    let mut s = settings(1, 30);
    let t = react(at_start(), "hi", ADMIN, &None, &mut s);
    let t = react(t.next, "set interval", ADMIN, &None, &mut s);
    assert_eq!(t.reply, Reply::IntervalPrompt(30));
    let t = react(t.next, "7200", ADMIN, &None, &mut s);
    assert_eq!(t.reply, Reply::IntervalSaved(String::from("7200")));
    assert_eq!(t.effect, Effect::SaveInterval(7200));
    assert_eq!(t.next, at_start());
    assert_eq!(read_interval(&mut s), 7200);
}

#[test]
fn admin_sets_the_interval_in_hours() {
    let mut s = settings(3600, 10800);
    let state = CommandState { user_id: ADMIN, is_admin: true };
    let t = select_command(state, "set interval", &None, &mut s);
    assert_eq!(t.reply, Reply::IntervalPrompt(3));
    let t = react(t.next, "2", ADMIN, &None, &mut s);
    assert_eq!(t.reply, Reply::IntervalSaved(String::from("2")));
    assert_eq!(t.effect, Effect::SaveInterval(7200));
    assert_eq!(read_interval(&mut s), 7200);
}

#[test]
fn guest_cannot_set_the_interval() {
    let mut s = settings(1, 30);
    let t = react(at_start(), "hi", GUEST, &None, &mut s);
    let menu = t.next;
    let t = react(menu, "set interval", GUEST, &None, &mut s);
    assert_eq!(t.reply, Reply::Nothing);
    assert_eq!(t.next, menu);
    let t = react(t.next, "7200", GUEST, &None, &mut s);
    assert_eq!(t.reply, Reply::UnknownCommand(String::from("7200")));
    assert_eq!(read_interval(&mut s), 30);

    let state = IntervalState { state: CommandState { user_id: GUEST, is_admin: false } };
    let t = interval(state, "7200", &mut s);
    assert_eq!(
        t,
        Transition { next: at_start(), reply: Reply::InsufficientRights, effect: Effect::Nothing }
    );
    assert_eq!(read_interval(&mut s), 30);
}

#[test]
fn cancel_and_bad_input_leave_the_interval() {
    let state = IntervalState { state: CommandState { user_id: ADMIN, is_admin: true } };
    let mut s = settings(3600, 30);
    let t = interval(state, "/", &mut s);
    assert_eq!(t.reply, Reply::IntervalUnchanged);
    assert_eq!(t.next, at_start());
    for bad in ["", "+", "-1", "1.5", " 1", "1 ", "one", "596524", "99999999999999999999"] {
        let t = interval(state, bad, &mut s);
        assert_eq!(t.reply, Reply::IntervalInvalid(String::from(bad)));
        assert_eq!(t.effect, Effect::Nothing);
        assert_eq!(t.next, at_start());
        assert_eq!(read_interval(&mut s), 30);
    }
}

#[test]
fn interval_that_was_never_read_cannot_be_set() {
    let state = IntervalState { state: CommandState { user_id: ADMIN, is_admin: true } };
    let mut s = Settings::new(3600);
    let t = interval(state, "1", &mut s);
    assert_eq!(t.reply, Reply::IntervalNotSaved);
    assert_eq!(t.effect, Effect::Nothing);
    assert_eq!(s.interval, None);
}

#[test]
fn input_counts_units() {
    let s = settings(3600, 30);
    assert_eq!(parse_interval("0", &s), Some(0));
    assert_eq!(parse_interval("1", &s), Some(3600));
    assert_eq!(parse_interval("+24", &s), Some(86400));
    assert_eq!(parse_interval("007", &s), Some(25200));
    assert_eq!(parse_interval("596523", &s), Some(2147482800));
    assert_eq!(parse_interval("596524", &s), None);
    let s = settings(1, 30);
    assert_eq!(parse_interval("2147483647", &s), Some(i32::MAX));
    assert_eq!(parse_interval("2147483648", &s), None);
}
