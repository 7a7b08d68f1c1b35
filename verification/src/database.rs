use crate::nodelist::{from_nodelist, home_prefix, nodelist_line, Node};
use crate::text::{
    append_chars, chars_of, field_end, find_field_end, lemma_field_end, string_of,
};
use vstd::prelude::*;

verus! {

broadcast use vstd::string::group_string_axioms;

/// After how many announcements in a row the full address line is due.
pub const FULL_EVERY: i32 = 12;

/// What is stored of one user, under the user's id.
#[derive(Clone, Debug, PartialEq, Eq)]
pub struct User {
    /// The text that the user chose to follow the address line.
    pub descr: Option<String>,
    /// The address line that the directory last gave; none until the first
    /// answer of the directory.
    pub addr: Option<String>,
    /// When the user was last announced, or first seen.
    pub last_seen: i32,
    /// How many announcements in a row gave the short line.
    pub num_short_announcements: i32,
}

/// A user record as plain values.
pub ghost struct UserView {
    pub descr: Option<Seq<char>>,
    pub addr: Option<Seq<char>>,
    pub last_seen: int,
    pub short_count: int,
}

impl View for User {
    type V = UserView;

    open spec fn view(&self) -> UserView {
        UserView {
            descr: match self.descr {
                Some(d) => Some(d@),
                None => None,
            },
            addr: match self.addr {
                Some(a) => Some(a@),
                None => None,
            },
            last_seen: self.last_seen as int,
            short_count: self.num_short_announcements as int,
        }
    }
}

impl User {
    /// The count of short announcements lies below `FULL_EVERY`.
    pub open spec fn wf(&self) -> bool {
        0 <= self.num_short_announcements < FULL_EVERY
    }
}

/// Why nothing is announced.
#[derive(Clone, Copy, PartialEq, Eq, Structural, Debug)]
pub enum Reason {
    /// The user was announced the interval ago or less.
    TooSoon,
    /// The directory has not answered for this user yet.
    NoAddressYet,
    /// The user was not known and has just been stored.
    UnknownUserJustRegistered,
}

/// What the chat is told about a user who wrote.
#[derive(Clone, Debug, PartialEq, Eq)]
pub enum Outcome {
    Suppressed(Reason),
    Announce(String),
}

/// An outcome as plain values.
pub ghost enum OutcomeView {
    Suppressed(Reason),
    Announce(Seq<char>),
}

impl View for Outcome {
    type V = OutcomeView;

    open spec fn view(&self) -> OutcomeView {
        match self {
            Outcome::Suppressed(r) => OutcomeView::Suppressed(*r),
            Outcome::Announce(t) => OutcomeView::Announce(t@),
        }
    }
}

/// What follows from one message of a user: what to tell the chat, the
/// record to keep for the user, whether that record differs from the one
/// given and has to be stored, and whether to ask the directory again.
#[derive(Clone, Debug)]
pub struct Decision {
    pub outcome: Outcome,
    pub user: User,
    pub store: bool,
    pub refresh: bool,
}

/// The plain values of a record that may be absent.
pub open spec fn view_of(user: Option<User>) -> Option<UserView> {
    match user {
        Some(u) => Some(u@),
        None => None,
    }
}

/// The record of a user first seen at `time`.
pub open spec fn new_user(time: int) -> UserView {
    UserView { descr: None, addr: None, last_seen: time, short_count: 0 }
}

/// Whether `now` lies within the interval after the last announcement.
pub open spec fn too_soon(u: UserView, now: int, interval: int) -> bool {
    now - u.last_seen <= interval
}

/// Whether the announcement that follows `count` short ones is a full one.
pub open spec fn full_turn(count: int) -> bool {
    count + 1 >= FULL_EVERY
}

/// The count of short announcements after one more announcement.
pub open spec fn next_short_count(count: int) -> int {
    if full_turn(count) {
        0
    } else {
        count + 1
    }
}

/// The short form of an address line: its first two fields between commas,
/// one after the other, without the comma.
pub open spec fn short_form(s: Seq<char>) -> Seq<char> {
    let e0 = field_end(s, 0, ',', ',');
    if e0 >= s.len() {
        s
    } else {
        s.take(e0) + s.subrange(e0 + 1, field_end(s, e0 + 1, ',', ','))
    }
}

/// What stands in an announcement in place of an empty address line.
pub open spec fn placeholder() -> Seq<char> {
    "БОФА"@
}

/// The text of a record that may be absent, empty where it is.
pub open spec fn text_or_empty(t: Option<Seq<char>>) -> Seq<char> {
    match t {
        Some(s) => s,
        None => Seq::empty(),
    }
}

/// The announcement of a user: the address line, full or short, or the
/// placeholder where that is empty; a space; the user's own text.
pub open spec fn announce_text(line: Seq<char>, descr: Seq<char>, full: bool) -> Seq<char> {
    let shown = if full {
        line
    } else {
        short_form(line)
    };
    let head = if shown.len() == 0 {
        placeholder()
    } else {
        shown
    };
    head + seq![' '] + descr
}

/// Whether a message at `now` triggers an announcement of the user.
pub open spec fn triggers(u: Option<UserView>, now: int, interval: int) -> bool {
    u matches Some(s) && !too_soon(s, now, interval) && s.addr is Some
}

/// What the chat is told when a user with record `u` writes at `now`.
pub open spec fn outcome_of(u: Option<UserView>, now: int, interval: int) -> OutcomeView {
    match u {
        None => OutcomeView::Suppressed(Reason::UnknownUserJustRegistered),
        Some(s) => if too_soon(s, now, interval) {
            OutcomeView::Suppressed(Reason::TooSoon)
        } else if s.addr is None {
            OutcomeView::Suppressed(Reason::NoAddressYet)
        } else {
            OutcomeView::Announce(
                announce_text(
                    text_or_empty(s.addr),
                    text_or_empty(s.descr),
                    full_turn(s.short_count),
                ),
            )
        },
    }
}

/// The record of the user after a message at `now`. Only a triggered
/// announcement changes a record that exists.
pub open spec fn state_after(u: Option<UserView>, now: int, interval: int) -> UserView {
    match u {
        None => new_user(now),
        Some(s) => if triggers(u, now, interval) {
            UserView { last_seen: now, short_count: next_short_count(s.short_count), ..s }
        } else {
            s
        },
    }
}

/// Whether the directory is asked again after a message at `now`: after
/// every announcement, and whenever an announcement was due but the
/// directory had not answered yet.
pub open spec fn refresh_due(u: Option<UserView>, now: int, interval: int) -> bool {
    u matches Some(s) && !too_soon(s, now, interval)
}

/// The record of a user first seen at `time`.
pub fn save_new_user(time: i32) -> (user: User)
    ensures
        user@ == new_user(time as int),
        user.wf(),
{
    User { descr: None, addr: None, last_seen: time, num_short_announcements: 0 }
}

/// Starts the count of short announcements anew.
pub fn reset_num_short_announcements(user: &mut User)
    ensures
        final(user)@ == (UserView { short_count: 0, ..old(user)@ }),
        final(user).wf(),
{
    user.num_short_announcements = 0;
}

/// Records an announcement at `time`: the user was last seen then, and the
/// count of short announcements goes up by one, or back to zero where the
/// announcement was a full one.
pub fn update_user_time(user: &mut User, time: i32)
    ensures
        final(user)@ == (UserView {
            last_seen: time as int,
            short_count: next_short_count(old(user)@.short_count),
            ..old(user)@
        }),
        old(user).wf() ==> final(user).wf(),
{
    user.last_seen = time;
    if user.num_short_announcements >= FULL_EVERY - 1 {
        reset_num_short_announcements(user);
    } else {
        user.num_short_announcements = user.num_short_announcements + 1;
    }
}

/// Stores the text that follows the user's address line.
pub fn update_user_descr(user: &mut User, descr: &str)
    ensures
        final(user)@ == (UserView { descr: Some(descr@), ..old(user)@ }),
        final(user).num_short_announcements == old(user).num_short_announcements,
{
    user.descr = Some(descr.to_owned());
}

/// Stores the address line that the directory gave.
pub fn update_user_addr(user: &mut User, addr: &str)
    ensures
        final(user)@ == (UserView { addr: Some(addr@), ..old(user)@ }),
        final(user).num_short_announcements == old(user).num_short_announcements,
{
    user.addr = Some(addr.to_owned());
}

/// What a user is shown of the stored record: the address line, a line
/// break and the user's own text; only that text where no address line is
/// stored; nothing where the user is not known.
pub open spec fn descr_shown(u: Option<UserView>) -> Seq<char> {
    match u {
        Some(s) => match s.addr {
            Some(a) => a + seq!['\n'] + text_or_empty(s.descr),
            None => text_or_empty(s.descr),
        },
        None => Seq::empty(),
    }
}

fn push_text_or_empty(out: &mut Vec<char>, t: &Option<String>)
    ensures
        final(out)@ == old(out)@ + text_or_empty(
            match t {
                Some(s) => Some(s@),
                None => None,
            },
        ),
{
    match t {
        Some(s) => {
            let c = chars_of(s.as_str());
            append_chars(out, &c);
        },
        None => {
            assert(out@ =~= old(out)@ + Seq::<char>::empty());
        },
    }
}

/// What a user is shown of the stored record.
pub fn user_descr(user: &Option<User>) -> (text: String)
    ensures
        text@ == descr_shown(view_of(*user)),
{
    let mut out: Vec<char> = Vec::new();
    match user {
        Some(u) => {
            match &u.addr {
                Some(a) => {
                    let c = chars_of(a.as_str());
                    append_chars(&mut out, &c);
                    out.push('\n');
                    push_text_or_empty(&mut out, &u.descr);
                    assert(out@ =~= a@ + seq!['\n'] + text_or_empty(u@.descr));
                },
                None => {
                    push_text_or_empty(&mut out, &u.descr);
                    assert(out@ =~= text_or_empty(u@.descr));
                },
            }
        },
        None => {},
    }
    string_of(&out)
}

/// The short form of an address line.
pub fn shorten(line: &Vec<char>) -> (r: Vec<char>)
    ensures
        r@ == short_form(line@),
{
    let n: usize = line.len();
    let e0: usize = find_field_end(line, 0, ',', ',');
    let mut r: Vec<char> = Vec::new();
    let mut i: usize = 0;
    while i < e0
        invariant
            i <= e0 <= n,
            n == line.len(),
            r@ == line@.take(i as int),
        decreases e0 - i,
    {
        assert(line@.take(i as int).push(line@[i as int]) =~= line@.take(i + 1));
        r.push(line[i]);
        i = i + 1;
    }
    if e0 >= n {
        assert(line@.take(n as int) =~= line@);
        return r;
    }
    let e1: usize = find_field_end(line, e0 + 1, ',', ',');
    let mut j: usize = e0 + 1;
    while j < e1
        invariant
            e0 + 1 <= j <= e1 <= n,
            n == line.len(),
            r@ == line@.take(e0 as int) + line@.subrange(e0 + 1, j as int),
        decreases e1 - j,
    {
        assert((line@.take(e0 as int) + line@.subrange(e0 + 1, j as int)).push(line@[j as int])
            =~= line@.take(e0 as int) + line@.subrange(e0 + 1, j + 1));
        r.push(line[j]);
        j = j + 1;
    }
    r
}

/// The text of an announcement of `user`, with the full address line or
/// the short one.
pub fn compose(user: &User, full: bool) -> (text: String)
    ensures
        text@ == announce_text(text_or_empty(user@.addr), text_or_empty(user@.descr), full),
{
    let line: Vec<char> = match &user.addr {
        Some(a) => chars_of(a.as_str()),
        None => Vec::new(),
    };
    let shown: Vec<char> = if full {
        line
    } else {
        shorten(&line)
    };
    let mut out: Vec<char> = if shown.len() == 0 {
        chars_of("БОФА")
    } else {
        shown
    };
    let ghost head = out@;
    out.push(' ');
    push_text_or_empty(&mut out, &user.descr);
    assert(out@ =~= head + seq![' '] + text_or_empty(user@.descr));
    string_of(&out)
}

/// Decides what follows from a message at `time` of the user whose stored
/// record is `user`, with `interval` seconds between two announcements.
///
/// A user not known is stored with `time` and nothing is announced. A user
/// announced `interval` seconds ago or less is left alone. A user whose
/// address line the directory has not given yet is not announced and the
/// record stays as it is, but the directory is asked again. Any other user
/// is announced: the record takes `time` and the next count, the text has
/// the full address line on every `FULL_EVERY`th announcement and the short
/// one else, and the directory is asked again.
pub fn announcement(user: Option<User>, time: i32, interval: u32) -> (d: Decision)
    ensures
        d.outcome@ == outcome_of(view_of(user), time as int, interval as int),
        d.user@ == state_after(view_of(user), time as int, interval as int),
        d.refresh == refresh_due(view_of(user), time as int, interval as int),
        d.store == (user is None || triggers(view_of(user), time as int, interval as int)),
        user matches Some(u) && u.wf() ==> d.user.wf(),
        user is None ==> d.user.wf(),
{
    match user {
        None => Decision {
            outcome: Outcome::Suppressed(Reason::UnknownUserJustRegistered),
            user: save_new_user(time),
            store: true,
            refresh: false,
        },
        Some(u) => {
            let mut u = u;
            if time as i64 - u.last_seen as i64 <= interval as i64 {
                Decision {
                    outcome: Outcome::Suppressed(Reason::TooSoon),
                    user: u,
                    store: false,
                    refresh: false,
                }
            } else if u.addr.is_none() {
                Decision {
                    outcome: Outcome::Suppressed(Reason::NoAddressYet),
                    user: u,
                    store: false,
                    refresh: true,
                }
            } else {
                let full = u.num_short_announcements >= FULL_EVERY - 1;
                let text = compose(&u, full);
                update_user_time(&mut u, time);
                Decision { outcome: Outcome::Announce(text), user: u, store: true, refresh: true }
            }
        },
    }
}

/// Takes in what the directory answered for a user: the line of the records
/// becomes the user's address line. Where the directory gave no answer the
/// record stays as it is.
pub fn refresh_addr(user: &mut User, fetched: Option<Vec<Node>>)
    ensures
        final(user)@ == (match fetched {
            Some(list) => UserView { addr: Some(nodelist_line(list@, home_prefix())), ..old(user)@ },
            None => old(user)@,
        }),
        final(user).num_short_announcements == old(user).num_short_announcements,
{
    match fetched {
        Some(list) => {
            let line = from_nodelist(list);
            update_user_addr(user, line.as_str());
        },
        None => {},
    }
}

/// The short form holds no comma and is no longer than the line: what is
/// left of the line is at most its first two fields.
pub proof fn law_short_form_has_no_comma(s: Seq<char>)
    ensures
        short_form(s).len() <= s.len(),
        forall|i: int| 0 <= i < short_form(s).len() ==> short_form(s)[i] != ',',
        field_end(s, 0, ',', ',') >= s.len() ==> short_form(s) == s,
{
    lemma_field_end(s, 0, ',', ',');
    let e0 = field_end(s, 0, ',', ',');
    if e0 < s.len() {
        lemma_field_end(s, e0 + 1, ',', ',');
        let e1 = field_end(s, e0 + 1, ',', ',');
        let first = s.take(e0);
        let second = s.subrange(e0 + 1, e1);
        assert forall|i: int| 0 <= i < short_form(s).len() implies short_form(s)[i] != ',' by {
            if i < e0 {
                assert(short_form(s)[i] == s[i]);
            } else {
                assert(short_form(s)[i] == s[e0 + 1 + (i - e0)]);
            }
        }
    } else {
        assert forall|i: int| 0 <= i < short_form(s).len() implies short_form(s)[i] != ',' by {
            assert(short_form(s)[i] == s[i]);
        }
    }
}

/// A record changes only with an announcement.
///
/// A message of a known user that triggers no announcement leaves the
/// record as it is, the time of the last announcement included; one that
/// triggers an announcement is answered with it, sets that time to the
/// time of the message, and leaves address line and text alone.
pub proof fn law_record_changes_only_when_announced(u: UserView, now: int, interval: int)
    ensures
        !triggers(Some(u), now, interval) ==> state_after(Some(u), now, interval) == u && outcome_of(
            Some(u),
            now,
            interval,
        ) is Suppressed,
        triggers(Some(u), now, interval) ==> state_after(Some(u), now, interval).last_seen == now
            && state_after(Some(u), now, interval).addr == u.addr && state_after(
            Some(u),
            now,
            interval,
        ).descr == u.descr && outcome_of(Some(u), now, interval) is Announce,
        0 <= u.short_count < FULL_EVERY ==> 0 <= state_after(Some(u), now, interval).short_count
            < FULL_EVERY,
{
}

/// The record of a user after messages at the given times, one after the
/// other.
pub open spec fn state_after_all(u: UserView, times: Seq<int>, interval: int) -> UserView
    decreases times.len(),
{
    if times.len() == 0 {
        u
    } else {
        state_after(Some(state_after_all(u, times.drop_last(), interval)), times.last(), interval)
    }
}

/// Messages within the interval change nothing.
///
/// However many messages a user sends no later than `interval` seconds
/// after the last announcement, each is answered with `TooSoon`, and the
/// record, with the time of the last announcement in it, stays as it was.
pub proof fn law_too_soon_changes_nothing(u: UserView, times: Seq<int>, interval: int)
    requires
        forall|k: int| 0 <= k < times.len() ==> #[trigger] times[k] - u.last_seen <= interval,
    ensures
        state_after_all(u, times, interval) == u,
        forall|k: int|
            0 <= k < times.len() ==> state_after_all(u, #[trigger] times.take(k), interval) == u
                && outcome_of(Some(u), times[k], interval) == OutcomeView::Suppressed(
                Reason::TooSoon,
            ),
    decreases times.len(),
{
    if times.len() > 0 {
        let init = times.drop_last();
        assert forall|k: int| 0 <= k < init.len() implies #[trigger] init[k] - u.last_seen
            <= interval by {
            assert(init[k] == times[k]);
        }
        law_too_soon_changes_nothing(u, init, interval);
        assert(too_soon(u, times.last(), interval));
        assert forall|k: int| 0 <= k < times.len() implies state_after_all(
            u,
            #[trigger] times.take(k),
            interval,
        ) == u && outcome_of(Some(u), times[k], interval) == OutcomeView::Suppressed(
            Reason::TooSoon,
        ) by {
            assert(too_soon(u, times[k], interval));
            if k < init.len() {
                assert(times.take(k) =~= init.take(k));
            } else {
                assert(times.take(k) =~= init);
            }
        }
    }
}

/// Every twelfth announcement is a full one.
///
/// Take a user with an address line and a count of zero, and messages of
/// which each triggers an announcement. Then the count after `k` of them is
/// `k` modulo `FULL_EVERY`, the address line stays, and the announcement
/// that message number `k + 1` triggers shows the full address line where
/// `k + 1` is a multiple of `FULL_EVERY`, and the short form else.
pub proof fn law_every_twelfth_is_full(u: UserView, times: Seq<int>, interval: int)
    requires
        u.short_count == 0,
        forall|k: int|
            0 <= k < times.len() ==> triggers(
                Some(state_after_all(u, #[trigger] times.take(k), interval)),
                times[k],
                interval,
            ),
    ensures
        forall|k: int|
            0 <= k <= times.len() ==> (#[trigger] state_after_all(
                u,
                times.take(k),
                interval,
            )).short_count == k % (FULL_EVERY as int) && state_after_all(
                u,
                times.take(k),
                interval,
            ).addr == u.addr && state_after_all(u, times.take(k), interval).descr == u.descr,
        forall|k: int|
            0 <= k < times.len() ==> outcome_of(
                Some(state_after_all(u, #[trigger] times.take(k), interval)),
                times[k],
                interval,
            ) == OutcomeView::Announce(
                announce_text(
                    text_or_empty(u.addr),
                    text_or_empty(u.descr),
                    (k + 1) % (FULL_EVERY as int) == 0,
                ),
            ),
    decreases times.len(),
{
    assert(times.take(0).len() == 0);
    if times.len() > 0 {
        let init = times.drop_last();
        assert forall|k: int| 0 <= k < init.len() implies triggers(
            Some(state_after_all(u, #[trigger] init.take(k), interval)),
            init[k],
            interval,
        ) by {
            assert(times.take(k) =~= init.take(k));
        }
        law_every_twelfth_is_full(u, init, interval);
        let n = times.len() as int;
        assert(times.take(n - 1) =~= init);
        assert(init.take(n - 1) =~= init);
        assert(times.take(n) =~= times);
        assert forall|k: int| 0 <= k <= times.len() implies (#[trigger] state_after_all(
            u,
            times.take(k),
            interval,
        )).short_count == k % (FULL_EVERY as int) && state_after_all(
            u,
            times.take(k),
            interval,
        ).addr == u.addr && state_after_all(u, times.take(k), interval).descr == u.descr by {
            if k < n {
                assert(times.take(k) =~= init.take(k));
            } else {
                assert(triggers(
                    Some(state_after_all(u, times.take(n - 1), interval)),
                    times[n - 1],
                    interval,
                ));
            }
        }
        assert forall|k: int| 0 <= k < times.len() implies outcome_of(
            Some(state_after_all(u, #[trigger] times.take(k), interval)),
            times[k],
            interval,
        ) == OutcomeView::Announce(
            announce_text(
                text_or_empty(u.addr),
                text_or_empty(u.descr),
                (k + 1) % (FULL_EVERY as int) == 0,
            ),
        ) by {
            if k < n - 1 {
                assert(times.take(k) =~= init.take(k));
                assert(times[k] == init[k]);
            } else {
                let before = state_after_all(u, times.take(k), interval);
                assert(before.short_count == k % (FULL_EVERY as int));
                assert(triggers(Some(before), times[k], interval));
            }
        }
    }
}

} // verus!
