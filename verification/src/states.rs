use crate::database::{descr_shown, user_descr, view_of, User, UserView};
use crate::settings::{interval as read_interval, is_admin, set_interval, Settings, MAX_INTERVAL};
use crate::text::{bounded_numeral, chars_of, decimal, decimal_string, parse_number, same_text};
use vstd::string::StringExecFns;
use vstd::prelude::*;

verus! {

broadcast use vstd::string::group_string_axioms;

/// The conversation has not begun, or has come to an end. `restarted` is set
/// where the bot has lost what went before.
#[derive(Clone, Copy, PartialEq, Eq, Structural, Debug)]
pub struct StartState {
    pub restarted: bool,
}

/// The user has been shown the menu and is to choose a command.
#[derive(Clone, Copy, PartialEq, Eq, Structural, Debug)]
pub struct CommandState {
    pub user_id: i64,
    pub is_admin: bool,
}

/// The user is to enter a new text to follow the address line.
#[derive(Clone, Copy, PartialEq, Eq, Structural, Debug)]
pub struct OriginState {
    pub state: CommandState,
}

/// The user is to enter a new interval.
#[derive(Clone, Copy, PartialEq, Eq, Structural, Debug)]
pub struct IntervalState {
    pub state: CommandState,
}

/// Where a private conversation with one user stands.
#[derive(Clone, Copy, PartialEq, Eq, Structural, Debug)]
pub enum Dialogue {
    Start(StartState),
    Command(CommandState),
    Origin(OriginState),
    Interval(IntervalState),
}

impl Default for Dialogue {
    /// A conversation of which nothing is known begins anew and says so.
    fn default() -> (d: Dialogue)
        ensures
            d == Dialogue::Start(StartState { restarted: true }),
    {
        Dialogue::Start(StartState { restarted: true })
    }
}

/// The commands of the menu.
#[derive(Clone, Copy, PartialEq, Eq, Structural, Debug)]
pub enum Command {
    /// Change the text that follows the address line.
    Origin,
    /// List the users. It does nothing.
    List,
    /// Change the interval between two announcements.
    Interval,
}

impl Command {
    /// The label under which the menu offers the command.
    pub open spec fn label(self) -> Seq<char> {
        match self {
            Command::Origin => "change directory"@,
            Command::List => "list"@,
            Command::Interval => "set interval"@,
        }
    }

    /// The command that a text names, if it is the label of one.
    pub open spec fn parse(s: Seq<char>) -> Option<Command> {
        if s == Command::Origin.label() {
            Some(Command::Origin)
        } else if s == Command::List.label() {
            Some(Command::List)
        } else if s == Command::Interval.label() {
            Some(Command::Interval)
        } else {
            None
        }
    }

    /// The command that a text names, if it is the label of one.
    pub fn try_from(s: &str) -> (r: Option<Command>)
        ensures
            r == Command::parse(s@),
    {
        if same_text(s, "change directory") {
            Some(Command::Origin)
        } else if same_text(s, "list") {
            Some(Command::List)
        } else if same_text(s, "set interval") {
            Some(Command::Interval)
        } else {
            None
        }
    }

    /// The label under which the menu offers the command.
    pub fn text(self) -> (r: String)
        ensures
            r@ == self.label(),
    {
        match self {
            Command::Origin => "change directory".to_owned(),
            Command::List => "list".to_owned(),
            Command::Interval => "set interval".to_owned(),
        }
    }
}

/// The text with which a user leaves a prompt without a change.
pub open spec fn cancel_text() -> Seq<char> {
    "/"@
}

/// What the user is told.
#[derive(Clone, Debug, PartialEq, Eq)]
pub enum Reply {
    /// The menu, after a notice that the bot was restarted where it was;
    /// the command to change the interval is offered to administrators.
    Menu { restarted: bool, is_admin: bool },
    /// The text is no command.
    UnknownCommand(String),
    /// What is stored for the user now, and the request for a new text.
    OriginPrompt(String),
    /// The interval now, in units, and the request for a new one.
    IntervalPrompt(u32),
    /// Nothing is said.
    Nothing,
    OriginUnchanged,
    /// The text that was taken as the new one.
    OriginSaved(String),
    IntervalUnchanged,
    InsufficientRights,
    /// The input that was taken as the new interval.
    IntervalSaved(String),
    IntervalNotSaved,
    /// The input that is no interval.
    IntervalInvalid(String),
}

/// A reply as plain values.
pub ghost enum ReplyView {
    Menu { restarted: bool, is_admin: bool },
    UnknownCommand(Seq<char>),
    OriginPrompt(Seq<char>),
    IntervalPrompt(u32),
    Nothing,
    OriginUnchanged,
    OriginSaved(Seq<char>),
    IntervalUnchanged,
    InsufficientRights,
    IntervalSaved(Seq<char>),
    IntervalNotSaved,
    IntervalInvalid(Seq<char>),
}

impl View for Reply {
    type V = ReplyView;

    open spec fn view(&self) -> ReplyView {
        match self {
            Reply::Menu { restarted, is_admin } => ReplyView::Menu {
                restarted: *restarted,
                is_admin: *is_admin,
            },
            Reply::UnknownCommand(t) => ReplyView::UnknownCommand(t@),
            Reply::OriginPrompt(t) => ReplyView::OriginPrompt(t@),
            Reply::IntervalPrompt(n) => ReplyView::IntervalPrompt(*n),
            Reply::Nothing => ReplyView::Nothing,
            Reply::OriginUnchanged => ReplyView::OriginUnchanged,
            Reply::OriginSaved(t) => ReplyView::OriginSaved(t@),
            Reply::IntervalUnchanged => ReplyView::IntervalUnchanged,
            Reply::InsufficientRights => ReplyView::InsufficientRights,
            Reply::IntervalSaved(t) => ReplyView::IntervalSaved(t@),
            Reply::IntervalNotSaved => ReplyView::IntervalNotSaved,
            Reply::IntervalInvalid(t) => ReplyView::IntervalInvalid(t@),
        }
    }
}

/// What is to be written to the store after a step.
#[derive(Clone, Debug, PartialEq, Eq)]
pub enum Effect {
    Nothing,
    /// The text that follows the address line of the user `user_id`.
    SaveDescr { user_id: i64, descr: String },
    /// The interval, in seconds.
    SaveInterval(i32),
}

/// An effect as plain values.
pub ghost enum EffectView {
    Nothing,
    SaveDescr { user_id: i64, descr: Seq<char> },
    SaveInterval(i32),
}

impl View for Effect {
    type V = EffectView;

    open spec fn view(&self) -> EffectView {
        match self {
            Effect::Nothing => EffectView::Nothing,
            Effect::SaveDescr { user_id, descr } => EffectView::SaveDescr {
                user_id: *user_id,
                descr: descr@,
            },
            Effect::SaveInterval(v) => EffectView::SaveInterval(*v),
        }
    }
}

/// One step of a conversation: where it stands next, what the user is told,
/// and what is to be written to the store.
#[derive(Clone, Debug, PartialEq, Eq)]
pub struct Transition {
    pub next: Dialogue,
    pub reply: Reply,
    pub effect: Effect,
}

/// A step as plain values.
pub ghost struct TransitionView {
    pub next: Dialogue,
    pub reply: ReplyView,
    pub effect: EffectView,
}

impl View for Transition {
    type V = TransitionView;

    open spec fn view(&self) -> TransitionView {
        TransitionView { next: self.next, reply: self.reply@, effect: self.effect@ }
    }
}

/// The step from the start: any text brings the menu, made for the user's
/// rights, and the conversation waits for a command.
pub open spec fn start_step(state: StartState, user_id: i64, settings: Settings) -> TransitionView {
    TransitionView {
        next: Dialogue::Command(CommandState { user_id, is_admin: settings.has_admin(user_id) }),
        reply: ReplyView::Menu {
            restarted: state.restarted,
            is_admin: settings.has_admin(user_id),
        },
        effect: EffectView::Nothing,
    }
}

/// The step from the menu.
///
/// A text that is no command is answered as such and the menu stays. The
/// command to change the text shows what is stored for the user and waits
/// for the new text. The command to change the interval shows the interval
/// in units and waits for the new one, but from a user who is no
/// administrator it is passed over in silence. Any other command does
/// nothing.
pub open spec fn command_step(
    state: CommandState,
    ans: Seq<char>,
    user: Option<UserView>,
    settings: Settings,
) -> TransitionView {
    match Command::parse(ans) {
        None => TransitionView {
            next: Dialogue::Command(state),
            reply: ReplyView::UnknownCommand(ans),
            effect: EffectView::Nothing,
        },
        Some(Command::Origin) => TransitionView {
            next: Dialogue::Origin(OriginState { state }),
            reply: ReplyView::OriginPrompt(descr_shown(user)),
            effect: EffectView::Nothing,
        },
        Some(Command::Interval) => if state.is_admin {
            TransitionView {
                next: Dialogue::Interval(IntervalState { state }),
                reply: ReplyView::IntervalPrompt(
                    (settings.current_interval() / settings.unit) as u32,
                ),
                effect: EffectView::Nothing,
            }
        } else {
            TransitionView {
                next: Dialogue::Command(state),
                reply: ReplyView::Nothing,
                effect: EffectView::Nothing,
            }
        },
        Some(Command::List) => TransitionView {
            next: Dialogue::Command(state),
            reply: ReplyView::Nothing,
            effect: EffectView::Nothing,
        },
    }
}

/// The settings after the step from the menu: showing the interval reads
/// it, and the first read stores the default.
pub open spec fn settings_after_command(
    state: CommandState,
    ans: Seq<char>,
    settings: Settings,
) -> Settings {
    if Command::parse(ans) == Some(Command::Interval) && state.is_admin {
        Settings { interval: Some(settings.current_interval()), ..settings }
    } else {
        settings
    }
}

/// The step from the prompt for a new text: the cancel text leaves
/// everything as it is, any other text is to be stored for the user as it
/// stands. The conversation ends.
pub open spec fn origin_step(state: OriginState, ans: Seq<char>) -> TransitionView {
    if ans == cancel_text() {
        TransitionView {
            next: Dialogue::Start(StartState { restarted: false }),
            reply: ReplyView::OriginUnchanged,
            effect: EffectView::Nothing,
        }
    } else {
        TransitionView {
            next: Dialogue::Start(StartState { restarted: false }),
            reply: ReplyView::OriginSaved(ans),
            effect: EffectView::SaveDescr { user_id: state.state.user_id, descr: ans },
        }
    }
}

/// The seconds that an input stands for as a new interval: the input is an
/// unsigned decimal numeral, counts units, and the seconds can be stored.
pub open spec fn new_interval(ans: Seq<char>, settings: Settings) -> Option<nat> {
    match bounded_numeral(ans, (MAX_INTERVAL / settings.unit) as nat) {
        Some(v) => Some(v * settings.unit as nat),
        None => None,
    }
}

/// Whether the step from the prompt for a new interval changes the interval.
pub open spec fn interval_accepted(state: IntervalState, ans: Seq<char>, settings: Settings) -> bool {
    &&& ans != cancel_text()
    &&& state.state.is_admin
    &&& new_interval(ans, settings) is Some
    &&& settings.interval is Some
}

/// The step from the prompt for a new interval.
///
/// The cancel text leaves the interval as it is. So does any input of a
/// user who is no administrator, who is told so. An administrator's input
/// that is an interval is stored, and the input comes back in the reply;
/// where no interval was ever stored or read, nothing is stored and the
/// user is told that it failed. Any other input comes back as invalid. The
/// conversation ends in every case.
pub open spec fn interval_step(
    state: IntervalState,
    ans: Seq<char>,
    settings: Settings,
) -> TransitionView {
    let reply = if ans == cancel_text() {
        ReplyView::IntervalUnchanged
    } else if !state.state.is_admin {
        ReplyView::InsufficientRights
    } else if new_interval(ans, settings) is None {
        ReplyView::IntervalInvalid(ans)
    } else if settings.interval is None {
        ReplyView::IntervalNotSaved
    } else {
        ReplyView::IntervalSaved(ans)
    };
    TransitionView {
        next: Dialogue::Start(StartState { restarted: false }),
        reply,
        effect: if interval_accepted(state, ans, settings) {
            EffectView::SaveInterval(new_interval(ans, settings).unwrap() as i32)
        } else {
            EffectView::Nothing
        },
    }
}

/// The settings after the step from the prompt for a new interval.
pub open spec fn settings_after_interval(
    state: IntervalState,
    ans: Seq<char>,
    settings: Settings,
) -> Settings {
    if interval_accepted(state, ans, settings) {
        Settings { interval: Some(new_interval(ans, settings).unwrap() as u32), ..settings }
    } else {
        settings
    }
}

/// One step of a conversation, from wherever it stands.
pub open spec fn react_step(
    dialogue: Dialogue,
    ans: Seq<char>,
    user_id: i64,
    user: Option<UserView>,
    settings: Settings,
) -> TransitionView {
    match dialogue {
        Dialogue::Start(s) => start_step(s, user_id, settings),
        Dialogue::Command(s) => command_step(s, ans, user, settings),
        Dialogue::Origin(s) => origin_step(s, ans),
        Dialogue::Interval(s) => interval_step(s, ans, settings),
    }
}

/// The settings after one step of a conversation.
pub open spec fn settings_after(dialogue: Dialogue, ans: Seq<char>, settings: Settings) -> Settings {
    match dialogue {
        Dialogue::Start(_) => settings,
        Dialogue::Command(s) => settings_after_command(s, ans, settings),
        Dialogue::Origin(_) => settings,
        Dialogue::Interval(s) => settings_after_interval(s, ans, settings),
    }
}

/// Answers the first text of a conversation with the menu.
pub fn start(state: StartState, user_id: i64, settings: &Settings) -> (t: Transition)
    ensures
        t@ == start_step(state, user_id, *settings),
{
    let admin = is_admin(settings, user_id);
    Transition {
        next: Dialogue::Command(CommandState { user_id, is_admin: admin }),
        reply: Reply::Menu { restarted: state.restarted, is_admin: admin },
        effect: Effect::Nothing,
    }
}

/// Takes the user's choice from the menu. `user` is what is stored for the
/// user who writes.
pub fn select_command(
    state: CommandState,
    ans: &str,
    user: &Option<User>,
    settings: &mut Settings,
) -> (t: Transition)
    requires
        old(settings).wf(),
    ensures
        t@ == command_step(state, ans@, view_of(*user), *old(settings)),
        *final(settings) == settings_after_command(state, ans@, *old(settings)),
        final(settings).wf(),
{
    match Command::try_from(ans) {
        None => Transition {
            next: Dialogue::Command(state),
            reply: Reply::UnknownCommand(ans.to_owned()),
            effect: Effect::Nothing,
        },
        Some(Command::Origin) => Transition {
            next: Dialogue::Origin(OriginState { state }),
            reply: Reply::OriginPrompt(user_descr(user)),
            effect: Effect::Nothing,
        },
        Some(Command::Interval) => {
            if state.is_admin {
                let seconds: u32 = read_interval(settings);
                Transition {
                    next: Dialogue::Interval(IntervalState { state }),
                    reply: Reply::IntervalPrompt(seconds / settings.unit),
                    effect: Effect::Nothing,
                }
            } else {
                Transition {
                    next: Dialogue::Command(state),
                    reply: Reply::Nothing,
                    effect: Effect::Nothing,
                }
            }
        },
        Some(Command::List) => Transition {
            next: Dialogue::Command(state),
            reply: Reply::Nothing,
            effect: Effect::Nothing,
        },
    }
}

/// Takes the user's new text, or the cancel text.
pub fn origin(state: OriginState, ans: &str) -> (t: Transition)
    ensures
        t@ == origin_step(state, ans@),
{
    if same_text(ans, "/") {
        Transition {
            next: Dialogue::Start(StartState { restarted: false }),
            reply: Reply::OriginUnchanged,
            effect: Effect::Nothing,
        }
    } else {
        Transition {
            next: Dialogue::Start(StartState { restarted: false }),
            reply: Reply::OriginSaved(ans.to_owned()),
            effect: Effect::SaveDescr { user_id: state.state.user_id, descr: ans.to_owned() },
        }
    }
}

/// Reads an input as a new interval and gives its seconds.
pub fn parse_interval(ans: &str, settings: &Settings) -> (r: Option<i32>)
    requires
        settings.wf(),
    ensures
        match r {
            Some(v) => v >= 0 && new_interval(ans@, *settings) == Some(v as nat),
            None => new_interval(ans@, *settings) is None,
        },
{
    let c = chars_of(ans);
    assert(c@.subrange(0, c@.len() as int) =~= ans@);
    let unit: u32 = settings.unit;
    let max: u32 = MAX_INTERVAL / unit;
    match parse_number(&c, 0, c.len(), max as u64) {
        Some(v) => {
            assert(v * unit <= MAX_INTERVAL) by (nonlinear_arith)
                requires
                    v <= MAX_INTERVAL / unit,
                    unit >= 1,
            ;
            let seconds: u64 = v * (unit as u64);
            Some(seconds as i32)
        },
        None => None,
    }
}

/// Takes the user's new interval, or the cancel text.
pub fn interval(state: IntervalState, ans: &str, settings: &mut Settings) -> (t: Transition)
    requires
        old(settings).wf(),
    ensures
        t@ == interval_step(state, ans@, *old(settings)),
        *final(settings) == settings_after_interval(state, ans@, *old(settings)),
        final(settings).wf(),
{
    let mut effect = Effect::Nothing;
    let reply = if same_text(ans, "/") {
        Reply::IntervalUnchanged
    } else if !state.state.is_admin {
        Reply::InsufficientRights
    } else {
        match parse_interval(ans, settings) {
            Some(v) => {
                match set_interval(settings, v) {
                    Ok(_) => {
                        effect = Effect::SaveInterval(v);
                        Reply::IntervalSaved(ans.to_owned())
                    },
                    Err(_) => Reply::IntervalNotSaved,
                }
            },
            None => Reply::IntervalInvalid(ans.to_owned()),
        }
    };
    Transition { next: Dialogue::Start(StartState { restarted: false }), reply, effect }
}

/// Takes one text of the user `user_id` in a private conversation that
/// stands at `dialogue`. `user` is what is stored for that user.
pub fn react(
    dialogue: Dialogue,
    ans: &str,
    user_id: i64,
    user: &Option<User>,
    settings: &mut Settings,
) -> (t: Transition)
    requires
        old(settings).wf(),
    ensures
        t@ == react_step(dialogue, ans@, user_id, view_of(*user), *old(settings)),
        *final(settings) == settings_after(dialogue, ans@, *old(settings)),
        final(settings).wf(),
{
    match dialogue {
        Dialogue::Start(s) => start(s, user_id, settings),
        Dialogue::Command(s) => select_command(s, ans, user, settings),
        Dialogue::Origin(s) => origin(s, ans),
        Dialogue::Interval(s) => interval(s, ans, settings),
    }
}

/// The buttons that go with a reply.
#[derive(Clone, Copy, PartialEq, Eq, Structural, Debug)]
pub enum Keyboard {
    /// The buttons stay as they are.
    Keep,
    /// The commands; the one that changes the interval for administrators.
    Menu { is_admin: bool },
    /// The one button that cancels.
    Cancel,
    /// The one button that leads back to the start.
    ToStart,
}

/// The label of the button that leads back to the start.
pub open spec fn to_start_text() -> Seq<char> {
    "to start"@
}

/// The labels of a keyboard's buttons, in their order.
pub open spec fn keyboard_labels(k: Keyboard) -> Seq<Seq<char>> {
    match k {
        Keyboard::Keep => Seq::empty(),
        Keyboard::Menu { is_admin } => if is_admin {
            seq![Command::Origin.label(), Command::Interval.label()]
        } else {
            seq![Command::Origin.label()]
        },
        Keyboard::Cancel => seq![cancel_text()],
        Keyboard::ToStart => seq![to_start_text()],
    }
}

/// The buttons that go with a reply: the commands with the menu, the
/// cancel button with a prompt, the way back with what ends a conversation.
pub open spec fn keyboard_of(r: ReplyView) -> Keyboard {
    match r {
        ReplyView::Menu { restarted, is_admin } => Keyboard::Menu { is_admin },
        ReplyView::UnknownCommand(_) => Keyboard::Keep,
        ReplyView::Nothing => Keyboard::Keep,
        ReplyView::OriginPrompt(_) => Keyboard::Cancel,
        ReplyView::IntervalPrompt(_) => Keyboard::Cancel,
        _ => Keyboard::ToStart,
    }
}

/// The words of a reply.
pub open spec fn reply_text(r: ReplyView) -> Seq<char> {
    match r {
        ReplyView::Menu { restarted, is_admin } => (if restarted {
            "Sorry, the bot was restarted.\n"@
        } else {
            Seq::empty()
        }) + "Welcome. Choose a command with the buttons below"@,
        ReplyView::UnknownCommand(t) => "Unknown command "@ + t
            + ". Please choose one of the commands below (open the button panel if it is hidden)"@,
        ReplyView::OriginPrompt(t) => "Your current directory text\n"@ + t
            + "\nPlease enter the text to show after the directory line\nPress / to cancel"@,
        ReplyView::IntervalPrompt(n) => "The interval between two announcements of a user is "@
            + decimal(n as nat) + ". Enter the new interval or / to cancel"@,
        ReplyView::Nothing => Seq::empty(),
        ReplyView::OriginUnchanged => "Directory text unchanged"@,
        ReplyView::OriginSaved(t) => "Your new directory text "@ + t + " is saved"@,
        ReplyView::IntervalUnchanged => "Interval unchanged"@,
        ReplyView::InsufficientRights => "Insufficient rights"@,
        ReplyView::IntervalSaved(t) => "New interval "@ + t + " is saved"@,
        ReplyView::IntervalNotSaved => "The interval could not be saved, please contact the developer"@,
        ReplyView::IntervalInvalid(t) =>
            "Invalid input, a whole number was expected, for example 1, you entered "@ + t
            + ". Interval unchanged"@,
    }
}

impl Keyboard {
    /// The labels of the buttons, in their order.
    pub fn labels(self) -> (r: Vec<String>)
        ensures
            r@.len() == keyboard_labels(self).len(),
            forall|i: int| 0 <= i < r@.len() ==> (#[trigger] r@[i])@ == keyboard_labels(self)[i],
    {
        let mut r: Vec<String> = Vec::new();
        match self {
            Keyboard::Keep => {},
            Keyboard::Menu { is_admin } => {
                r.push(Command::Origin.text());
                if is_admin {
                    r.push(Command::Interval.text());
                }
            },
            Keyboard::Cancel => {
                r.push("/".to_owned());
            },
            Keyboard::ToStart => {
                r.push("to start".to_owned());
            },
        }
        r
    }
}

impl Reply {
    /// Whether nothing is to be sent.
    pub fn is_silent(&self) -> (r: bool)
        ensures
            r == (self@ is Nothing),
    {
        match self {
            Reply::Nothing => true,
            _ => false,
        }
    }

    /// The buttons that go with the reply.
    pub fn keyboard(&self) -> (k: Keyboard)
        ensures
            k == keyboard_of(self@),
    {
        match self {
            Reply::Menu { restarted, is_admin } => Keyboard::Menu { is_admin: *is_admin },
            Reply::UnknownCommand(_) => Keyboard::Keep,
            Reply::Nothing => Keyboard::Keep,
            Reply::OriginPrompt(_) => Keyboard::Cancel,
            Reply::IntervalPrompt(_) => Keyboard::Cancel,
            _ => Keyboard::ToStart,
        }
    }

    /// The words of the reply.
    pub fn text(&self) -> (r: String)
        ensures
            r@ == reply_text(self@),
    {
        let mut s = String::new();
        match self {
            Reply::Menu { restarted, is_admin } => {
                if *restarted {
                    s.append("Sorry, the bot was restarted.\n");
                }
                s.append("Welcome. Choose a command with the buttons below");
            },
            Reply::UnknownCommand(t) => {
                s.append("Unknown command ");
                s.append(t.as_str());
                s.append(
                    ". Please choose one of the commands below (open the button panel if it is hidden)",
                );
            },
            Reply::OriginPrompt(t) => {
                s.append("Your current directory text\n");
                s.append(t.as_str());
                s.append(
                    "\nPlease enter the text to show after the directory line\nPress / to cancel",
                );
            },
            Reply::IntervalPrompt(n) => {
                let number = decimal_string(*n);
                s.append("The interval between two announcements of a user is ");
                s.append(number.as_str());
                s.append(". Enter the new interval or / to cancel");
            },
            Reply::Nothing => {},
            Reply::OriginUnchanged => {
                s.append("Directory text unchanged");
            },
            Reply::OriginSaved(t) => {
                s.append("Your new directory text ");
                s.append(t.as_str());
                s.append(" is saved");
            },
            Reply::IntervalUnchanged => {
                s.append("Interval unchanged");
            },
            Reply::InsufficientRights => {
                s.append("Insufficient rights");
            },
            Reply::IntervalSaved(t) => {
                s.append("New interval ");
                s.append(t.as_str());
                s.append(" is saved");
            },
            Reply::IntervalNotSaved => {
                s.append("The interval could not be saved, please contact the developer");
            },
            Reply::IntervalInvalid(t) => {
                s.append("Invalid input, a whole number was expected, for example 1, you entered ");
                s.append(t.as_str());
                s.append(". Interval unchanged");
            },
        }
        assert(s@ =~= reply_text(self@));
        s
    }
}

/// Every command is found again by its label, and no two commands share one.
pub proof fn law_labels_name_their_commands(c: Command)
    ensures
        Command::parse(c.label()) == Some(c),
{
    reveal_strlit("change directory");
    reveal_strlit("list");
    reveal_strlit("set interval");
    assert("change directory"@.len() == 16);
    assert("list"@.len() == 4);
    assert("set interval"@.len() == 12);
}

/// A text that was stored is shown again as it was entered.
///
/// Any text but the cancel text, entered at the prompt for a new text, is
/// to be stored for the user of the conversation as it stands. Once it is
/// stored, the command to change the text shows what is stored for the
/// user, and that ends with the very text: it is the whole of it where no
/// address line is stored, and follows the address line and a line break
/// where one is.
pub proof fn law_stored_text_is_shown_again(
    prior: CommandState,
    text: Seq<char>,
    before: UserView,
    settings: Settings,
)
    requires
        text != cancel_text(),
    ensures
        origin_step(OriginState { state: prior }, text).effect == (EffectView::SaveDescr {
            user_id: prior.user_id,
            descr: text,
        }),
        command_step(
            prior,
            Command::Origin.label(),
            Some(UserView { descr: Some(text), ..before }),
            settings,
        ).reply == ReplyView::OriginPrompt(
            match before.addr {
                Some(a) => a + seq!['\n'] + text,
                None => text,
            },
        ),
{
    law_labels_name_their_commands(Command::Origin);
}

/// Only an administrator changes the interval, and nobody the
/// administrators or the unit.
///
/// Whatever the text and wherever the conversation stands, a step leaves
/// administrators and unit as they were. The interval that a read finds
/// differs after the step only where the conversation stood at the prompt
/// for a new interval and had found its user to be an administrator.
pub proof fn law_only_admins_change_interval(dialogue: Dialogue, ans: Seq<char>, settings: Settings)
    ensures
        settings_after(dialogue, ans, settings).admins == settings.admins,
        settings_after(dialogue, ans, settings).unit == settings.unit,
        settings_after(dialogue, ans, settings).current_interval() != settings.current_interval()
            ==> (dialogue matches Dialogue::Interval(s) && s.state.is_admin),
{
}

/// Every step from a prompt ends the conversation, and the start leads to
/// the menu.
pub proof fn law_conversation_returns_to_start(
    dialogue: Dialogue,
    ans: Seq<char>,
    user_id: i64,
    user: Option<UserView>,
    settings: Settings,
)
    ensures
        dialogue is Origin || dialogue is Interval ==> react_step(
            dialogue,
            ans,
            user_id,
            user,
            settings,
        ).next == Dialogue::Start(StartState { restarted: false }),
        dialogue is Start ==> react_step(dialogue, ans, user_id, user, settings).next is Command,
        dialogue is Command ==> !(react_step(dialogue, ans, user_id, user, settings).next is Start),
{
}

/// What is done with a message, by the chat it came from.
#[derive(Clone, Copy, PartialEq, Eq, Structural, Debug)]
pub enum Route {
    /// A private chat, and the message has no text: the user is asked for
    /// one and the conversation stays where it stands.
    AskForText,
    /// A private chat: the text is a step of the conversation.
    Converse,
    /// A group: the user is announced, if an announcement is due.
    Announce,
}

/// What is done with a message. Private chats have an id above zero, groups
/// have not.
pub open spec fn route_of(chat_id: i64, text: Seq<char>) -> Route {
    if chat_id > 0 {
        if text.len() == 0 {
            Route::AskForText
        } else {
            Route::Converse
        }
    } else {
        Route::Announce
    }
}

/// Decides what is done with a message from the chat `chat_id`.
pub fn route(chat_id: i64, text: &str) -> (r: Route)
    ensures
        r == route_of(chat_id, text@),
{
    if chat_id > 0 {
        if text.is_empty() {
            Route::AskForText
        } else {
            Route::Converse
        }
    } else {
        Route::Announce
    }
}

/// What a user in a private chat is told who sent no text.
pub open spec fn ask_for_text() -> Seq<char> {
    "A text message, please!"@
}

/// What a user in a private chat is told who sent no text.
pub fn text_request() -> (r: String)
    ensures
        r@ == ask_for_text(),
{
    "A text message, please!".to_owned()
}

} // verus!
