//! The menu bar: what each page of it holds, which heads a width can afford,
//! and where the keyboard goes.
//!
//! The content is data. [`rows`] turns a [`BarState`] into the lines of a page,
//! and [`plan`] decides which heads are ruled and which fold into "more". The
//! module never acts: it names the [`MenuAction`] that an item stands for.
//!
//! Widths are in hundredths of a point; `None` stands for one that is no finite
//! number. Widgets are known by the number of their id.

use crate::a11y::{self, clamp_scale, scale_label, step_scale, SCALE_DEFAULT};
use crate::copy::{self, role_cannot_edit};
use crate::figures::{self, ago};
use crate::model::UpdateState;
use crate::shortcuts::{self, chord_caps};
use crate::text::{self, same, Chars};
use crate::theme::{Density, Mode};
use vstd::prelude::*;

verus! {

// ---------------------------------------------------------------------------
// What the bar can ask for, and what it needs to know
// ---------------------------------------------------------------------------

/// Everything the bar can ask for.
#[derive(Clone, Copy, PartialEq, Eq, Debug, Structural)]
pub enum MenuAction {
    /// Start the open session.
    Start,
    /// Stop it.
    Stop,
    /// Suspend syncing without stopping the daemon.
    Pause,
    /// Resume a paused session.
    Resume,
    /// Show the open session's folder in the file manager.
    OpenFolder,
    /// Copy the open session's folder path.
    CopyPath,
    /// Rename the marked file, under a lease.
    Rename,
    /// Run the daemon's connectivity self-check.
    Doctor,
    /// Start the web dashboard and report its address.
    Dashboard,
    /// Drop unreferenced blobs.
    Gc,
    /// Rotate the session secret.
    Rekey,
    /// Open the confirm that deletes preserved copies past a cutoff.
    Prune,
    /// Install or remove the supervisor.
    Supervisor {
        /// True installs it, false removes it.
        install: bool,
    },
    /// Switch the palette.
    Palette(Mode),
    /// Switch the density.
    Density(Density),
    /// Turn decorative motion on or off.
    Motion {
        /// True is the reduced setting.
        reduced: bool,
    },
    /// Set the text scale, in ten-thousandths.
    TextScale(i32),
    /// Open the keyboard sheet.
    Shortcuts,
    /// Open the colophon.
    Colophon,
    /// Ask whether a newer release exists.
    CheckUpdate,
    /// Install the release the last check found.
    ApplyUpdate,
}

/// Everything the bar reads, borrowed for the frame.
pub struct BarState<'a> {
    /// The open session, or `None` while the home page shows.
    pub session: Option<SessionState<'a>>,
    /// Where the window stands with updates.
    pub update: &'a UpdateState,
    /// Whether the supervisor is installed on this machine.
    pub supervisor: bool,
    /// The palette in force.
    pub mode: Mode,
    /// The density in force.
    pub density: Density,
    /// Whether reduced motion is on.
    pub reduced_motion: bool,
    /// The text scale in force, in ten-thousandths.
    pub text_scale: Option<i32>,
    /// How much of the bar's trailing edge is taken already.
    pub reserve: i32,
}

/// The open session, as the bar needs it.
pub struct SessionState<'a> {
    /// Whether its daemon is up.
    pub running: bool,
    /// Whether syncing is suspended.
    pub paused: bool,
    /// The role this folder is joined as.
    pub role: &'a str,
    /// Whether that role may take a lease at all.
    pub may_edit: bool,
    /// How many preserved copies are waiting in it.
    pub conflicts: usize,
    /// The path that is marked in the files, if any.
    pub marked_file: Option<&'a str>,
}

// ---------------------------------------------------------------------------
// Heads
// ---------------------------------------------------------------------------

/// The heads, in the order they are ruled across the bar.
#[derive(Clone, Copy, PartialEq, Eq, Debug, Structural)]
pub enum Menu {
    /// The open session's lifecycle and its folder.
    Session,
    /// The operations on a session or on this machine.
    Tools,
    /// Palette, density, motion, text size.
    Display,
    /// The sheet, the colophon, and updates.
    Help,
}

impl Menu {
    /// The heads in reading order.
    pub open spec fn reading_order() -> Seq<Menu> {
        seq![Menu::Session, Menu::Tools, Menu::Display, Menu::Help]
    }

    /// The heads in reading order.
    pub fn all() -> (r: Vec<Menu>)
        ensures
            r@ == Menu::reading_order(),
    {
        let mut r: Vec<Menu> = Vec::new();
        r.push(Menu::Session);
        r.push(Menu::Tools);
        r.push(Menu::Display);
        r.push(Menu::Help);
        proof {
            assert(r@ =~= Menu::reading_order());
        }
        r
    }

    /// The word on the head.
    pub open spec fn head_text(self) -> Chars {
        match self {
            Menu::Session => copy::MENUBAR_SESSION@,
            Menu::Tools => copy::MENUBAR_TOOLS@,
            Menu::Display => copy::MENUBAR_DISPLAY@,
            Menu::Help => copy::MENUBAR_HELP@,
        }
    }

    /// The word on the head.
    pub fn head(self) -> (r: &'static str)
        ensures
            r@ == self.head_text(),
    {
        match self {
            Menu::Session => copy::MENUBAR_SESSION,
            Menu::Tools => copy::MENUBAR_TOOLS,
            Menu::Display => copy::MENUBAR_DISPLAY,
            Menu::Help => copy::MENUBAR_HELP,
        }
    }

    /// The title of the page.
    pub open spec fn title_text(self) -> Chars {
        match self {
            Menu::Session => copy::MENUBAR_SESSION_TITLE@,
            Menu::Tools => copy::MENUBAR_TOOLS_TITLE@,
            Menu::Display => copy::MENUBAR_DISPLAY_TITLE@,
            Menu::Help => copy::MENUBAR_HELP_TITLE@,
        }
    }

    /// The title of the page.
    pub fn title(self) -> (r: &'static str)
        ensures
            r@ == self.title_text(),
    {
        match self {
            Menu::Session => copy::MENUBAR_SESSION_TITLE,
            Menu::Tools => copy::MENUBAR_TOOLS_TITLE,
            Menu::Display => copy::MENUBAR_DISPLAY_TITLE,
            Menu::Help => copy::MENUBAR_HELP_TITLE,
        }
    }

    /// A lasting key for the head's widget.
    pub fn key(self) -> (r: &'static str)
        ensures
            r@ == (match self {
                Menu::Session => "session"@,
                Menu::Tools => "tools"@,
                Menu::Display => "display"@,
                Menu::Help => "help"@,
            }),
    {
        match self {
            Menu::Session => "session",
            Menu::Tools => "tools",
            Menu::Display => "display",
            Menu::Help => "help",
        }
    }
}

/// What was clicked: one of the heads, or the head over the folded ones.
#[derive(Clone, Copy, PartialEq, Eq, Debug, Structural)]
pub enum Trigger {
    /// A head.
    Menu(Menu),
    /// The head over the folded ones.
    More,
}

impl Trigger {
    /// A lasting key for the widget.
    pub fn key(self) -> (r: &'static str)
        ensures
            r@ == (match self {
                Trigger::Menu(Menu::Session) => "session"@,
                Trigger::Menu(Menu::Tools) => "tools"@,
                Trigger::Menu(Menu::Display) => "display"@,
                Trigger::Menu(Menu::Help) => "help"@,
                Trigger::More => "more"@,
            }),
    {
        match self {
            Trigger::Menu(m) => m.key(),
            Trigger::More => "more",
        }
    }

    /// The word on it.
    pub open spec fn label_text(self) -> Chars {
        match self {
            Trigger::Menu(m) => m.head_text(),
            Trigger::More => copy::MENUBAR_MORE@,
        }
    }

    /// The word on it.
    pub fn label(self) -> (r: &'static str)
        ensures
            r@ == self.label_text(),
    {
        match self {
            Trigger::Menu(m) => m.head(),
            Trigger::More => copy::MENUBAR_MORE,
        }
    }

    /// What it is called when it is read out; the first head also speaks the
    /// key that opens the bar.
    pub fn spoken(self, hint: bool) -> (r: String)
        ensures
            r@ == (if hint {
                self.label_text() + " menu"@ + ", "@ + copy::MENUBAR_KEY_HINT@
            } else {
                self.label_text() + " menu"@
            }),
    {
        let mut r: String = copy::menu_spoken(self.label());
        if hint {
            r.append(", ");
            r.append(copy::MENUBAR_KEY_HINT);
        }
        r
    }

    /// Whether its page holds settings and stays open while they are compared.
    pub fn holds_settings(self) -> (r: bool)
        ensures
            r == (self == Trigger::Menu(Menu::Display) || self == Trigger::More),
    {
        match self {
            Trigger::Menu(Menu::Display) => true,
            Trigger::More => true,
            _ => false,
        }
    }
}

// ---------------------------------------------------------------------------
// Lines
// ---------------------------------------------------------------------------

/// How loudly a line speaks.
#[derive(Clone, Copy, PartialEq, Eq, Debug, Structural)]
pub enum Tone {
    /// The ordinary voice.
    Muted,
    /// Something is waiting to be taken up.
    Offer,
    /// Something did not work.
    Trouble,
}

/// One line of a page.
#[derive(Clone, PartialEq, Eq, Debug)]
pub enum Row {
    /// The title of a page.
    Title(&'static str),
    /// The head of a section.
    Head {
        /// The word.
        title: &'static str,
        /// What the section currently reads, where it has a value.
        value: Option<String>,
    },
    /// Something that can be chosen.
    Item(Item),
    /// A line that only reports.
    Note {
        /// What it says.
        text: String,
        /// How loudly.
        tone: Tone,
    },
}

/// One verb, and everything that decides how it is drawn.
#[derive(Clone, PartialEq, Eq, Debug)]
pub struct Item {
    /// What the row reads.
    pub label: String,
    /// What the window is asked for when it is chosen.
    pub action: MenuAction,
    /// The chord that does the same, as the sheet spells it.
    pub chord: Option<String>,
    /// Why it cannot run, where it cannot.
    pub blocked: Option<String>,
    /// `Some(true)` for the choice in force in its group, `Some(false)` for its
    /// siblings, `None` for a plain verb.
    pub choice: Option<bool>,
}

/// An item as a value.
pub struct Entry {
    /// What the row reads.
    pub label: Chars,
    /// What the window is asked for.
    pub action: MenuAction,
    /// The chord that does the same.
    pub chord: Option<Chars>,
    /// Why it cannot run.
    pub blocked: Option<Chars>,
    /// Its place in a group of choices.
    pub choice: Option<bool>,
}

/// A line as a value.
pub enum Line {
    /// The title of a page.
    Title(Chars),
    /// The head of a section, and its value.
    Head(Chars, Option<Chars>),
    /// Something that can be chosen.
    Item(Entry),
    /// A line that only reports, and how loudly.
    Note(Chars, Tone),
}

/// The text behind an optional string.
pub open spec fn maybe(s: Option<String>) -> Option<Chars> {
    match s {
        Some(t) => Some(t@),
        None => None,
    }
}

impl View for Item {
    type V = Entry;

    open spec fn view(&self) -> Entry {
        Entry {
            label: self.label@,
            action: self.action,
            chord: maybe(self.chord),
            blocked: maybe(self.blocked),
            choice: self.choice,
        }
    }
}

impl View for Row {
    type V = Line;

    open spec fn view(&self) -> Line {
        match *self {
            Row::Title(title) => Line::Title(title@),
            Row::Head { title, value } => Line::Head(title@, maybe(value)),
            Row::Item(item) => Line::Item(item@),
            Row::Note { text, tone } => Line::Note(text@, tone),
        }
    }
}

/// The lines of a list of rows.
pub open spec fn lines(rows: Seq<Row>) -> Seq<Line> {
    rows.map_values(|r: Row| r@)
}

impl Item {
    /// Whether this item can be chosen.
    pub fn enabled(&self) -> (r: bool)
        ensures
            r == (self.blocked is None),
    {
        self.blocked.is_none()
    }

    /// Whether the diamond marks this row: it is the choice in force.
    pub fn marked(&self) -> (r: bool)
        ensures
            r == (self.choice == Some(true)),
    {
        match self.choice {
            Some(current) => current,
            None => false,
        }
    }

    /// Whether choosing it takes the page with it: a verb is done, a choice
    /// leaves the page open for the next one.
    pub fn closes_page(&self) -> (r: bool)
        ensures
            r == (self.choice is None),
    {
        self.choice.is_none()
    }
}

/// A plain verb.
pub open spec fn verb_line(label: Chars, action: MenuAction, blocked: Option<Chars>) -> Line {
    Line::Item(Entry { label, action, chord: None, blocked, choice: None })
}

/// A verb with the chord of a shortcut.
pub open spec fn keyed_line(
    label: Chars,
    action: MenuAction,
    blocked: Option<Chars>,
    key: shortcuts::Action,
) -> Line {
    Line::Item(
        Entry { label, action, chord: shortcuts::caps_text(key), blocked, choice: None },
    )
}

/// One of a group of choices.
pub open spec fn choice_line(label: Chars, action: MenuAction, current: bool) -> Line {
    Line::Item(Entry { label, action, chord: None, blocked: None, choice: Some(current) })
}

/// The head of a section without a value.
pub open spec fn head_line(title: Chars) -> Line {
    Line::Head(title, None)
}

fn verb(label: &str, action: MenuAction, blocked: Option<String>) -> (r: Row)
    ensures
        r@ == verb_line(label@, action, maybe(blocked)),
{
    Row::Item(Item { label: label.to_owned(), action, chord: None, blocked, choice: None })
}

fn keyed(
    label: &str,
    action: MenuAction,
    blocked: Option<String>,
    key: shortcuts::Action,
) -> (r: Row)
    ensures
        r@ == keyed_line(label@, action, maybe(blocked), key),
{
    Row::Item(
        Item { label: label.to_owned(), action, chord: chord_caps(key), blocked, choice: None },
    )
}

fn choice(label: &str, action: MenuAction, current: bool) -> (r: Row)
    ensures
        r@ == choice_line(label@, action, current),
{
    Row::Item(
        Item { label: label.to_owned(), action, chord: None, blocked: None, choice: Some(current) },
    )
}

fn head(title: &'static str) -> (r: Row)
    ensures
        r@ == head_line(title@),
{
    Row::Head { title, value: None }
}

fn why(reason: &str) -> (r: Option<String>)
    ensures
        maybe(r) == Some(reason@),
{
    Some(reason.to_owned())
}

// ---------------------------------------------------------------------------
// Refusals
// ---------------------------------------------------------------------------

/// Why the session cannot be started.
pub open spec fn start_refusal(s: Option<SessionState<'_>>) -> Option<Chars> {
    match s {
        None => Some(copy::MENUBAR_NEEDS_SESSION@),
        Some(x) => if x.running {
            Some(copy::MENUBAR_ALREADY_RUNNING@)
        } else {
            None
        },
    }
}

/// Why it cannot be stopped.
pub open spec fn stop_refusal(s: Option<SessionState<'_>>) -> Option<Chars> {
    match s {
        None => Some(copy::MENUBAR_NEEDS_SESSION@),
        Some(x) => if !x.running {
            Some(copy::MENUBAR_NOT_RUNNING@)
        } else {
            None
        },
    }
}

/// Why it cannot be paused.
pub open spec fn pause_refusal(s: Option<SessionState<'_>>) -> Option<Chars> {
    match s {
        None => Some(copy::MENUBAR_NEEDS_SESSION@),
        Some(x) => if !x.running {
            Some(copy::MENUBAR_NEEDS_RUNNING@)
        } else if x.paused {
            Some(copy::MENUBAR_ALREADY_PAUSED@)
        } else {
            None
        },
    }
}

/// Why it cannot be resumed.
pub open spec fn resume_refusal(s: Option<SessionState<'_>>) -> Option<Chars> {
    match s {
        None => Some(copy::MENUBAR_NEEDS_SESSION@),
        Some(x) => if !x.running {
            Some(copy::MENUBAR_NEEDS_RUNNING@)
        } else if !x.paused {
            Some(copy::MENUBAR_NOT_PAUSED@)
        } else {
            None
        },
    }
}

/// Why nothing can be renamed: the first thing in the way.
pub open spec fn rename_refusal(s: Option<SessionState<'_>>) -> Option<Chars> {
    match s {
        None => Some(copy::MENUBAR_NEEDS_SESSION@),
        Some(x) => if !x.running {
            Some(copy::MENUBAR_NEEDS_RUNNING@)
        } else if !x.may_edit {
            Some(copy::role_refusal(x.role@))
        } else if x.marked_file is None {
            Some(copy::MENUBAR_NEEDS_FILE@)
        } else {
            None
        },
    }
}

/// Why what needs only an open session cannot run.
pub open spec fn open_refusal(s: Option<SessionState<'_>>) -> Option<Chars> {
    if s is None {
        Some(copy::MENUBAR_NEEDS_SESSION@)
    } else {
        None
    }
}

/// Why what the daemon answers cannot run.
pub open spec fn live_refusal(s: Option<SessionState<'_>>) -> Option<Chars> {
    match s {
        None => Some(copy::MENUBAR_NEEDS_SESSION@),
        Some(x) => if !x.running {
            Some(copy::MENUBAR_NEEDS_RUNNING@)
        } else {
            None
        },
    }
}

/// Why no preserved copy can be pruned.
pub open spec fn prune_refusal(s: Option<SessionState<'_>>) -> Option<Chars> {
    match s {
        None => Some(copy::MENUBAR_NEEDS_SESSION@),
        Some(x) => if !x.running {
            Some(copy::MENUBAR_NEEDS_RUNNING@)
        } else if x.conflicts == 0 {
            Some(copy::MENUBAR_NO_CONFLICTS@)
        } else {
            None
        },
    }
}

// ---------------------------------------------------------------------------
// Pages
// ---------------------------------------------------------------------------

/// The lifecycle, then the folder. All verbs are listed, whether they can run
/// or not.
pub open spec fn session_lines(s: Option<SessionState<'_>>) -> Seq<Line> {
    seq![
        head_line(copy::MENUBAR_LIFECYCLE@),
        verb_line(copy::MENU_START@, MenuAction::Start, start_refusal(s)),
        verb_line(copy::MENU_STOP@, MenuAction::Stop, stop_refusal(s)),
        verb_line(copy::ACTION_PAUSE@, MenuAction::Pause, pause_refusal(s)),
        verb_line(copy::ACTION_RESUME@, MenuAction::Resume, resume_refusal(s)),
        head_line(copy::MENUBAR_FOLDER@),
        verb_line(copy::MENU_OPEN_FOLDER@, MenuAction::OpenFolder, open_refusal(s)),
        verb_line(copy::MENU_COPY_FOLDER@, MenuAction::CopyPath, open_refusal(s)),
        verb_line(copy::MENU_RENAME@, MenuAction::Rename, rename_refusal(s)),
    ]
}

/// The lines of the session's page.
pub fn session_rows(state: &BarState<'_>) -> (rows: Vec<Row>)
    ensures
        lines(rows@) == session_lines(state.session),
{
    let mut start: Option<String> = None;
    let mut stop: Option<String> = None;
    let mut pause: Option<String> = None;
    let mut resume: Option<String> = None;
    let mut rename: Option<String> = None;
    let mut open: Option<String> = None;
    let mut path: Option<String> = None;
    match &state.session {
        None => {
            start = why(copy::MENUBAR_NEEDS_SESSION);
            stop = why(copy::MENUBAR_NEEDS_SESSION);
            pause = why(copy::MENUBAR_NEEDS_SESSION);
            resume = why(copy::MENUBAR_NEEDS_SESSION);
            rename = why(copy::MENUBAR_NEEDS_SESSION);
            open = why(copy::MENUBAR_NEEDS_SESSION);
            path = why(copy::MENUBAR_NEEDS_SESSION);
        },
        Some(s) => {
            if s.running {
                start = why(copy::MENUBAR_ALREADY_RUNNING);
                if s.paused {
                    pause = why(copy::MENUBAR_ALREADY_PAUSED);
                } else {
                    resume = why(copy::MENUBAR_NOT_PAUSED);
                }
                if !s.may_edit {
                    rename = Some(role_cannot_edit(s.role));
                } else if s.marked_file.is_none() {
                    rename = why(copy::MENUBAR_NEEDS_FILE);
                }
            } else {
                stop = why(copy::MENUBAR_NOT_RUNNING);
                pause = why(copy::MENUBAR_NEEDS_RUNNING);
                resume = why(copy::MENUBAR_NEEDS_RUNNING);
                rename = why(copy::MENUBAR_NEEDS_RUNNING);
            }
        },
    }
    let mut rows: Vec<Row> = Vec::new();
    rows.push(head(copy::MENUBAR_LIFECYCLE));
    rows.push(verb(copy::MENU_START, MenuAction::Start, start));
    rows.push(verb(copy::MENU_STOP, MenuAction::Stop, stop));
    rows.push(verb(copy::ACTION_PAUSE, MenuAction::Pause, pause));
    rows.push(verb(copy::ACTION_RESUME, MenuAction::Resume, resume));
    rows.push(head(copy::MENUBAR_FOLDER));
    rows.push(verb(copy::MENU_OPEN_FOLDER, MenuAction::OpenFolder, open));
    rows.push(verb(copy::MENU_COPY_FOLDER, MenuAction::CopyPath, path));
    rows.push(verb(copy::MENU_RENAME, MenuAction::Rename, rename));
    proof {
        assert(lines(rows@) =~= session_lines(state.session));
    }
    rows
}

/// The operations that need a daemon, then the one that needs only this machine.
pub open spec fn tools_lines(s: Option<SessionState<'_>>, supervisor: bool) -> Seq<Line> {
    seq![
        head_line(copy::MENUBAR_THIS_SESSION@),
        verb_line(copy::MENU_DOCTOR@, MenuAction::Doctor, live_refusal(s)),
        verb_line(copy::MENU_DASHBOARD@, MenuAction::Dashboard, live_refusal(s)),
        verb_line(copy::MENU_GC@, MenuAction::Gc, live_refusal(s)),
        verb_line(copy::MENU_REKEY@, MenuAction::Rekey, open_refusal(s)),
        verb_line(copy::MENU_PRUNE@, MenuAction::Prune, prune_refusal(s)),
        head_line(copy::MENUBAR_THIS_MACHINE@),
        if supervisor {
            verb_line(
                copy::SUPERVISOR_REMOVE@,
                MenuAction::Supervisor { install: false },
                None,
            )
        } else {
            verb_line(
                copy::SUPERVISOR_INSTALL@,
                MenuAction::Supervisor { install: true },
                None,
            )
        },
    ]
}

fn live_block(s: &Option<SessionState<'_>>) -> (r: Option<String>)
    ensures
        maybe(r) == live_refusal(*s),
{
    match s {
        None => why(copy::MENUBAR_NEEDS_SESSION),
        Some(x) => if !x.running {
            why(copy::MENUBAR_NEEDS_RUNNING)
        } else {
            None
        },
    }
}

/// The lines of the tools' page.
pub fn tools_rows(state: &BarState<'_>) -> (rows: Vec<Row>)
    ensures
        lines(rows@) == tools_lines(state.session, state.supervisor),
{
    let rekey: Option<String> = if state.session.is_none() {
        why(copy::MENUBAR_NEEDS_SESSION)
    } else {
        None
    };
    let prune: Option<String> = match &state.session {
        Some(s) => if s.running && s.conflicts == 0 {
            why(copy::MENUBAR_NO_CONFLICTS)
        } else {
            live_block(&state.session)
        },
        None => live_block(&state.session),
    };
    let mut rows: Vec<Row> = Vec::new();
    rows.push(head(copy::MENUBAR_THIS_SESSION));
    rows.push(verb(copy::MENU_DOCTOR, MenuAction::Doctor, live_block(&state.session)));
    rows.push(verb(copy::MENU_DASHBOARD, MenuAction::Dashboard, live_block(&state.session)));
    rows.push(verb(copy::MENU_GC, MenuAction::Gc, live_block(&state.session)));
    rows.push(verb(copy::MENU_REKEY, MenuAction::Rekey, rekey));
    rows.push(verb(copy::MENU_PRUNE, MenuAction::Prune, prune));
    rows.push(head(copy::MENUBAR_THIS_MACHINE));
    if state.supervisor {
        rows.push(
            verb(copy::SUPERVISOR_REMOVE, MenuAction::Supervisor { install: false }, None),
        );
    } else {
        rows.push(
            verb(copy::SUPERVISOR_INSTALL, MenuAction::Supervisor { install: true }, None),
        );
    }
    proof {
        assert(lines(rows@) =~= tools_lines(state.session, state.supervisor));
    }
    rows
}

/// The palettes, the one in force marked.
pub open spec fn palette_lines(mode: Mode) -> Seq<Line> {
    Mode::offered().map_values(
        |m: Mode| choice_line(m.name(), MenuAction::Palette(m), m == mode),
    )
}

/// The densities, the one in force marked.
pub open spec fn density_lines(density: Density) -> Seq<Line> {
    Density::offered().map_values(
        |d: Density| choice_line(d.name(), MenuAction::Density(d), d == density),
    )
}

/// The motion settings, the one in force marked.
pub open spec fn motion_lines(reduced: bool) -> Seq<Line> {
    seq![
        choice_line(copy::MOTION_FULL@, MenuAction::Motion { reduced: false }, !reduced),
        choice_line(copy::MOTION_REDUCED@, MenuAction::Motion { reduced: true }, reduced),
    ]
}

/// Refused where the step would not move.
pub open spec fn unless(moves: bool, reason: Chars) -> Option<Chars> {
    if moves {
        None
    } else {
        Some(reason)
    }
}

/// The text size: what it is, and the steps from it.
pub open spec fn text_lines(scale: int) -> Seq<Line> {
    let bigger = a11y::stepped(scale, true);
    let smaller = a11y::stepped(scale, false);
    seq![
        Line::Head(
            copy::MENUBAR_TEXT@,
            Some(text::dec(a11y::scale_percent(scale)) + "%"@),
        ),
        keyed_line(
            copy::MENU_TEXT_BIGGER@,
            MenuAction::TextScale(bigger as i32),
            unless(bigger != scale, copy::MENUBAR_TEXT_AT_MAX@),
            shortcuts::Action::TextBigger,
        ),
        keyed_line(
            copy::MENU_TEXT_SMALLER@,
            MenuAction::TextScale(smaller as i32),
            unless(smaller != scale, copy::MENUBAR_TEXT_AT_MIN@),
            shortcuts::Action::TextSmaller,
        ),
        keyed_line(
            copy::MENU_TEXT_RESET@,
            MenuAction::TextScale(SCALE_DEFAULT),
            unless(scale != SCALE_DEFAULT, copy::MENUBAR_TEXT_AT_DEFAULT@),
            shortcuts::Action::TextReset,
        ),
    ]
}

/// The window's own appearance.
pub open spec fn display_lines(
    mode: Mode,
    density: Density,
    reduced: bool,
    scale: Option<i32>,
) -> Seq<Line> {
    seq![head_line(copy::MENUBAR_PALETTE@)] + palette_lines(mode) + seq![
        head_line(copy::MENUBAR_DENSITY@),
    ] + density_lines(density) + seq![head_line(copy::MENUBAR_MOTION@)] + motion_lines(reduced)
        + text_lines(a11y::clamped(a11y::asked(scale)))
}

fn unless_moving(moves: bool, reason: &str) -> (r: Option<String>)
    ensures
        maybe(r) == unless(moves, reason@),
{
    if moves {
        None
    } else {
        why(reason)
    }
}

/// The lines of the display's page.
pub fn display_rows(state: &BarState<'_>) -> (rows: Vec<Row>)
    ensures
        lines(rows@) == display_lines(
            state.mode,
            state.density,
            state.reduced_motion,
            state.text_scale,
        ),
{
    let mut rows: Vec<Row> = Vec::new();
    rows.push(head(copy::MENUBAR_PALETTE));
    let modes: Vec<Mode> = Mode::all();
    let mut i: usize = 0;
    while i < modes.len()
        invariant
            i <= modes.len(),
            modes@ == Mode::offered(),
            lines(rows@) == seq![head_line(copy::MENUBAR_PALETTE@)] + palette_lines(
                state.mode,
            ).take(i as int),
        decreases modes.len() - i,
    {
        let m: Mode = modes[i];
        let ghost before = rows@;
        rows.push(choice(m.label(), MenuAction::Palette(m), m == state.mode));
        proof {
            assert(lines(rows@) =~= lines(before).push(rows@.last()@));
            assert(palette_lines(state.mode).take(i + 1) =~= palette_lines(state.mode).take(
                i as int,
            ).push(rows@.last()@));
        }
        i = i + 1;
    }
    rows.push(head(copy::MENUBAR_DENSITY));
    let ghost upto = lines(rows@);
    proof {
        assert(palette_lines(state.mode).take(i as int) =~= palette_lines(state.mode));
        assert(upto =~= seq![head_line(copy::MENUBAR_PALETTE@)] + palette_lines(state.mode) + seq![
            head_line(copy::MENUBAR_DENSITY@),
        ]);
    }
    let densities: Vec<Density> = Density::all();
    let mut j: usize = 0;
    while j < densities.len()
        invariant
            j <= densities.len(),
            densities@ == Density::offered(),
            lines(rows@) == upto + density_lines(state.density).take(j as int),
        decreases densities.len() - j,
    {
        let d: Density = densities[j];
        let ghost before = rows@;
        rows.push(choice(d.label(), MenuAction::Density(d), d == state.density));
        proof {
            assert(lines(rows@) =~= lines(before).push(rows@.last()@));
            assert(density_lines(state.density).take(j + 1) =~= density_lines(state.density).take(
                j as int,
            ).push(rows@.last()@));
        }
        j = j + 1;
    }
    proof {
        assert(density_lines(state.density).take(j as int) =~= density_lines(state.density));
    }
    let ghost settled = rows@;
    rows.push(head(copy::MENUBAR_MOTION));
    rows.push(
        choice(copy::MOTION_FULL, MenuAction::Motion { reduced: false }, !state.reduced_motion),
    );
    rows.push(
        choice(copy::MOTION_REDUCED, MenuAction::Motion { reduced: true }, state.reduced_motion),
    );
    let scale: i32 = clamp_scale(state.text_scale);
    let bigger: i32 = step_scale(Some(scale), true);
    let smaller: i32 = step_scale(Some(scale), false);
    rows.push(Row::Head { title: copy::MENUBAR_TEXT, value: Some(scale_label(Some(scale))) });
    rows.push(
        keyed(
            copy::MENU_TEXT_BIGGER,
            MenuAction::TextScale(bigger),
            unless_moving(bigger != scale, copy::MENUBAR_TEXT_AT_MAX),
            shortcuts::Action::TextBigger,
        ),
    );
    rows.push(
        keyed(
            copy::MENU_TEXT_SMALLER,
            MenuAction::TextScale(smaller),
            unless_moving(smaller != scale, copy::MENUBAR_TEXT_AT_MIN),
            shortcuts::Action::TextSmaller,
        ),
    );
    rows.push(
        keyed(
            copy::MENU_TEXT_RESET,
            MenuAction::TextScale(SCALE_DEFAULT),
            unless_moving(scale != SCALE_DEFAULT, copy::MENUBAR_TEXT_AT_DEFAULT),
            shortcuts::Action::TextReset,
        ),
    );
    proof {
        a11y::law_clamp_is_idempotent(a11y::asked(state.text_scale));
        assert(lines(rows@) =~= lines(settled) + seq![head_line(copy::MENUBAR_MOTION@)]
            + motion_lines(state.reduced_motion) + text_lines(scale as int));
    }
    rows
}

/// The update block: one verb, and the line that says where the window stands.
pub open spec fn update_lines(u: UpdateState, now: nat) -> Seq<Line> {
    let action = if u.busy {
        verb_line(
            copy::MENU_UPDATE_CHECKING@,
            MenuAction::CheckUpdate,
            Some(copy::MENUBAR_UPDATE_BUSY@),
        )
    } else if u.is_available() {
        verb_line(copy::install_text(u.release()), MenuAction::ApplyUpdate, None)
    } else {
        verb_line(copy::MENU_UPDATE_CHECK@, MenuAction::CheckUpdate, None)
    };
    seq![action, update_note(u, now)]
}

/// The line that says where the window stands with updates.
pub open spec fn update_note(u: UpdateState, now: nat) -> Line {
    match u.error {
        Some(reason) => Line::Note(copy::failed_text(reason@), Tone::Trouble),
        None => if u.busy {
            Line::Note(copy::UPDATE_CHECKING_NOTE@, Tone::Muted)
        } else if u.applied {
            Line::Note(copy::applied_text(u.release()), Tone::Offer)
        } else if u.is_available() {
            Line::Note(copy::offer_text(u.current@, u.release()), Tone::Offer)
        } else {
            match u.checked_at {
                Some(at) => Line::Note(
                    copy::up_to_date_text(
                        u.current@,
                        figures::ago_text(figures::elapsed(at as nat, now)),
                    ),
                    Tone::Muted,
                ),
                None => Line::Note(copy::unchecked_text(u.current@), Tone::Muted),
            }
        },
    }
}

/// The lines of the update block. `now` is in seconds since the window opened.
pub fn update_rows(update: &UpdateState, now: u64) -> (rows: Vec<Row>)
    ensures
        lines(rows@) == update_lines(*update, now as nat),
{
    let latest: &str = update.latest_or_current();
    let action: Row = if update.busy {
        verb(
            copy::MENU_UPDATE_CHECKING,
            MenuAction::CheckUpdate,
            why(copy::MENUBAR_UPDATE_BUSY),
        )
    } else if update.available() {
        verb(copy::menu_update_install(latest).as_str(), MenuAction::ApplyUpdate, None)
    } else {
        verb(copy::MENU_UPDATE_CHECK, MenuAction::CheckUpdate, None)
    };
    let (text, tone): (String, Tone) = match &update.error {
        Some(reason) => (copy::update_failed(reason.as_str()), Tone::Trouble),
        None => if update.busy {
            (copy::UPDATE_CHECKING_NOTE.to_owned(), Tone::Muted)
        } else if update.applied {
            (copy::update_applied(latest), Tone::Offer)
        } else if update.available() {
            (copy::update_offer(update.current.as_str(), latest), Tone::Offer)
        } else {
            match update.checked_at {
                Some(at) => {
                    let when: String = ago(at, now);
                    (
                        copy::update_up_to_date(update.current.as_str(), when.as_str()),
                        Tone::Muted,
                    )
                },
                None => (copy::update_unchecked(update.current.as_str()), Tone::Muted),
            }
        },
    };
    let mut rows: Vec<Row> = Vec::new();
    rows.push(action);
    rows.push(Row::Note { text, tone });
    proof {
        assert(lines(rows@) =~= update_lines(*update, now as nat));
    }
    rows
}

/// The sheet, the colophon, and the updates.
pub open spec fn help_lines(u: UpdateState, now: nat) -> Seq<Line> {
    seq![
        head_line(copy::MENUBAR_KEYBOARD@),
        keyed_line(copy::MENU_KEYS@, MenuAction::Shortcuts, None, shortcuts::Action::Sheet),
        head_line(copy::MENUBAR_ABOUT@),
        verb_line(copy::MENU_ABOUT@, MenuAction::Colophon, None),
        head_line(copy::MENUBAR_UPDATES@),
    ] + update_lines(u, now)
}

/// The lines of the help page.
pub fn help_rows(state: &BarState<'_>, now: u64) -> (rows: Vec<Row>)
    ensures
        lines(rows@) == help_lines(*state.update, now as nat),
{
    let mut rows: Vec<Row> = Vec::new();
    rows.push(head(copy::MENUBAR_KEYBOARD));
    rows.push(keyed(copy::MENU_KEYS, MenuAction::Shortcuts, None, shortcuts::Action::Sheet));
    rows.push(head(copy::MENUBAR_ABOUT));
    rows.push(verb(copy::MENU_ABOUT, MenuAction::Colophon, None));
    rows.push(head(copy::MENUBAR_UPDATES));
    let ghost first = rows@;
    let mut more: Vec<Row> = update_rows(state.update, now);
    let ghost block = more@;
    rows.append(&mut more);
    proof {
        assert(lines(rows@) =~= lines(first) + lines(block));
        assert(lines(rows@) =~= help_lines(*state.update, now as nat));
    }
    rows
}

/// The lines of a menu.
pub open spec fn menu_lines(menu: Menu, state: BarState<'_>, now: nat) -> Seq<Line> {
    match menu {
        Menu::Session => session_lines(state.session),
        Menu::Tools => tools_lines(state.session, state.supervisor),
        Menu::Display => display_lines(
            state.mode,
            state.density,
            state.reduced_motion,
            state.text_scale,
        ),
        Menu::Help => help_lines(*state.update, now),
    }
}

/// Every row of one menu, in reading order.
pub fn rows(menu: Menu, state: &BarState<'_>, now: u64) -> (r: Vec<Row>)
    ensures
        lines(r@) == menu_lines(menu, *state, now as nat),
{
    match menu {
        Menu::Session => session_rows(state),
        Menu::Tools => tools_rows(state),
        Menu::Display => display_rows(state),
        Menu::Help => help_rows(state, now),
    }
}

/// A menu as a page: its title, then its lines.
pub open spec fn leaf_lines(menu: Menu, state: BarState<'_>, now: nat) -> Seq<Line> {
    seq![Line::Title(menu.title_text())] + menu_lines(menu, state, now)
}

/// Several menus on one page.
pub open spec fn leaves(menus: Seq<Menu>, state: BarState<'_>, now: nat) -> Seq<Line>
    decreases menus.len(),
{
    if menus.len() == 0 {
        Seq::empty()
    } else {
        leaves(menus.drop_last(), state, now) + leaf_lines(menus.last(), state, now)
    }
}

fn leaf(menu: Menu, state: &BarState<'_>, now: u64) -> (page: Vec<Row>)
    ensures
        lines(page@) == leaf_lines(menu, *state, now as nat),
{
    let mut page: Vec<Row> = Vec::new();
    page.push(Row::Title(menu.title()));
    let mut body: Vec<Row> = rows(menu, state, now);
    let ghost b = body@;
    page.append(&mut body);
    proof {
        assert(lines(page@) =~= seq![Line::Title(menu.title_text())] + lines(b));
    }
    page
}

/// The rows behind one head, as a page: its title first, then its sections. The
/// head over the folded menus carries all of them on one page, each under its
/// own title.
pub fn content_of(
    trigger: Trigger,
    folded: &[Menu],
    state: &BarState<'_>,
    now: u64,
) -> (page: Vec<Row>)
    ensures
        lines(page@) == (match trigger {
            Trigger::Menu(m) => leaf_lines(m, *state, now as nat),
            Trigger::More => leaves(folded@, *state, now as nat),
        }),
{
    match trigger {
        Trigger::Menu(m) => leaf(m, state, now),
        Trigger::More => {
            let mut page: Vec<Row> = Vec::new();
            let mut i: usize = 0;
            proof {
                assert(lines(page@) =~= leaves(folded@.take(0), *state, now as nat));
            }
            while i < folded.len()
                invariant
                    i <= folded@.len(),
                    lines(page@) == leaves(folded@.take(i as int), *state, now as nat),
                decreases folded@.len() - i,
            {
                let mut next: Vec<Row> = leaf(folded[i], state, now);
                let ghost before = page@;
                let ghost body = next@;
                page.append(&mut next);
                proof {
                    assert(lines(page@) =~= lines(before) + lines(body));
                    assert(folded@.take(i + 1).drop_last() =~= folded@.take(i as int));
                }
                i = i + 1;
            }
            proof {
                assert(folded@.take(i as int) =~= folded@);
            }
            page
        },
    }
}

/// The folio of the page with that title: its place in reading order, or none
/// for a title that is no menu's.
pub fn folio_of(title: &str) -> (r: Option<&'static str>)
    ensures
        match r {
            Some(f) => exists|i: int|
                0 <= i < 4 && (#[trigger] Menu::reading_order()[i]).title_text() == title@
                    && copy::folio_numeral(i) == Some(f@) && forall|j: int|
                    0 <= j < i ==> (#[trigger] Menu::reading_order()[j]).title_text() != title@,
            None => forall|i: int|
                0 <= i < 4 ==> (#[trigger] Menu::reading_order()[i]).title_text() != title@,
        },
{
    let all: Vec<Menu> = Menu::all();
    let mut i: usize = 0;
    while i < all.len()
        invariant
            i <= all.len(),
            all@ == Menu::reading_order(),
            all.len() == 4,
            forall|j: int|
                0 <= j < i ==> (#[trigger] Menu::reading_order()[j]).title_text() != title@,
        decreases all.len() - i,
    {
        if same(all[i].title(), title) {
            proof {
                assert(Menu::reading_order()[i as int].title_text() == title@);
            }
            return copy::menubar_folio(i);
        }
        i = i + 1;
    }
    None
}

/// What the help head reports on its own face: an offer outranks a failure.
pub open spec fn mark_for(u: UpdateState) -> Option<Tone> {
    if u.is_available() || u.applied {
        Some(Tone::Offer)
    } else if u.error is Some {
        Some(Tone::Trouble)
    } else {
        None
    }
}

/// What the help head reports without being opened.
pub fn update_mark(update: &UpdateState) -> (r: Option<Tone>)
    ensures
        r == mark_for(*update),
{
    if update.available() || update.applied {
        Some(Tone::Offer)
    } else if update.error.is_some() {
        Some(Tone::Trouble)
    } else {
        None
    }
}

/// The mark that a head carries.
pub open spec fn mark_on(menu: Menu, mark: Option<Tone>) -> Option<Tone> {
    if menu == Menu::Help {
        mark
    } else {
        None
    }
}

/// The mark that a head carries.
pub fn mark_of(menu: Menu, mark: Option<Tone>) -> (r: Option<Tone>)
    ensures
        r == mark_on(menu, mark),
{
    match menu {
        Menu::Help => mark,
        _ => None,
    }
}

/// The mark that the head over the folded menus carries: what one of them would
/// have carried.
pub fn folded_mark(folded: &[Menu], mark: Option<Tone>) -> (r: Option<Tone>)
    ensures
        r == (if folded@.contains(Menu::Help) {
            mark
        } else {
            None
        }),
{
    let mut i: usize = 0;
    while i < folded.len()
        invariant
            i <= folded@.len(),
            forall|j: int| 0 <= j < i ==> folded@[j] != Menu::Help,
        decreases folded@.len() - i,
    {
        if folded[i] == Menu::Help {
            return mark;
        }
        i = i + 1;
    }
    None
}

// ---------------------------------------------------------------------------
// Laws of the content
// ---------------------------------------------------------------------------

/// Of start and stop, and of pause and resume, at most one can run; of start
/// and stop, in an open session, exactly one.
pub proof fn law_opposite_verbs_exclude_each_other(s: Option<SessionState<'_>>)
    ensures
        pause_refusal(s) is Some || resume_refusal(s) is Some,
        start_refusal(s) is Some || stop_refusal(s) is Some,
        s is Some ==> (start_refusal(s) is None <==> stop_refusal(s) is Some),
        s is Some && (s->0).running ==> (pause_refusal(s) is None <==> resume_refusal(s) is Some),
{
}

/// With no session open, every verb of the session's page gives that reason.
pub proof fn law_without_a_session_every_verb_says_so(i: int)
    requires
        0 <= i < session_lines(None).len(),
    ensures
        match session_lines(None)[i] {
            Line::Item(e) => e.blocked == Some(copy::MENUBAR_NEEDS_SESSION@),
            _ => true,
        },
{
}

/// A stopped session refuses what its daemon would answer, but can still be
/// rekeyed.
pub proof fn law_a_stopped_session_needs_its_daemon(s: SessionState<'_>)
    requires
        !s.running,
    ensures
        live_refusal(Some(s)) == Some(copy::MENUBAR_NEEDS_RUNNING@),
        open_refusal(Some(s)) is None,
{
}

/// How many of the lines are marked as the choice in force.
pub open spec fn marked_count(ls: Seq<Line>) -> nat
    decreases ls.len(),
{
    if ls.len() == 0 {
        0
    } else {
        marked_count(ls.drop_last()) + match ls.last() {
            Line::Item(e) => if e.choice == Some(true) {
                1
            } else {
                0nat
            },
            _ => 0,
        }
    }
}

/// In each group of choices exactly one is marked.
pub proof fn law_exactly_one_choice_per_group(mode: Mode, density: Density, reduced: bool)
    ensures
        marked_count(palette_lines(mode)) == 1,
        marked_count(density_lines(density)) == 1,
        marked_count(motion_lines(reduced)) == 1,
{
    reveal_with_fuel(marked_count, 4);
    let p = palette_lines(mode);
    assert(p.drop_last().drop_last().drop_last() =~= Seq::<Line>::empty());
    assert(p.drop_last().drop_last().last() == p[0]);
    assert(p.drop_last().last() == p[1]);
    let d = density_lines(density);
    assert(d.drop_last().drop_last().drop_last() =~= Seq::<Line>::empty());
    assert(d.drop_last().drop_last().last() == d[0]);
    assert(d.drop_last().last() == d[1]);
    let m = motion_lines(reduced);
    assert(m.drop_last().drop_last() =~= Seq::<Line>::empty());
    assert(m.drop_last().last() == m[0]);
}

/// Every menu opens with the head of a section.
pub proof fn law_every_menu_opens_with_a_head(menu: Menu, state: BarState<'_>, now: nat)
    ensures
        menu_lines(menu, state, now).len() > 1,
        menu_lines(menu, state, now)[0] is Head,
        leaf_lines(menu, state, now)[0] == Line::Title(menu.title_text()),
{
}

/// A failure never hides a release that was found: the head shows the offer,
/// and the page still installs it.
pub proof fn law_an_offer_outranks_a_failure(u: UpdateState, now: nat)
    requires
        u.is_available(),
    ensures
        mark_for(u) == Some(Tone::Offer),
        !u.busy ==> update_lines(u, now)[0] == verb_line(
            copy::install_text(u.release()),
            MenuAction::ApplyUpdate,
            None,
        ),
{
}

/// A failed check can be tried again, unless a release is on offer or a check
/// is running.
pub proof fn law_a_failed_check_stays_retryable(u: UpdateState, now: nat)
    requires
        u.error is Some,
        !u.busy,
        !u.is_available(),
    ensures
        update_lines(u, now)[0] == verb_line(
            copy::MENU_UPDATE_CHECK@,
            MenuAction::CheckUpdate,
            None,
        ),
{
}

/// The text steppers are refused exactly at the ends of the scale, and the reset
/// exactly at the default.
pub proof fn law_text_steppers_stop_at_the_ends(scale: int)
    requires
        a11y::SCALE_MIN <= scale <= a11y::SCALE_MAX,
    ensures
        unless(a11y::stepped(scale, true) != scale, copy::MENUBAR_TEXT_AT_MAX@) is Some <==> scale
            == a11y::SCALE_MAX,
        unless(a11y::stepped(scale, false) != scale, copy::MENUBAR_TEXT_AT_MIN@) is Some <==> scale
            == a11y::SCALE_MIN,
{
}

// ---------------------------------------------------------------------------
// What can run
// ---------------------------------------------------------------------------

/// Whether a verb has what it needs: a session, its daemon, its pause, a role
/// that may edit, a marked file, preserved copies.
pub open spec fn has_its_needs(action: MenuAction, s: Option<SessionState<'_>>) -> bool {
    match action {
        MenuAction::Start => s is Some && !(s->0).running,
        MenuAction::Stop => s is Some && (s->0).running,
        MenuAction::Pause => s is Some && (s->0).running && !(s->0).paused,
        MenuAction::Resume => s is Some && (s->0).running && (s->0).paused,
        MenuAction::OpenFolder | MenuAction::CopyPath | MenuAction::Rekey => s is Some,
        MenuAction::Rename => s is Some && (s->0).running && (s->0).may_edit
            && (s->0).marked_file is Some,
        MenuAction::Doctor | MenuAction::Dashboard | MenuAction::Gc => s is Some
            && (s->0).running,
        MenuAction::Prune => s is Some && (s->0).running && (s->0).conflicts > 0,
        _ => true,
    }
}

/// A verb of the session's page or of the tools' can be chosen exactly when it
/// has what it needs. In a running session whose role may edit, with a file
/// marked, a rename is not refused.
pub proof fn law_a_verb_runs_when_it_has_its_needs(
    menu: Menu,
    state: BarState<'_>,
    now: nat,
    i: int,
)
    requires
        menu == Menu::Session || menu == Menu::Tools,
        0 <= i < menu_lines(menu, state, now).len(),
        menu_lines(menu, state, now)[i] is Item,
    ensures
        ({
            let e = menu_lines(menu, state, now)[i]->Item_0;
            &&& e.blocked is None <==> has_its_needs(e.action, state.session)
            &&& e.choice is None
            &&& e.chord is None
        }),
{
}

/// A verb stands on the page under its own word.
pub open spec fn lists(ls: Seq<Line>, i: int, label: Chars, action: MenuAction) -> bool {
    0 <= i < ls.len() && match ls[i] {
        Line::Item(e) => e.label == label && e.action == action,
        _ => false,
    }
}

/// Both pages list their verbs in one order whatever the state is: nothing is
/// hidden because it cannot run.
pub proof fn law_every_verb_is_listed(state: BarState<'_>, now: nat)
    ensures
        ({
            let p = menu_lines(Menu::Session, state, now);
            &&& p.len() == 9
            &&& lists(p, 1, copy::MENU_START@, MenuAction::Start)
            &&& lists(p, 2, copy::MENU_STOP@, MenuAction::Stop)
            &&& lists(p, 3, copy::ACTION_PAUSE@, MenuAction::Pause)
            &&& lists(p, 4, copy::ACTION_RESUME@, MenuAction::Resume)
            &&& lists(p, 6, copy::MENU_OPEN_FOLDER@, MenuAction::OpenFolder)
            &&& lists(p, 7, copy::MENU_COPY_FOLDER@, MenuAction::CopyPath)
            &&& lists(p, 8, copy::MENU_RENAME@, MenuAction::Rename)
        }),
        ({
            let p = menu_lines(Menu::Tools, state, now);
            &&& p.len() == 8
            &&& lists(p, 1, copy::MENU_DOCTOR@, MenuAction::Doctor)
            &&& lists(p, 2, copy::MENU_DASHBOARD@, MenuAction::Dashboard)
            &&& lists(p, 3, copy::MENU_GC@, MenuAction::Gc)
            &&& lists(p, 4, copy::MENU_REKEY@, MenuAction::Rekey)
            &&& lists(p, 5, copy::MENU_PRUNE@, MenuAction::Prune)
            &&& state.supervisor ==> lists(
                p,
                7,
                copy::SUPERVISOR_REMOVE@,
                MenuAction::Supervisor { install: false },
            )
            &&& !state.supervisor ==> lists(
                p,
                7,
                copy::SUPERVISOR_INSTALL@,
                MenuAction::Supervisor { install: true },
            )
        }),
{
}

/// A refusal names the first thing that is missing: the session, then its
/// daemon, then what the verb itself asks for.
pub proof fn law_a_refusal_names_what_is_missing(
    menu: Menu,
    state: BarState<'_>,
    now: nat,
    i: int,
)
    requires
        menu == Menu::Session || menu == Menu::Tools,
        0 <= i < menu_lines(menu, state, now).len(),
        menu_lines(menu, state, now)[i] is Item,
        !has_its_needs(menu_lines(menu, state, now)[i]->Item_0.action, state.session),
    ensures
        ({
            let e = menu_lines(menu, state, now)[i]->Item_0;
            let said = e.blocked->0;
            &&& e.blocked is Some
            &&& state.session is None ==> said == copy::MENUBAR_NEEDS_SESSION@
            &&& state.session is Some ==> {
                let s = state.session->0;
                &&& e.action == MenuAction::Start ==> said == copy::MENUBAR_ALREADY_RUNNING@
                &&& e.action == MenuAction::Stop ==> said == copy::MENUBAR_NOT_RUNNING@
                &&& e.action != MenuAction::Start && e.action != MenuAction::Stop && !s.running
                    ==> said == copy::MENUBAR_NEEDS_RUNNING@
                &&& s.running && e.action == MenuAction::Pause ==> said
                    == copy::MENUBAR_ALREADY_PAUSED@
                &&& s.running && e.action == MenuAction::Resume ==> said
                    == copy::MENUBAR_NOT_PAUSED@
                &&& s.running && e.action == MenuAction::Prune ==> said
                    == copy::MENUBAR_NO_CONFLICTS@
                &&& s.running && e.action == MenuAction::Rename && s.may_edit ==> said
                    == copy::MENUBAR_NEEDS_FILE@
                &&& s.running && e.action == MenuAction::Rename && !s.may_edit ==> said
                    == "this folder is joined as "@ + s.role@
                    + ", which cannot take a lease — rejoin with an editor invite to make changes here"@
            }
        }),
{
}

/// Every setting on the display's page asks for itself, can always be chosen
/// where it is a choice, and is marked exactly where it is in force.
pub proof fn law_a_choice_is_marked_where_it_is_in_force(state: BarState<'_>, now: nat, i: int)
    requires
        0 <= i < menu_lines(Menu::Display, state, now).len(),
        menu_lines(Menu::Display, state, now)[i] is Item,
    ensures
        ({
            let e = menu_lines(Menu::Display, state, now)[i]->Item_0;
            match e.action {
                MenuAction::Palette(m) => e.label == m.name() && e.blocked is None && e.choice
                    == Some(m == state.mode),
                MenuAction::Density(d) => e.label == d.name() && e.blocked is None && e.choice
                    == Some(d == state.density),
                MenuAction::Motion { reduced } => e.blocked is None && e.choice == Some(
                    reduced == state.reduced_motion,
                ),
                MenuAction::TextScale(to) => e.choice is None && (e.blocked is None <==> to
                    != a11y::clamped(a11y::asked(state.text_scale))),
                _ => false,
            }
        }),
{
    let scale = a11y::clamped(a11y::asked(state.text_scale));
    let d = display_lines(state.mode, state.density, state.reduced_motion, state.text_scale);
    let np = palette_lines(state.mode).len() as int;
    let nd = density_lines(state.density).len() as int;
    if 1 <= i < 1 + np {
        assert(d[i] == palette_lines(state.mode)[i - 1]);
    } else if 2 + np <= i < 2 + np + nd {
        assert(d[i] == density_lines(state.density)[i - 2 - np]);
    } else if i >= 3 + np + nd && i < 5 + np + nd {
        assert(d[i] == motion_lines(state.reduced_motion)[i - 3 - np - nd]);
    } else if i >= 5 + np + nd {
        assert(d[i] == text_lines(scale)[i - 5 - np - nd]);
        a11y::law_step_lands_on_a_notch(scale, true);
        a11y::law_step_lands_on_a_notch(scale, false);
    }
}

/// The verb of the update block: none while a check runs, the install of what
/// was found, and else another check.
pub proof fn law_the_update_verb(u: UpdateState, now: nat)
    ensures
        update_lines(u, now).len() == 2,
        update_lines(u, now)[0] is Item,
        update_lines(u, now)[1] is Note,
        ({
            let e = update_lines(u, now)[0]->Item_0;
            let newer = u.latest is Some && (u.latest->0)@ != u.current@;
            &&& e.blocked is Some <==> u.busy
            &&& e.action == MenuAction::ApplyUpdate <==> !u.busy && newer
            &&& e.action == MenuAction::ApplyUpdate || e.action == MenuAction::CheckUpdate
            &&& e.action == MenuAction::ApplyUpdate ==> e.label == "Install "@ + (u.latest->0)@
        }),
{
}

/// The note of the update block is in trouble exactly after a failed check, and
/// names the failure; else it is an offer exactly where a release was installed
/// or found and no check is running.
pub proof fn law_the_update_note_speaks_of_what_happened(u: UpdateState, now: nat)
    ensures
        ({
            let note = update_lines(u, now)[1];
            let newer = u.latest is Some && (u.latest->0)@ != u.current@;
            &&& note->Note_1 == Tone::Trouble <==> u.error is Some
            &&& u.error is Some ==> note->Note_0 == "the check did not finish: "@ + (u.error->0)@
            &&& note->Note_1 == Tone::Offer <==> u.error is None && !u.busy && (u.applied || newer)
            &&& u.error is None && !u.busy && u.applied && u.latest is Some ==> note->Note_0 == (
            u.latest->0)@ + " is installed and takes effect on the next start"@
            &&& u.error is None && !u.busy && !u.applied && newer ==> note->Note_0 == (
            u.latest->0)@ + " is available — this window runs "@ + u.current@
            &&& u.error is None && !u.busy && !u.applied && !newer && u.checked_at is None
                ==> note->Note_0 == u.current@ + " — not checked since this window opened"@
            &&& u.error is None && !u.busy && !u.applied && !newer && u.checked_at is Some
                ==> note->Note_0 == u.current@ + " is the latest release — checked "@
                + figures::ago_text(figures::elapsed(u.checked_at->0 as nat, now))
        }),
{
}

/// The help head is marked for an offer where something newer was found or
/// installed, for trouble where only a failure is to be told, and not at all
/// else; no other head is ever marked.
pub proof fn law_the_help_head_tells_the_news(u: UpdateState, menu: Menu)
    ensures
        ({
            let newer = u.latest is Some && (u.latest->0)@ != u.current@;
            &&& mark_on(Menu::Help, mark_for(u)) == Some(Tone::Offer) <==> newer || u.applied
            &&& mark_on(Menu::Help, mark_for(u)) == Some(Tone::Trouble) <==> !newer && !u.applied
                && u.error is Some
            &&& mark_for(u) != Some(Tone::Muted)
            &&& menu != Menu::Help ==> mark_on(menu, mark_for(u)) is None
        }),
{
}

/// A page of several menus is their pages one behind the other, each with its
/// title first.
pub proof fn law_folded_menus_keep_their_pages(
    before: Seq<Menu>,
    menu: Menu,
    after: Seq<Menu>,
    state: BarState<'_>,
    now: nat,
)
    ensures
        leaves(before + seq![menu] + after, state, now) == leaves(before, state, now) + (seq![
            Line::Title(menu.title_text()),
        ] + menu_lines(menu, state, now)) + leaves(after, state, now),
        leaves(Seq::empty(), state, now).len() == 0,
    decreases after.len(),
{
    let all = before + seq![menu] + after;
    if after.len() == 0 {
        assert(all.drop_last() =~= before);
        assert(all.last() == menu);
        assert(leaves(all, state, now) =~= leaves(before, state, now) + (seq![
            Line::Title(menu.title_text()),
        ] + menu_lines(menu, state, now)) + leaves(after, state, now));
    } else {
        law_folded_menus_keep_their_pages(before, menu, after.drop_last(), state, now);
        assert(all.drop_last() =~= before + seq![menu] + after.drop_last());
        assert(leaves(all, state, now) =~= leaves(before, state, now) + (seq![
            Line::Title(menu.title_text()),
        ] + menu_lines(menu, state, now)) + leaves(after, state, now));
    }
}

/// Each head has its word, and is read out as the menu of that name; the first
/// one speaks the key that opens the bar.
pub proof fn law_a_head_is_read_out_as_its_menu(t: Trigger, hint: bool, r: String)
    requires
        call_ensures(Trigger::spoken, (t, hint), r),
    ensures
        t == Trigger::More && !hint ==> r@ == copy::MENUBAR_MORE@ + " menu"@,
        t == Trigger::Menu(Menu::Session) && !hint ==> r@ == copy::MENUBAR_SESSION@ + " menu"@,
        t == Trigger::Menu(Menu::Tools) && !hint ==> r@ == copy::MENUBAR_TOOLS@ + " menu"@,
        t == Trigger::Menu(Menu::Display) && !hint ==> r@ == copy::MENUBAR_DISPLAY@ + " menu"@,
        t == Trigger::Menu(Menu::Help) && !hint ==> r@ == copy::MENUBAR_HELP@ + " menu"@,
        hint ==> r@ == t.label_text() + " menu"@ + ", "@ + copy::MENUBAR_KEY_HINT@,
{
}

/// A page stays open while its settings are compared: the display's, and the one
/// that may hold it.
pub proof fn law_a_page_of_settings_stays_open(t: Trigger, r: bool)
    requires
        call_ensures(Trigger::holds_settings, (t,), r),
    ensures
        r <==> t == Trigger::Menu(Menu::Display) || t == Trigger::More,
{
}

/// A folded head keeps its mark: the head over the folded ones carries it exactly
/// where the marked one is among them.
pub proof fn law_a_folded_mark_is_kept(folded: &[Menu], mark: Option<Tone>, r: Option<Tone>)
    requires
        call_ensures(folded_mark, (folded, mark), r),
    ensures
        folded@.contains(Menu::Help) ==> r == mark,
        !folded@.contains(Menu::Help) ==> r is None,
{
}

/// The heads stand in reading order, each under its word and each with its own
/// title.
pub proof fn law_every_menu_has_its_word_and_title(menu: Menu)
    ensures
        Menu::reading_order() == seq![Menu::Session, Menu::Tools, Menu::Display, Menu::Help],
        menu == Menu::Session ==> menu.head_text() == "session"@ && menu.title_text() == "Session"@,
        menu == Menu::Tools ==> menu.head_text() == "tools"@ && menu.title_text() == "Tools"@,
        menu == Menu::Display ==> menu.head_text() == "display"@ && menu.title_text() == "Display"@,
        menu == Menu::Help ==> menu.head_text() == "help"@ && menu.title_text() == "Help"@,
{
}

/// The display's page lists the three palettes, the three densities, the two
/// motions and the text size, each under its own head and name.
pub proof fn law_the_display_page_lists_every_setting(state: BarState<'_>, now: nat)
    ensures
        ({
            let p = menu_lines(Menu::Display, state, now);
            &&& p.len() == 15
            &&& p[0] == Line::Head(copy::MENUBAR_PALETTE@, None)
            &&& lists(p, 1, "Night"@, MenuAction::Palette(Mode::Night))
            &&& lists(p, 2, "Paper"@, MenuAction::Palette(Mode::Paper))
            &&& lists(p, 3, "Contrast"@, MenuAction::Palette(Mode::Contrast))
            &&& p[4] == Line::Head(copy::MENUBAR_DENSITY@, None)
            &&& lists(p, 5, "Compact"@, MenuAction::Density(Density::Compact))
            &&& lists(p, 6, "Regular"@, MenuAction::Density(Density::Regular))
            &&& lists(p, 7, "Roomy"@, MenuAction::Density(Density::Roomy))
            &&& p[8] == Line::Head(copy::MENUBAR_MOTION@, None)
            &&& lists(p, 9, "Full"@, MenuAction::Motion { reduced: false })
            &&& lists(p, 10, "Reduced"@, MenuAction::Motion { reduced: true })
            &&& p[11] is Head && p[11]->Head_0 == copy::MENUBAR_TEXT@
        }),
{
    let d = display_lines(state.mode, state.density, state.reduced_motion, state.text_scale);
    let a = palette_lines(state.mode);
    let b = density_lines(state.density);
    assert(a.len() == 3 && b.len() == 3);
    assert(d[1] == a[0] && d[2] == a[1] && d[3] == a[2]);
    assert(d[5] == b[0] && d[6] == b[1] && d[7] == b[2]);
    assert(Mode::offered()[0] == Mode::Night && Mode::offered()[1] == Mode::Paper
        && Mode::offered()[2] == Mode::Contrast);
    assert(Density::offered()[0] == Density::Compact && Density::offered()[1] == Density::Regular
        && Density::offered()[2] == Density::Roomy);
}

/// The text size is told in percent, and its three verbs ask for the next five
/// percent up, the next down, and the default.
pub proof fn law_the_text_verbs_ask_for_their_sizes(scale: i32, i: int)
    requires
        7_000 <= scale <= 22_000,
        scale % 500 == 0,
    ensures
        ({
            let t = text_lines(scale as int);
            &&& t.len() == 4
            &&& t[0] == Line::Head(
                copy::MENUBAR_TEXT@,
                Some(text::dec((scale / 100) as nat) + "%"@),
            )
            &&& lists(
                t,
                1,
                copy::MENU_TEXT_BIGGER@,
                MenuAction::TextScale(
                    if scale < 22_000 {
                        (scale + 500) as i32
                    } else {
                        22_000
                    },
                ),
            )
            &&& lists(
                t,
                2,
                copy::MENU_TEXT_SMALLER@,
                MenuAction::TextScale(
                    if scale > 7_000 {
                        (scale - 500) as i32
                    } else {
                        7_000
                    },
                ),
            )
            &&& lists(t, 3, copy::MENU_TEXT_RESET@, MenuAction::TextScale(10_000))
            &&& t[1]->Item_0.blocked is Some <==> scale == 22_000
            &&& t[2]->Item_0.blocked is Some <==> scale == 7_000
            &&& t[3]->Item_0.blocked is Some <==> scale == 10_000
            &&& t[1]->Item_0.chord == shortcuts::caps_text(shortcuts::Action::TextBigger)
            &&& t[2]->Item_0.chord == shortcuts::caps_text(shortcuts::Action::TextSmaller)
            &&& t[3]->Item_0.chord == shortcuts::caps_text(shortcuts::Action::TextReset)
        }),
{
    a11y::law_step_lands_on_a_notch(scale as int, true);
    a11y::law_step_lands_on_a_notch(scale as int, false);
    a11y::law_step_moves_to_the_next_notch(scale as int);
}

/// The help page lists the sheet of keys with its chord, the colophon and the
/// updates, and nothing of it but the updates can ever be refused.
pub proof fn law_the_help_page_lists_its_verbs(state: BarState<'_>, now: nat)
    ensures
        ({
            let p = menu_lines(Menu::Help, state, now);
            &&& p.len() == 7
            &&& lists(p, 1, copy::MENU_KEYS@, MenuAction::Shortcuts)
            &&& p[1]->Item_0.chord == shortcuts::caps_text(shortcuts::Action::Sheet)
            &&& p[1]->Item_0.blocked is None
            &&& lists(p, 3, copy::MENU_ABOUT@, MenuAction::Colophon)
            &&& p[3]->Item_0.blocked is None
            &&& p[5] == update_lines(*state.update, now)[0]
            &&& p[6] == update_lines(*state.update, now)[1]
        }),
{
}

/// An item can be chosen where nothing refuses it, is marked where it is the
/// choice in force, and shuts its page where it is no choice at all.
pub proof fn law_an_item_tells_what_it_allows(item: Item, on: bool, marked: bool, shuts: bool)
    requires
        call_ensures(Item::enabled, (&item,), on),
        call_ensures(Item::marked, (&item,), marked),
        call_ensures(Item::closes_page, (&item,), shuts),
    ensures
        on <==> item.blocked is None,
        marked <==> item.choice == Some(true),
        shuts <==> item.choice is None,
        !(marked && shuts),
{
}

/// The page with a menu's title has that menu's place as its numeral.
pub proof fn law_a_page_is_numbered_by_its_place(title: &str, r: Option<&'static str>)
    requires
        call_ensures(folio_of, (title,), r),
    ensures
        title@ == "Session"@ ==> r is Some && (r->0)@ == "I"@,
        title@ == "Tools"@ ==> r is Some && (r->0)@ == "II"@,
        title@ == "Display"@ ==> r is Some && (r->0)@ == "III"@,
        title@ == "Help"@ ==> r is Some && (r->0)@ == "IV"@,
{
    reveal_strlit("Session");
    reveal_strlit("Tools");
    reveal_strlit("Display");
    reveal_strlit("Help");
    assert("Session"@[0] == 'S' && "Tools"@[0] == 'T' && "Display"@[0] == 'D' && "Help"@[0] == 'H');
    let o = Menu::reading_order();
    assert(o[0].title_text() == "Session"@ && o[1].title_text() == "Tools"@);
    assert(o[2].title_text() == "Display"@ && o[3].title_text() == "Help"@);
}

/// Each head's widget has its own lasting key.
pub proof fn law_every_head_has_its_own_key(t: Trigger, m: Menu, k: &'static str, h: &'static str)
    requires
        call_ensures(Trigger::key, (t,), k),
        call_ensures(Menu::key, (m,), h),
    ensures
        t == Trigger::Menu(m) ==> k@ == h@,
        t == Trigger::More ==> k@ == "more"@,
        m == Menu::Session ==> h@ == "session"@,
        m == Menu::Tools ==> h@ == "tools"@,
        m == Menu::Display ==> h@ == "display"@,
        m == Menu::Help ==> h@ == "help"@,
{
}

} // verus!
