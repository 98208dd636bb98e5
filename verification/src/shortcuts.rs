//! The keyboard sheet: one registry of every binding the window answers to.
//!
//! The sheet prints this registry and the window dispatches on it, so a binding
//! cannot appear in one and not in the other.

use crate::text::{self, join, Chars};
use vstd::prelude::*;

verus! {

/// Everything the keyboard can ask the window to do.
#[derive(Clone, Copy, PartialEq, Eq, Debug, Structural)]
pub enum Action {
    /// Toggle the command palette.
    Palette,
    /// Poll now rather than waiting for the tick.
    Refresh,
    /// Jump to the open session's settings.
    Settings,
    /// Toggle the sheet.
    Sheet,
    /// Mark every session in the sidebar.
    SelectAll,
    /// Jump to the files and focus their filter.
    FileFilter,
    /// Step the text scale up.
    TextBigger,
    /// Step the text scale down.
    TextSmaller,
    /// Put the text scale back.
    TextReset,
    /// Jump to that tab of the open session, counted from zero.
    Tab(usize),
    /// Answered elsewhere. Listed so that the sheet is complete, and never
    /// taken here.
    Convention,
}

/// One binding.
pub struct Binding {
    /// The key caps in the order they are pressed.
    pub keys: Vec<&'static str>,
    /// What the binding does.
    pub what: &'static str,
    /// What the window does.
    pub action: Action,
}

/// A titled group of bindings.
pub struct Section {
    /// The title.
    pub title: &'static str,
    /// The bindings.
    pub bindings: Vec<Binding>,
}

// ---------------------------------------------------------------------------
// Chords
// ---------------------------------------------------------------------------

/// What is held down while a key is pressed.
#[derive(Clone, Copy, PartialEq, Eq, Debug, Structural)]
pub enum Held {
    /// The platform's command key.
    Command,
    /// Nothing.
    Nothing,
}

/// The keys that bindings are made of.
#[derive(Clone, Copy, PartialEq, Eq, Debug, Structural)]
pub enum Key {
    /// The letter A.
    A,
    /// The letter F.
    F,
    /// The letter K.
    K,
    /// The letter R.
    R,
    /// The comma.
    Comma,
    /// The question mark.
    Questionmark,
    /// The plus sign.
    Plus,
    /// The equals sign, which shares its key with the plus sign on some
    /// layouts.
    Equals,
    /// The minus sign.
    Minus,
    /// A digit.
    Num(u8),
}

/// The chord of an action: what is held, and every key that spells it.
pub open spec fn chord_of(a: Action) -> Option<(Held, Seq<Key>)> {
    match a {
        Action::Palette => Some((Held::Command, seq![Key::K])),
        Action::Refresh => Some((Held::Command, seq![Key::R])),
        Action::Settings => Some((Held::Command, seq![Key::Comma])),
        Action::Sheet => Some((Held::Nothing, seq![Key::Questionmark])),
        Action::SelectAll => Some((Held::Command, seq![Key::A])),
        Action::FileFilter => Some((Held::Command, seq![Key::F])),
        Action::TextBigger => Some((Held::Command, seq![Key::Plus, Key::Equals])),
        Action::TextSmaller => Some((Held::Command, seq![Key::Minus])),
        Action::TextReset => Some((Held::Command, seq![Key::Num(0)])),
        Action::Tab(n) => if n < 7 {
            Some((Held::Command, seq![Key::Num((n + 1) as u8)]))
        } else {
            None
        },
        Action::Convention => None,
    }
}

fn one_key(key: Key) -> (r: Vec<Key>)
    ensures
        r@ == seq![key],
{
    let mut r: Vec<Key> = Vec::new();
    r.push(key);
    proof {
        assert(r@ =~= seq![key]);
    }
    r
}

impl Action {
    /// The chord to take: what is held down, and every key that spells it.
    /// There is more than one where layouts disagree.
    pub fn chord(self) -> (r: Option<(Held, Vec<Key>)>)
        ensures
            match r {
                Some((held, keys)) => chord_of(self) == Some((held, keys@)),
                None => chord_of(self) is None,
            },
    {
        match self {
            Action::Palette => Some((Held::Command, one_key(Key::K))),
            Action::Refresh => Some((Held::Command, one_key(Key::R))),
            Action::Settings => Some((Held::Command, one_key(Key::Comma))),
            Action::Sheet => Some((Held::Nothing, one_key(Key::Questionmark))),
            Action::SelectAll => Some((Held::Command, one_key(Key::A))),
            Action::FileFilter => Some((Held::Command, one_key(Key::F))),
            Action::TextBigger => {
                let mut keys: Vec<Key> = one_key(Key::Plus);
                keys.push(Key::Equals);
                proof {
                    assert(keys@ =~= seq![Key::Plus, Key::Equals]);
                }
                Some((Held::Command, keys))
            },
            Action::TextSmaller => Some((Held::Command, one_key(Key::Minus))),
            Action::TextReset => Some((Held::Command, one_key(Key::Num(0)))),
            Action::Tab(n) => if n < 7 {
                Some((Held::Command, one_key(Key::Num((n + 1) as u8))))
            } else {
                None
            },
            Action::Convention => None,
        }
    }

    /// Whether a focused text field keeps this for itself: a bare "?" is a
    /// character being typed, and Ctrl+A selects the field's text.
    pub fn yields_to_typing(self) -> (r: bool)
        ensures
            r == (self is Sheet || self is SelectAll),
    {
        match self {
            Action::Sheet => true,
            Action::SelectAll => true,
            _ => false,
        }
    }

    /// Whether the binding means something only while a session is on screen.
    pub fn needs_session(self) -> (r: bool)
        ensures
            r == (self is Tab || self is Settings || self is FileFilter),
    {
        match self {
            Action::Tab(_) => true,
            Action::Settings => true,
            Action::FileFilter => true,
            _ => false,
        }
    }
}

/// No two actions answer to the same key press.
pub proof fn law_no_two_actions_share_a_chord(a: Action, b: Action, i: int, j: int)
    requires
        a != b,
        chord_of(a) is Some,
        chord_of(b) is Some,
        0 <= i < (chord_of(a)->0).1.len(),
        0 <= j < (chord_of(b)->0).1.len(),
    ensures
        (chord_of(a)->0).0 != (chord_of(b)->0).0 || (chord_of(a)->0).1[i] != (chord_of(b)->0).1[j],
{
}

/// A chord without a modifier could be a character being typed, and gives way
/// to a text field.
pub proof fn law_bare_keys_yield_to_typing(a: Action)
    ensures
        chord_of(a) is Some && (chord_of(a)->0).0 == Held::Nothing ==> a is Sheet,
{
}

// ---------------------------------------------------------------------------
// The registry
// ---------------------------------------------------------------------------

/// A binding as a value.
pub struct Bound {
    /// The key caps.
    pub keys: Seq<Chars>,
    /// What it does.
    pub what: Chars,
    /// What the window does.
    pub action: Action,
}

/// A binding of one cap.
pub open spec fn one_cap(key: Chars, what: Chars, action: Action) -> Bound {
    Bound { keys: seq![key], what, action }
}

/// A binding of two caps.
pub open spec fn two_caps(first: Chars, second: Chars, what: Chars, action: Action) -> Bound {
    Bound { keys: seq![first, second], what, action }
}

impl View for Binding {
    type V = Bound;

    open spec fn view(&self) -> Bound {
        Bound { keys: text::slices(self.keys@), what: self.what@, action: self.action }
    }
}

/// The bindings of a list as values.
pub open spec fn bound_of(bs: Seq<Binding>) -> Seq<Bound> {
    bs.map_values(|b: Binding| b@)
}

/// The bindings of the section "Anywhere".
pub open spec fn anywhere_bound() -> Seq<Bound> {
    seq![
        two_caps("Ctrl"@, "K"@, "open the command palette"@, Action::Palette),
        two_caps("Ctrl"@, "R"@, "refresh now"@, Action::Refresh),
        two_caps("Ctrl"@, ","@, "open settings for the selected session"@, Action::Settings),
        one_cap("?"@, "show this sheet"@, Action::Sheet),
        one_cap("F10"@, "open the menu bar"@, Action::Convention),
        one_cap("Esc"@, "close whatever is open"@, Action::Convention),
    ]
}

/// The bindings of the section "Moving".
pub open spec fn moving_bound() -> Seq<Bound> {
    seq![
        one_cap("Tab"@, "step to the next control"@, Action::Convention),
        two_caps("Shift"@, "Tab"@, "step back"@, Action::Convention),
        two_caps("↑"@, "↓"@, "move through a list"@, Action::Convention),
        one_cap("Enter"@, "activate what is focused"@, Action::Convention),
    ]
}

/// The bindings of the section "Sessions".
pub open spec fn sessions_bound() -> Seq<Bound> {
    seq![
        two_caps("Ctrl"@, "1"@, "overview"@, Action::Tab(0)),
        two_caps("Ctrl"@, "2"@, "peers"@, Action::Tab(1)),
        two_caps("Ctrl"@, "3"@, "files"@, Action::Tab(2)),
        two_caps("Ctrl"@, "4"@, "conflicts"@, Action::Tab(3)),
        two_caps("Ctrl"@, "5"@, "history"@, Action::Tab(4)),
        two_caps("Ctrl"@, "6"@, "audit"@, Action::Tab(5)),
        two_caps("Ctrl"@, "7"@, "settings"@, Action::Tab(6)),
        two_caps("Ctrl"@, "A"@, "mark every session"@, Action::SelectAll),
        two_caps("Ctrl"@, "click"@, "add one session to the marked set"@, Action::Convention),
        two_caps("Shift"@, "click"@, "mark a range of sessions"@, Action::Convention),
    ]
}

/// The bindings of the section "Reading".
pub open spec fn reading_bound() -> Seq<Bound> {
    seq![
        two_caps("Ctrl"@, "F"@, "jump to the file filter"@, Action::FileFilter),
        two_caps("Ctrl"@, "+"@, "larger text"@, Action::TextBigger),
        two_caps("Ctrl"@, "-"@, "smaller text"@, Action::TextSmaller),
        two_caps("Ctrl"@, "0"@, "text back to normal"@, Action::TextReset),
    ]
}

/// Every binding on the sheet, in order.
pub open spec fn all_bound() -> Seq<Bound> {
    anywhere_bound() + moving_bound() + sessions_bound() + reading_bound()
}

fn one(key: &'static str, what: &'static str, action: Action) -> (r: Binding)
    ensures
        r@ == one_cap(key@, what@, action),
{
    let mut keys: Vec<&'static str> = Vec::new();
    keys.push(key);
    proof {
        assert(text::slices(keys@) =~= seq![key@]);
    }
    Binding { keys, what, action }
}

fn two(
    first: &'static str,
    second: &'static str,
    what: &'static str,
    action: Action,
) -> (r: Binding)
    ensures
        r@ == two_caps(first@, second@, what@, action),
{
    let mut keys: Vec<&'static str> = Vec::new();
    keys.push(first);
    keys.push(second);
    proof {
        assert(text::slices(keys@) =~= seq![first@, second@]);
    }
    Binding { keys, what, action }
}

fn anywhere_bindings() -> (r: Vec<Binding>)
    ensures
        bound_of(r@) == anywhere_bound(),
{
    let mut r: Vec<Binding> = Vec::new();
    r.push(two("Ctrl", "K", "open the command palette", Action::Palette));
    r.push(two("Ctrl", "R", "refresh now", Action::Refresh));
    r.push(two("Ctrl", ",", "open settings for the selected session", Action::Settings));
    r.push(one("?", "show this sheet", Action::Sheet));
    r.push(one("F10", "open the menu bar", Action::Convention));
    r.push(one("Esc", "close whatever is open", Action::Convention));
    proof {
        assert(bound_of(r@) =~= anywhere_bound());
    }
    r
}

fn moving_bindings() -> (r: Vec<Binding>)
    ensures
        bound_of(r@) == moving_bound(),
{
    let mut r: Vec<Binding> = Vec::new();
    r.push(one("Tab", "step to the next control", Action::Convention));
    r.push(two("Shift", "Tab", "step back", Action::Convention));
    r.push(two("↑", "↓", "move through a list", Action::Convention));
    r.push(one("Enter", "activate what is focused", Action::Convention));
    proof {
        assert(bound_of(r@) =~= moving_bound());
    }
    r
}

fn sessions_bindings() -> (r: Vec<Binding>)
    ensures
        bound_of(r@) == sessions_bound(),
{
    let mut r: Vec<Binding> = Vec::new();
    r.push(two("Ctrl", "1", "overview", Action::Tab(0)));
    r.push(two("Ctrl", "2", "peers", Action::Tab(1)));
    r.push(two("Ctrl", "3", "files", Action::Tab(2)));
    r.push(two("Ctrl", "4", "conflicts", Action::Tab(3)));
    r.push(two("Ctrl", "5", "history", Action::Tab(4)));
    r.push(two("Ctrl", "6", "audit", Action::Tab(5)));
    r.push(two("Ctrl", "7", "settings", Action::Tab(6)));
    r.push(two("Ctrl", "A", "mark every session", Action::SelectAll));
    r.push(two("Ctrl", "click", "add one session to the marked set", Action::Convention));
    r.push(two("Shift", "click", "mark a range of sessions", Action::Convention));
    proof {
        assert(bound_of(r@) =~= sessions_bound());
    }
    r
}

fn reading_bindings() -> (r: Vec<Binding>)
    ensures
        bound_of(r@) == reading_bound(),
{
    let mut r: Vec<Binding> = Vec::new();
    r.push(two("Ctrl", "F", "jump to the file filter", Action::FileFilter));
    r.push(two("Ctrl", "+", "larger text", Action::TextBigger));
    r.push(two("Ctrl", "-", "smaller text", Action::TextSmaller));
    r.push(two("Ctrl", "0", "text back to normal", Action::TextReset));
    proof {
        assert(bound_of(r@) =~= reading_bound());
    }
    r
}

/// Every binding the window answers to, grouped for display.
pub fn sections() -> (r: Vec<Section>)
    ensures
        r@.len() == 4,
        r@[0].title@ == "Anywhere"@ && bound_of(r@[0].bindings@) == anywhere_bound(),
        r@[1].title@ == "Moving"@ && bound_of(r@[1].bindings@) == moving_bound(),
        r@[2].title@ == "Sessions"@ && bound_of(r@[2].bindings@) == sessions_bound(),
        r@[3].title@ == "Reading"@ && bound_of(r@[3].bindings@) == reading_bound(),
{
    let mut r: Vec<Section> = Vec::new();
    r.push(Section { title: "Anywhere", bindings: anywhere_bindings() });
    r.push(Section { title: "Moving", bindings: moving_bindings() });
    r.push(Section { title: "Sessions", bindings: sessions_bindings() });
    r.push(Section { title: "Reading", bindings: reading_bindings() });
    r
}

/// Every binding that the window answers resolves to a chord, and every one
/// that it leaves to others does not.
pub proof fn law_every_handled_binding_has_a_chord(i: int)
    requires
        0 <= i < all_bound().len(),
    ensures
        chord_of(all_bound()[i].action) is Some <==> all_bound()[i].action != Action::Convention,
{
    lemma_chords_present();
    let a = anywhere_bound().len() as int;
    let m = a + moving_bound().len();
    let s = m + sessions_bound().len();
    if i < a {
        assert(all_bound()[i] == anywhere_bound()[i]);
    } else if i < m {
        assert(all_bound()[i] == moving_bound()[i - a]);
    } else if i < s {
        assert(all_bound()[i] == sessions_bound()[i - m]);
    } else {
        assert(all_bound()[i] == reading_bound()[i - s]);
    }
}

spec fn chords_present(bs: Seq<Bound>) -> bool {
    forall|i: int|
        0 <= i < bs.len() ==> (chord_of((#[trigger] bs[i]).action) is Some <==> bs[i].action
            != Action::Convention)
}

proof fn lemma_chords_present()
    ensures
        chords_present(anywhere_bound()),
        chords_present(moving_bound()),
        chords_present(sessions_bound()),
        chords_present(reading_bound()),
{
}

/// Every action that answers to a key is on the sheet.
pub proof fn law_every_action_is_advertised(a: Action)
    requires
        chord_of(a) is Some,
    ensures
        exists|i: int| 0 <= i < all_bound().len() && (#[trigger] all_bound()[i]).action == a,
{
    let at: int = match a {
        Action::Palette => 0,
        Action::Refresh => 1,
        Action::Settings => 2,
        Action::Sheet => 3,
        Action::Tab(n) => 10 + n,
        Action::SelectAll => 17,
        Action::FileFilter => 20,
        Action::TextBigger => 21,
        Action::TextSmaller => 22,
        Action::TextReset => 23,
        Action::Convention => 4,
    };
    assert(all_bound()[at].action == a);
}

/// The first binding of `action` in `bs`.
pub open spec fn first_bound(bs: Seq<Bound>, action: Action) -> Option<Bound>
    decreases bs.len(),
{
    if bs.len() == 0 {
        None
    } else if bs[0].action == action {
        Some(bs[0])
    } else {
        first_bound(bs.drop_first(), action)
    }
}

proof fn lemma_first_bound_add(a: Seq<Bound>, b: Seq<Bound>, action: Action)
    ensures
        first_bound(a + b, action) == (match first_bound(a, action) {
            Some(x) => Some(x),
            None => first_bound(b, action),
        }),
    decreases a.len(),
{
    if a.len() == 0 {
        assert(a + b =~= b);
    } else {
        assert((a + b).drop_first() =~= a.drop_first() + b);
        lemma_first_bound_add(a.drop_first(), b, action);
    }
}

/// The caps of the first binding of `action`, joined by a space.
pub open spec fn caps_text(action: Action) -> Option<Chars> {
    match first_bound(all_bound(), action) {
        Some(b) => Some(text::joined(b.keys, " "@)),
        None => None,
    }
}

fn find_in(bs: &Vec<Binding>, action: Action) -> (r: Option<usize>)
    ensures
        match r {
            Some(i) => i < bs.len() && first_bound(bound_of(bs@), action) == Some(bs@[i as int]@),
            None => first_bound(bound_of(bs@), action) is None,
        },
{
    let ghost all = bound_of(bs@);
    let mut i: usize = 0;
    proof {
        assert(all.skip(0) =~= all);
    }
    while i < bs.len()
        invariant
            i <= bs.len(),
            all == bound_of(bs@),
            first_bound(all, action) == first_bound(all.skip(i as int), action),
        decreases bs.len() - i,
    {
        proof {
            assert(all.skip(i as int).drop_first() =~= all.skip(i + 1));
            assert(all.skip(i as int)[0] == bs@[i as int]@);
        }
        if bs[i].action == action {
            return Some(i);
        }
        i = i + 1;
    }
    None
}

/// The chord bound to `action`, as the sheet spells it: the caps of its first
/// binding, a space between each two. `None` for an action without a binding.
pub fn chord_caps(action: Action) -> (r: Option<String>)
    ensures
        match r {
            Some(s) => caps_text(action) == Some(s@),
            None => caps_text(action) is None,
        },
{
    let all: Vec<Section> = sections();
    let ghost a = anywhere_bound();
    let ghost m = moving_bound();
    let ghost s = sessions_bound();
    let ghost d = reading_bound();
    proof {
        lemma_first_bound_add(a + m + s, d, action);
        lemma_first_bound_add(a + m, s, action);
        lemma_first_bound_add(a, m, action);
    }
    let mut n: usize = 0;
    while n < all.len()
        invariant
            n <= all.len(),
            all.len() == 4,
            bound_of(all@[0].bindings@) == a,
            bound_of(all@[1].bindings@) == m,
            bound_of(all@[2].bindings@) == s,
            bound_of(all@[3].bindings@) == d,
            n > 0 ==> first_bound(a, action) is None,
            n > 1 ==> first_bound(m, action) is None,
            n > 2 ==> first_bound(s, action) is None,
            n > 3 ==> first_bound(d, action) is None,
            first_bound(all_bound(), action) == (match first_bound(a, action) {
                Some(x) => Some(x),
                None => match first_bound(m, action) {
                    Some(x) => Some(x),
                    None => match first_bound(s, action) {
                        Some(x) => Some(x),
                        None => first_bound(d, action),
                    },
                },
            }),
        decreases all.len() - n,
    {
        match find_in(&all[n].bindings, action) {
            Some(i) => {
                let caps: Vec<String> = owned(&all[n].bindings[i].keys);
                return Some(join(&caps, " "));
            },
            None => {},
        }
        n = n + 1;
    }
    None
}

fn owned(v: &Vec<&'static str>) -> (r: Vec<String>)
    ensures
        text::texts(r@) == text::slices(v@),
{
    let mut r: Vec<String> = Vec::new();
    let mut i: usize = 0;
    while i < v.len()
        invariant
            i <= v.len(),
            r.len() == i,
            forall|j: int| 0 <= j < i ==> (#[trigger] r@[j])@ == v@[j]@,
        decreases v.len() - i,
    {
        r.push(v[i].to_owned());
        i = i + 1;
    }
    proof {
        assert(text::texts(r@) =~= text::slices(v@));
    }
    r
}

/// The cap that a key is shown as.
pub open spec fn cap_of(key: Key) -> Chars {
    match key {
        Key::A => "A"@,
        Key::F => "F"@,
        Key::K => "K"@,
        Key::R => "R"@,
        Key::Comma => ","@,
        Key::Questionmark => "?"@,
        Key::Plus => "+"@,
        Key::Equals => "="@,
        Key::Minus => "-"@,
        Key::Num(n) => text::dec(n as nat),
    }
}

/// The sheet shows every binding that the window answers by the very keys that
/// it answers to: the held one first, then the first key of the chord.
pub proof fn law_the_sheet_shows_the_keys_that_work(i: int)
    requires
        0 <= i < all_bound().len(),
        all_bound()[i].action != Action::Convention,
    ensures
        ({
            let b = all_bound()[i];
            let (held, keys) = chord_of(b.action)->0;
            &&& chord_of(b.action) is Some
            &&& held == Held::Command ==> b.keys == seq!["Ctrl"@, cap_of(keys[0])]
            &&& held == Held::Nothing ==> b.keys == seq![cap_of(keys[0])]
        }),
{
    reveal_strlit("0");
    reveal_strlit("1");
    reveal_strlit("2");
    reveal_strlit("3");
    reveal_strlit("4");
    reveal_strlit("5");
    reveal_strlit("6");
    reveal_strlit("7");
    assert(text::dec(0) =~= "0"@);
    assert(text::dec(1) =~= "1"@);
    assert(text::dec(2) =~= "2"@);
    assert(text::dec(3) =~= "3"@);
    assert(text::dec(4) =~= "4"@);
    assert(text::dec(5) =~= "5"@);
    assert(text::dec(6) =~= "6"@);
    assert(text::dec(7) =~= "7"@);
    let n1 = anywhere_bound().len() as int;
    let n2 = moving_bound().len() as int;
    let n3 = sessions_bound().len() as int;
    if i < n1 {
        assert(all_bound()[i] == anywhere_bound()[i]);
    } else if i < n1 + n2 {
        assert(all_bound()[i] == moving_bound()[i - n1]);
    } else if i < n1 + n2 + n3 {
        assert(all_bound()[i] == sessions_bound()[i - n1 - n2]);
    } else {
        assert(all_bound()[i] == reading_bound()[i - n1 - n2 - n3]);
    }
}

/// Each chord is the one its action is known by; the seven tabs have the digits
/// from one on, and no other tab has a chord.
pub proof fn law_chords_are_the_known_ones(n: usize)
    ensures
        chord_of(Action::Palette) == Some((Held::Command, seq![Key::K])),
        chord_of(Action::Refresh) == Some((Held::Command, seq![Key::R])),
        chord_of(Action::Settings) == Some((Held::Command, seq![Key::Comma])),
        chord_of(Action::Sheet) == Some((Held::Nothing, seq![Key::Questionmark])),
        chord_of(Action::SelectAll) == Some((Held::Command, seq![Key::A])),
        chord_of(Action::FileFilter) == Some((Held::Command, seq![Key::F])),
        chord_of(Action::TextBigger) == Some((Held::Command, seq![Key::Plus, Key::Equals])),
        chord_of(Action::TextSmaller) == Some((Held::Command, seq![Key::Minus])),
        chord_of(Action::TextReset) == Some((Held::Command, seq![Key::Num(0)])),
        n < 7 ==> chord_of(Action::Tab(n)) == Some((Held::Command, seq![Key::Num((n + 1) as u8)])),
        n >= 7 ==> chord_of(Action::Tab(n)) is None,
        chord_of(Action::Convention) is None,
{
}

/// The sheet and the bare selection give way while a text is typed; what acts on
/// a session needs one open.
pub proof fn law_a_shortcut_waits_for_its_place(a: Action, yields: bool, needs: bool)
    requires
        call_ensures(Action::yields_to_typing, (a,), yields),
        call_ensures(Action::needs_session, (a,), needs),
    ensures
        yields <==> a == Action::Sheet || a == Action::SelectAll,
        needs <==> a is Tab || a == Action::Settings || a == Action::FileFilter,
{
}

/// The caps of an action are those of the first binding that names it, with a
/// space between.
pub proof fn law_caps_are_those_of_the_binding(bs: Seq<Bound>, i: int)
    requires
        0 <= i < bs.len(),
        forall|j: int| 0 <= j < i ==> (#[trigger] bs[j]).action != bs[i].action,
    ensures
        first_bound(bs, bs[i].action) == Some(bs[i]),
    decreases i,
{
    if i > 0 {
        assert(bs[0].action != bs[i].action);
        let rest = bs.drop_first();
        assert(rest[i - 1] == bs[i]);
        assert forall|j: int| 0 <= j < i - 1 implies (#[trigger] rest[j]).action
            != rest[i - 1].action by {
            assert(rest[j] == bs[j + 1]);
        }
        law_caps_are_those_of_the_binding(rest, i - 1);
    }
}

/// The sheet has four sections, each with its own bindings.
pub proof fn law_the_sheet_has_four_sections(r: Vec<Section>)
    requires
        call_ensures(sections, (), r),
    ensures
        r@.len() == 4,
        r@[0].title@ == "Anywhere"@ && r@[0].bindings@.len() == 6,
        r@[1].title@ == "Moving"@ && r@[1].bindings@.len() == 4,
        r@[2].title@ == "Sessions"@ && r@[2].bindings@.len() == 10,
        r@[3].title@ == "Reading"@ && r@[3].bindings@.len() == 4,
        bound_of(r@[0].bindings@) + bound_of(r@[1].bindings@) + bound_of(r@[2].bindings@)
            + bound_of(r@[3].bindings@) == all_bound(),
{
    assert(bound_of(r@[0].bindings@).len() == r@[0].bindings@.len());
    assert(bound_of(r@[1].bindings@).len() == r@[1].bindings@.len());
    assert(bound_of(r@[2].bindings@).len() == r@[2].bindings@.len());
    assert(bound_of(r@[3].bindings@).len() == r@[3].bindings@.len());
}

} // verus!
