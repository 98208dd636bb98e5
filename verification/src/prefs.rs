//! What the window remembers from one run to the next, and the rules that hold
//! it to what the window can survive.
//!
//! The file is one that anybody may edit, so every value in it is taken for a
//! wish: [`Prefs::sanitize`] holds each to its range. Lengths are in hundredths
//! of a point, and text scales in ten-thousandths; `None` stands for what is no
//! number.

use crate::a11y::{self, clamp_scale, SCALE_DEFAULT};
use crate::text::{self, control, trim, Chars};
use vstd::prelude::*;

verus! {

/// The smallest width of a remembered window.
pub const MIN_WINDOW_W: i32 = 82_000;

/// The smallest height of a remembered window.
pub const MIN_WINDOW_H: i32 = 52_000;

/// The largest width and height of a remembered window.
pub const MAX_WINDOW: i32 = 1_638_400;

/// The longest tab key, in bytes.
pub const MAX_TAB_LEN: usize = 32;

/// The longest session path, in bytes.
pub const MAX_SESSION_LEN: usize = 4096;

/// The tab a window opens on.
pub const DEFAULT_TAB: &'static str = "overview";

/// A size of the window, width first.
#[derive(Clone, Copy, PartialEq, Eq, Debug, Structural)]
pub struct Size {
    /// Its width.
    pub w: Option<i32>,
    /// Its height.
    pub h: Option<i32>,
}

/// What the window remembers.
#[derive(Debug, Clone, PartialEq)]
pub struct Prefs {
    /// The text scale.
    pub text_scale: Option<i32>,
    /// Whether files are sorted by size.
    pub sort_by_size: bool,
    /// The tab to reopen, as a key.
    pub last_tab: String,
    /// The session that was selected.
    pub last_session: Option<String>,
    /// The size of the window.
    pub window: Option<Size>,
    /// Whether the window was maximized.
    pub maximized: bool,
}

/// What the window remembers, by value.
pub struct Remembered {
    /// The text scale.
    pub text_scale: Option<i32>,
    /// Whether files are sorted by size.
    pub sort_by_size: bool,
    /// The tab to reopen.
    pub last_tab: Chars,
    /// The session that was selected.
    pub last_session: Option<Chars>,
    /// The size of the window.
    pub window: Option<Size>,
    /// Whether the window was maximized.
    pub maximized: bool,
}

impl View for Prefs {
    type V = Remembered;

    open spec fn view(&self) -> Remembered {
        Remembered {
            text_scale: self.text_scale,
            sort_by_size: self.sort_by_size,
            last_tab: self.last_tab@,
            last_session: match self.last_session {
                Some(s) => Some(s@),
                None => None,
            },
            window: self.window,
            maximized: self.maximized,
        }
    }
}

/// What a window remembers that was never opened.
pub open spec fn nothing_remembered() -> Remembered {
    Remembered {
        text_scale: Some(SCALE_DEFAULT),
        sort_by_size: false,
        last_tab: DEFAULT_TAB@,
        last_session: None,
        window: None,
        maximized: false,
    }
}

impl Default for Prefs {
    fn default() -> (r: Prefs)
        ensures
            r@ == nothing_remembered(),
    {
        Prefs {
            text_scale: Some(SCALE_DEFAULT),
            sort_by_size: false,
            last_tab: DEFAULT_TAB.to_owned(),
            last_session: None,
            window: None,
            maximized: false,
        }
    }
}

// ---------------------------------------------------------------------------
// The rules
// ---------------------------------------------------------------------------

/// A length held between two others.
pub open spec fn held(v: int, least: int, most: int) -> int {
    if v < least {
        least
    } else if v > most {
        most
    } else {
        v
    }
}

/// The size to restore for a remembered one: none where either side is no
/// number or nothing at all, and else the size held to its range.
pub open spec fn sane_size(size: Size) -> Option<Size> {
    match (size.w, size.h) {
        (Some(w), Some(h)) => if w <= 0 || h <= 0 {
            None
        } else {
            Some(
                Size {
                    w: Some(held(w as int, MIN_WINDOW_W as int, MAX_WINDOW as int) as i32),
                    h: Some(held(h as int, MIN_WINDOW_H as int, MAX_WINDOW as int) as i32),
                },
            )
        },
        _ => None,
    }
}

fn hold(v: i32, least: i32, most: i32) -> (r: i32)
    ensures
        r == held(v as int, least as int, most as int),
{
    if v < least {
        least
    } else if v > most {
        most
    } else {
        v
    }
}

/// The size to restore for a remembered one.
pub fn sane_window(size: Size) -> (r: Option<Size>)
    ensures
        r == sane_size(size),
{
    match (size.w, size.h) {
        (Some(w), Some(h)) => if w <= 0 || h <= 0 {
            None
        } else {
            Some(
                Size {
                    w: Some(hold(w, MIN_WINDOW_W, MAX_WINDOW)),
                    h: Some(hold(h, MIN_WINDOW_H, MAX_WINDOW)),
                },
            )
        },
        _ => None,
    }
}

/// Whether a character may stand in a tab key.
pub open spec fn key_char(c: char) -> bool {
    ('a' <= c && c <= 'z') || ('A' <= c && c <= 'Z') || ('0' <= c && c <= '9') || c == '-' || c
        == '_'
}

/// How many bytes a text takes.
pub open spec fn byte_len(s: Chars) -> nat {
    vstd::utf8::encode_utf8(s).len()
}

/// Whether a text is shaped like a tab key: short, not empty, and made of
/// letters, digits, hyphens and underscores.
pub open spec fn tab_key(s: Chars) -> bool {
    &&& s.len() > 0
    &&& byte_len(s) <= MAX_TAB_LEN
    &&& forall|i: int| 0 <= i < s.len() ==> key_char(#[trigger] s[i])
}

/// Whether a text can be a session's path: not blank, not too long, and without
/// control characters.
pub open spec fn session_path(s: Chars) -> bool {
    &&& text::trimmed(s).len() > 0
    &&& byte_len(s) <= MAX_SESSION_LEN
    &&& forall|i: int| 0 <= i < s.len() ==> !text::is_control(#[trigger] s[i])
}

fn short(s: &str, most: usize) -> (r: bool)
    ensures
        r == (byte_len(s@) <= most),
{
    s.as_bytes().len() <= most
}

/// Whether a text is shaped like a tab key.
pub fn is_tab_key(s: &str) -> (r: bool)
    ensures
        r == tab_key(s@),
{
    if s.is_empty() || !short(s, MAX_TAB_LEN) {
        return false;
    }
    let cs: Vec<char> = text::chars(s);
    let mut i: usize = 0;
    while i < cs.len()
        invariant
            i <= cs@.len(),
            cs@ == s@,
            forall|j: int| 0 <= j < i ==> key_char(#[trigger] s@[j]),
        decreases cs@.len() - i,
    {
        let c: char = cs[i];
        let ok: bool = ('a' <= c && c <= 'z') || ('A' <= c && c <= 'Z') || ('0' <= c && c <= '9')
            || c == '-' || c == '_';
        if !ok {
            proof {
                assert(!key_char(s@[i as int]));
            }
            return false;
        }
        i = i + 1;
    }
    true
}

/// Whether a text can be a session's path.
pub fn is_session_path(s: &str) -> (r: bool)
    ensures
        r == session_path(s@),
{
    let t: &str = trim(s);
    if t.is_empty() || !short(s, MAX_SESSION_LEN) {
        return false;
    }
    let cs: Vec<char> = text::chars(s);
    let mut i: usize = 0;
    while i < cs.len()
        invariant
            i <= cs@.len(),
            cs@ == s@,
            forall|j: int| 0 <= j < i ==> !text::is_control(#[trigger] s@[j]),
        decreases cs@.len() - i,
    {
        if control(cs[i]) {
            proof {
                assert(text::is_control(s@[i as int]));
            }
            return false;
        }
        i = i + 1;
    }
    true
}

/// Every value held to its range: the scale and the size are clamped, and what
/// cannot be repaired gives way to the default. The switches are left alone.
pub open spec fn sanitized(p: Remembered) -> Remembered {
    Remembered {
        text_scale: Some(a11y::clamped(a11y::asked(p.text_scale)) as i32),
        sort_by_size: p.sort_by_size,
        last_tab: if tab_key(p.last_tab) {
            p.last_tab
        } else {
            DEFAULT_TAB@
        },
        last_session: match p.last_session {
            Some(s) => if session_path(s) {
                Some(s)
            } else {
                None
            },
            None => None,
        },
        window: match p.window {
            Some(size) => sane_size(size),
            None => None,
        },
        maximized: p.maximized,
    }
}

impl Prefs {
    /// Holds every value to its range.
    pub fn sanitize(&mut self)
        ensures
            final(self)@ == sanitized(old(self)@),
    {
        self.text_scale = Some(clamp_scale(self.text_scale));
        self.window = match self.window {
            Some(size) => sane_window(size),
            None => None,
        };
        if !is_tab_key(self.last_tab.as_str()) {
            self.last_tab = DEFAULT_TAB.to_owned();
        }
        let session: Option<String> = self.last_session.take();
        self.last_session = match session {
            Some(s) => if is_session_path(s.as_str()) {
                Some(s)
            } else {
                None
            },
            None => None,
        };
    }
}

/// What the window opens with: what was read, held to its range, or the default
/// where nothing could be read.
pub fn parse(read: Option<Prefs>) -> (r: Prefs)
    ensures
        r@ == (match read {
            Some(p) => sanitized(p@),
            None => nothing_remembered(),
        }),
{
    let mut p: Prefs = match read {
        Some(p) => p,
        None => Prefs::default(),
    };
    p.sanitize();
    proof {
        law_the_default_is_sane();
    }
    p
}

/// What is written: never a value that the next run would refuse.
pub fn clean(p: &Prefs) -> (r: Prefs)
    ensures
        r@ == sanitized(p@),
{
    let mut c: Prefs = Prefs {
        text_scale: p.text_scale,
        sort_by_size: p.sort_by_size,
        last_tab: p.last_tab.clone(),
        last_session: match &p.last_session {
            Some(s) => Some(s.clone()),
            None => None,
        },
        window: p.window,
        maximized: p.maximized,
    };
    proof {
        assert(c@ == p@);
    }
    c.sanitize();
    c
}

/// Where the preferences are kept, below the configuration directory.
pub fn path() -> (r: Vec<String>)
    ensures
        text::texts(r@) == seq!["tazamun"@, "gui.json"@],
{
    let mut r: Vec<String> = Vec::new();
    r.push("tazamun".to_owned());
    r.push("gui.json".to_owned());
    proof {
        assert(text::texts(r@) =~= seq!["tazamun"@, "gui.json"@]);
    }
    r
}

/// Holding a value to its range a second time changes nothing.
pub proof fn law_sanitize_is_idempotent(p: Remembered)
    ensures
        sanitized(sanitized(p)) == sanitized(p),
{
    lemma_default_tab();
}

/// The default is within its ranges.
pub proof fn law_the_default_is_sane()
    ensures
        sanitized(nothing_remembered()) == nothing_remembered(),
{
    lemma_default_tab();
}

/// Whatever is read, the window gets a scale within its range, a size within its
/// range or none, a key as its tab, and a path or none; the switches stay as
/// they were.
pub proof fn law_nothing_absurd_reaches_the_window(p: Remembered)
    ensures
        ({
            let s = sanitized(p);
            &&& s.text_scale is Some
            &&& a11y::SCALE_MIN <= (s.text_scale->0) <= a11y::SCALE_MAX
            &&& tab_key(s.last_tab)
            &&& s.last_session is Some ==> session_path(s.last_session->0)
            &&& s.window is Some ==> {
                let z = s.window->0;
                &&& z.w is Some && MIN_WINDOW_W <= (z.w->0) <= MAX_WINDOW
                &&& z.h is Some && MIN_WINDOW_H <= (z.h->0) <= MAX_WINDOW
            }
            &&& s.sort_by_size == p.sort_by_size
            &&& s.maximized == p.maximized
        }),
{
    lemma_default_tab();
}

proof fn lemma_default_tab()
    ensures
        tab_key(DEFAULT_TAB@),
{
    reveal_strlit("overview");
    vstd::utf8::is_ascii_chars_encode_utf8("overview"@);
}

/// What is sane is remembered as it was: a scale between 70 and 220 percent, a
/// tab and a session that can be named, and a window of a size that can be shown.
pub proof fn law_what_is_sane_is_kept(p: Remembered)
    ensures
        ({
            let s = sanitized(p);
            &&& p.text_scale is Some && 7_000 <= p.text_scale->0 <= 22_000 ==> s.text_scale
                == p.text_scale
            &&& tab_key(p.last_tab) ==> s.last_tab == p.last_tab
            &&& !tab_key(p.last_tab) ==> s.last_tab == "overview"@
            &&& p.last_session is Some && session_path(p.last_session->0) ==> s.last_session
                == p.last_session
            &&& p.last_session is None || !session_path(p.last_session->0) ==> s.last_session is None
            &&& p.window is Some && ({
                let z = p.window->0;
                &&& z.w is Some && 82_000 <= z.w->0 <= 1_638_400
                &&& z.h is Some && 52_000 <= z.h->0 <= 1_638_400
            }) ==> s.window == p.window
            &&& s.sort_by_size == p.sort_by_size
            &&& s.maximized == p.maximized
        }),
{
}

/// A window that is no size at all is forgotten; one that is too small or too
/// large is brought to the nearest size that can be shown, each way for itself.
pub proof fn law_a_window_is_brought_to_a_size(size: Size, r: Option<Size>)
    requires
        call_ensures(sane_window, (size,), r),
    ensures
        r is None <==> size.w is None || size.h is None || size.w->0 <= 0 || size.h->0 <= 0,
        r is Some ==> {
            let (w, h) = ((r->0).w->0, (r->0).h->0);
            &&& (r->0).w is Some && (r->0).h is Some
            &&& 82_000 <= w <= 1_638_400 && 52_000 <= h <= 1_638_400
            &&& size.w->0 < 82_000 ==> w == 82_000
            &&& size.w->0 > 1_638_400 ==> w == 1_638_400
            &&& 82_000 <= size.w->0 <= 1_638_400 ==> w == size.w->0
            &&& size.h->0 < 52_000 ==> h == 52_000
            &&& size.h->0 > 1_638_400 ==> h == 1_638_400
            &&& 52_000 <= size.h->0 <= 1_638_400 ==> h == size.h->0
        },
{
}

/// A tab is named by ASCII letters, digits, "-" and "_", at least one and at
/// most thirty-two bytes of them.
pub proof fn law_a_tab_has_a_plain_name(s: &str, r: bool)
    requires
        call_ensures(is_tab_key, (s,), r),
    ensures
        r <==> {
            &&& s@.len() > 0
            &&& vstd::utf8::encode_utf8(s@).len() <= 32
            &&& forall|i: int|
                0 <= i < s@.len() ==> {
                    let c = #[trigger] s@[i];
                    ||| 'a' <= c <= 'z'
                    ||| 'A' <= c <= 'Z'
                    ||| '0' <= c <= '9'
                    ||| c == '-'
                    ||| c == '_'
                }
        },
{
    if r {
        assert forall|i: int| 0 <= i < s@.len() implies {
            let c = #[trigger] s@[i];
            ||| 'a' <= c <= 'z'
            ||| 'A' <= c <= 'Z'
            ||| '0' <= c <= '9'
            ||| c == '-'
            ||| c == '_'
        } by {
            assert(key_char(s@[i]));
        }
    }
}

/// A session is named by a text that is not blank, holds no control character
/// and has at most 4096 bytes.
pub proof fn law_a_session_has_a_path(s: &str, r: bool)
    requires
        call_ensures(is_session_path, (s,), r),
    ensures
        r ==> exists|i: int| 0 <= i < s@.len() && !text::is_white(#[trigger] s@[i]),
        r ==> vstd::utf8::encode_utf8(s@).len() <= 4_096,
        r ==> forall|i: int| 0 <= i < s@.len() ==> !text::is_control(#[trigger] s@[i]),
        !r ==> {
            ||| forall|i: int| 0 <= i < s@.len() ==> text::is_white(#[trigger] s@[i])
            ||| vstd::utf8::encode_utf8(s@).len() > 4_096
            ||| exists|i: int| 0 <= i < s@.len() && text::is_control(#[trigger] s@[i])
        },
{
    let at = text::law_trimming_takes_white_space_only(s@);
    let t = text::trimmed(s@);
    if t.len() > 0 {
        assert(t[0] == s@[at]);
        assert(!text::is_white(s@[at]));
    }
}

/// What cannot be read is as if nothing had been remembered; what can is made
/// sane.
pub proof fn law_an_unread_file_is_a_fresh_start(read: Option<Prefs>, r: Prefs)
    requires
        call_ensures(parse, (read,), r),
    ensures
        read is None ==> r@.text_scale == Some(10_000i32) && !r@.sort_by_size && r@.last_tab
            == "overview"@ && r@.last_session is None && r@.window is None && !r@.maximized,
        read is Some ==> r@ == sanitized((read->0)@),
{
}

} // verus!
