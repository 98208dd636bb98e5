//! Choosing a folder: which dialog is put up, and what its answer means.
//!
//! A dialog that was cancelled and one that never came up are told apart, so
//! that nothing fails in silence.

use crate::text::{self, trim, Chars};
use vstd::prelude::*;

verus! {

/// Why no folder came back.
#[derive(Debug, Clone, PartialEq, Eq)]
pub enum PickError {
    /// The user closed the dialog.
    Cancelled,
    /// No dialog could be shown, for that reason.
    NoBackend(String),
}

/// Which dialog is put up.
#[derive(Clone, Copy, PartialEq, Eq, Debug, Structural)]
pub enum Backend {
    /// That of the Windows around a Linux.
    WindowsBridge,
    /// That of the desktop.
    Rfd,
    /// None can be shown.
    Nothing,
}

/// What PowerShell runs to put up the dialog of Windows. It prints the chosen
/// path, and nothing where the dialog was cancelled.
pub const PS_PICK: &'static str = "$ErrorActionPreference='Stop'; $s = New-Object -ComObject Shell.Application; $f = $s.BrowseForFolder(0, 'Choose a folder to sync', 0); if ($f -ne $null) { $f.Self.Path }";

/// What is said where no dialog can be shown.
pub const NO_BACKEND_HINT: &'static str = "no folder dialog is available on this desktop — install xdg-desktop-portal-gtk (or xdg-desktop-portal-kde), or type the folder path into the field instead";

/// What is said where the dialog of Windows fails.
pub const BRIDGE_FAILED: &'static str = "the Windows folder picker exited with an error";

/// Which dialog is put up. Inside Windows it is that of Windows, where PowerShell
/// is there; elsewhere it is that of the desktop, but on a Linux without a portal
/// there is none.
pub fn backend(wsl: bool, powershell: bool, linux: bool, portal: bool) -> (r: Backend)
    ensures
        r == (if wsl && powershell {
            Backend::WindowsBridge
        } else if !linux || portal {
            Backend::Rfd
        } else {
            Backend::Nothing
        }),
{
    if wsl && powershell {
        Backend::WindowsBridge
    } else if !linux || portal {
        Backend::Rfd
    } else {
        Backend::Nothing
    }
}

/// The directories in which a portal may be installed.
pub open spec fn portal_places() -> Seq<Chars> {
    seq![
        "/usr/libexec"@,
        "/usr/lib/xdg-desktop-portal"@,
        "/usr/lib"@,
        "/usr/local/libexec"@,
        "/usr/lib/x86_64-linux-gnu"@,
        "/usr/lib/aarch64-linux-gnu"@,
    ]
}

/// The directories in which a portal may be installed.
pub fn portal_dirs() -> (r: Vec<&'static str>)
    ensures
        text::slices(r@) == portal_places(),
{
    let mut r: Vec<&'static str> = Vec::new();
    r.push("/usr/libexec");
    r.push("/usr/lib/xdg-desktop-portal");
    r.push("/usr/lib");
    r.push("/usr/local/libexec");
    r.push("/usr/lib/x86_64-linux-gnu");
    r.push("/usr/lib/aarch64-linux-gnu");
    proof {
        assert(text::slices(r@) =~= portal_places());
    }
    r
}

/// Whether a portal is installed: in one of its directories, or on the path.
pub fn portal_present(found: &[bool], on_path: bool) -> (r: bool)
    ensures
        r == (on_path || found@.contains(true)),
{
    let mut i: usize = 0;
    while i < found.len()
        invariant
            i <= found@.len(),
            forall|j: int| 0 <= j < i ==> !found@[j],
        decreases found@.len() - i,
    {
        if found[i] {
            proof {
                assert(found@[i as int] == true);
            }
            return true;
        }
        i = i + 1;
    }
    on_path
}

// ---------------------------------------------------------------------------
// The dialog of Windows
// ---------------------------------------------------------------------------

/// The last line break among the first `n` characters of `s`.
pub open spec fn last_break(s: Chars, n: int) -> Option<int>
    decreases n,
{
    if n <= 0 {
        None
    } else if s[n - 1] == '\n' {
        Some(n - 1)
    } else {
        last_break(s, n - 1)
    }
}

/// The last line of `s` that is not blank, trimmed.
pub open spec fn last_line(s: Chars) -> Option<Chars>
    decreases s.len(),
{
    match last_break(s, s.len() as int) {
        Some(at) => {
            let line = text::trimmed(s.skip(at + 1));
            if line.len() > 0 {
                Some(line)
            } else if 0 <= at < s.len() {
                last_line(s.take(at))
            } else {
                None
            }
        },
        None => if text::trimmed(s).len() > 0 {
            Some(text::trimmed(s))
        } else {
            None
        },
    }
}

proof fn lemma_last_break(s: Chars, n: int)
    requires
        0 <= n <= s.len(),
    ensures
        match last_break(s, n) {
            Some(at) => 0 <= at < n && s[at] == '\n',
            None => true,
        },
    decreases n,
{
    if n > 0 && s[n - 1] != '\n' {
        lemma_last_break(s, n - 1);
    }
}

proof fn lemma_last_break_in_prefix(s: Chars, n: int, len: int)
    requires
        0 <= n <= len <= s.len(),
    ensures
        last_break(s.take(len), n) == last_break(s, n),
    decreases n,
{
    if n > 0 {
        assert(s.take(len)[n - 1] == s[n - 1]);
        lemma_last_break_in_prefix(s, n - 1, len);
    }
}

/// The path that the dialog of Windows printed: its last line that is not blank,
/// trimmed, or `None` where the dialog was cancelled and printed nothing.
pub fn parse_ps_path(stdout: &str) -> (r: Option<String>)
    ensures
        match r {
            Some(p) => last_line(stdout@) == Some(p@),
            None => last_line(stdout@) is None,
        },
{
    let cs: Vec<char> = text::chars(stdout);
    let mut end: usize = cs.len();
    proof {
        assert(stdout@.take(end as int) =~= stdout@);
    }
    loop
        invariant
            cs@ == stdout@,
            end <= cs@.len(),
            last_line(stdout@.take(end as int)) == last_line(stdout@),
        decreases end,
    {
        let mut from: usize = end;
        while from > 0 && cs[from - 1] != '\n'
            invariant
                cs@ == stdout@,
                from <= end <= cs@.len(),
                last_break(stdout@, end as int) == last_break(stdout@, from as int),
            decreases from,
        {
            from = from - 1;
        }
        proof {
            lemma_last_break_in_prefix(stdout@, end as int, end as int);
        }
        let line: &str = trim(stdout.substring_char(from, end));
        let ghost whole = stdout@.take(end as int);
        proof {
            if from > 0 {
                assert(whole.skip(from as int) =~= stdout@.subrange(from as int, end as int));
                assert(last_break(whole, end as int) == Some(from - 1));
                assert(whole.take(from - 1) =~= stdout@.take(from - 1));
            } else {
                assert(whole =~= stdout@.subrange(0, end as int));
                assert(last_break(whole, end as int) is None);
            }
        }
        if !line.is_empty() {
            return Some(line.to_owned());
        }
        if from == 0 {
            return None;
        }
        end = from - 1;
    }
}

/// What became of the dialog of Windows.
#[derive(Debug)]
pub enum Ran {
    /// PowerShell could not be run, for that reason.
    NotRun(String),
    /// It ran and failed.
    Failed,
    /// It ran and printed that.
    Printed(String),
}

/// The text of why no folder came back; none where the dialog was cancelled.
pub open spec fn reason(e: PickError) -> Option<Chars> {
    match e {
        PickError::Cancelled => None,
        PickError::NoBackend(s) => Some(s@),
    }
}

/// The path that the dialog of Windows chose, as Windows writes it, or why there
/// is none.
pub fn windows_choice(ran: Ran) -> (r: Result<String, PickError>)
    ensures
        match ran {
            Ran::NotRun(e) => r is Err && reason(r->Err_0) == Some(
                "could not run powershell.exe: "@ + e@,
            ),
            Ran::Failed => r is Err && reason(r->Err_0) == Some(BRIDGE_FAILED@),
            Ran::Printed(out) => match last_line(out@) {
                Some(p) => r is Ok && (r->Ok_0)@ == p,
                None => r is Err && reason(r->Err_0) is None,
            },
        },
{
    match ran {
        Ran::NotRun(e) => {
            let mut s: String = "could not run powershell.exe: ".to_owned();
            s.append(e.as_str());
            Err(PickError::NoBackend(s))
        },
        Ran::Failed => Err(PickError::NoBackend(BRIDGE_FAILED.to_owned())),
        Ran::Printed(out) => match parse_ps_path(out.as_str()) {
            Some(p) => Ok(p),
            None => Err(PickError::Cancelled),
        },
    }
}

/// The path that the tool printed which maps it back: what it printed, trimmed,
/// or `None` where that is nothing.
pub fn unix_path(out: &str) -> (r: Option<String>)
    ensures
        match r {
            Some(p) => p@ == text::trimmed(out@) && p@.len() > 0,
            None => text::trimmed(out@).len() == 0,
        },
{
    let t: &str = trim(out);
    if t.is_empty() {
        None
    } else {
        Some(t.to_owned())
    }
}

/// The folder that the dialog of Windows chose: its path here, or why there is
/// none. `mapped` is that path, where it could be mapped back.
pub fn pick_via_windows(windows: &str, mapped: Option<String>) -> (r: Result<String, PickError>)
    ensures
        match mapped {
            Some(p) => r is Ok && (r->Ok_0)@ == p@,
            None => r is Err && reason(r->Err_0) == Some(
                "could not map the Windows path "@ + windows@ + " back into WSL"@,
            ),
        },
{
    match mapped {
        Some(p) => Ok(p),
        None => {
            let mut s: String = "could not map the Windows path ".to_owned();
            s.append(windows);
            s.append(" back into WSL");
            Err(PickError::NoBackend(s))
        },
    }
}

// ---------------------------------------------------------------------------
// The choice
// ---------------------------------------------------------------------------

/// What to do next in order to choose a folder.
#[derive(Debug)]
pub enum PickStep {
    /// Put up the dialog of Windows.
    AskWindows,
    /// Put up the dialog of the desktop.
    AskDesktop,
    /// Give that answer.
    Answer(Result<String, PickError>),
}

/// What to do next in order to choose a folder. `windows` is the answer of the
/// dialog of Windows, once it has one. A cancelled dialog is an answer; where
/// that dialog fails, the desktop still gets its chance.
pub fn pick(backend: Backend, windows: Option<Result<String, PickError>>) -> (r: PickStep)
    ensures
        match backend {
            Backend::Nothing => match r {
                PickStep::Answer(Err(e)) => reason(e) == Some(NO_BACKEND_HINT@),
                _ => false,
            },
            Backend::Rfd => r is AskDesktop,
            Backend::WindowsBridge => match windows {
                None => r is AskWindows,
                Some(Ok(p)) => match r {
                    PickStep::Answer(Ok(q)) => q@ == p@,
                    _ => false,
                },
                Some(Err(e)) => if reason(e) is None {
                    r == PickStep::Answer(Err(PickError::Cancelled))
                } else {
                    r is AskDesktop
                },
            },
        },
{
    match backend {
        Backend::Nothing => PickStep::Answer(Err(PickError::NoBackend(NO_BACKEND_HINT.to_owned()))),
        Backend::Rfd => PickStep::AskDesktop,
        Backend::WindowsBridge => match windows {
            None => PickStep::AskWindows,
            Some(Ok(p)) => PickStep::Answer(Ok(p)),
            Some(Err(PickError::Cancelled)) => PickStep::Answer(Err(PickError::Cancelled)),
            Some(Err(_)) => PickStep::AskDesktop,
        },
    }
}

/// The answer of the dialog of the desktop: a dialog that gave no folder was
/// cancelled, and one that gave a folder gave exactly that one.
pub fn pick_via_rfd<P>(chosen: Option<P>) -> (r: Result<P, PickError>)
    ensures
        match chosen {
            Some(p) => r == Ok::<P, PickError>(p),
            None => r == Err::<P, PickError>(PickError::Cancelled),
        },
{
    match chosen {
        Some(p) => Ok(p),
        None => Err(PickError::Cancelled),
    }
}

/// The Windows dialog is asked from within WSL where it can be; the desktop's own
/// off Linux, or where a portal serves it; and else there is none.
pub proof fn law_the_dialog_is_the_one_at_hand(
    wsl: bool,
    powershell: bool,
    linux: bool,
    portal: bool,
    r: Backend,
)
    requires
        call_ensures(backend, (wsl, powershell, linux, portal), r),
    ensures
        r == Backend::WindowsBridge <==> wsl && powershell,
        r == Backend::Rfd <==> !(wsl && powershell) && (!linux || portal),
        r == Backend::Nothing <==> !(wsl && powershell) && linux && !portal,
{
}

/// The choice is the last line that is not blank, trimmed: blank lines behind it
/// and whatever was printed before it do not matter.
pub proof fn law_the_last_line_is_the_choice(before: Chars, line: Chars, blank: Chars)
    requires
        text::trimmed(line).len() > 0,
        forall|i: int| 0 <= i < line.len() ==> #[trigger] line[i] != '\n',
        forall|i: int| 0 <= i < blank.len() ==> text::is_white(#[trigger] blank[i]),
        before.len() > 0 ==> before.last() == '\n',
        blank.len() > 0 ==> blank[0] == '\n',
    ensures
        last_line(before + line + blank) == Some(text::trimmed(line)),
        last_line(blank) is None,
    decreases blank.len(),
{
    let s = before + line + blank;
    let n = s.len() as int;
    if blank.len() == 0 {
        assert(s =~= before + line);
        lemma_break_before(before, line, n);
        assert(s.skip(before.len() as int) =~= line);
        assert(blank =~= Seq::<char>::empty());
        assert(text::trimmed(blank).len() == 0);
    } else {
        let at = lemma_break_in(blank, blank.len() as int);
        lemma_break_shifts(before + line, blank, at, blank.len() as int);
        let head = blank.take(at);
        let tail = blank.skip(at + 1);
        assert(s =~= before + line + blank);
        assert(s.skip(before.len() + line.len() + at + 1) =~= tail);
        lemma_white_trims_away(tail);
        assert(s.take(before.len() + line.len() + at) =~= before + line + head);
        assert forall|i: int| 0 <= i < head.len() implies text::is_white(#[trigger] head[i]) by {
            assert(head[i] == blank[i]);
        }
        if head.len() > 0 {
            assert(head[0] == blank[0]);
        }
        law_the_last_line_is_the_choice(before, line, head);
    }
}

proof fn lemma_white_trims_away(s: Chars)
    requires
        forall|i: int| 0 <= i < s.len() ==> text::is_white(#[trigger] s[i]),
    ensures
        text::trimmed(s).len() == 0,
{
    text::lemma_trim_padded(s, s.len() as int);
}

proof fn lemma_break_before(before: Chars, line: Chars, n: int)
    requires
        before.len() <= n <= before.len() + line.len(),
        forall|i: int| 0 <= i < line.len() ==> #[trigger] line[i] != '\n',
        before.len() > 0 ==> before.last() == '\n',
    ensures
        last_break(before + line, n) == if before.len() == 0 {
            None::<int>
        } else {
            Some(before.len() - 1)
        },
    decreases n,
{
    let s = before + line;
    if n > before.len() {
        assert(s[n - 1] == line[n - 1 - before.len()]);
        lemma_break_before(before, line, n - 1);
    } else if n > 0 {
        assert(s[n - 1] == before.last());
    }
}

proof fn lemma_break_in(blank: Chars, n: int) -> (at: int)
    requires
        0 < n <= blank.len(),
        blank[0] == '\n',
    ensures
        0 <= at < n,
        blank[at] == '\n',
        last_break(blank, n) == Some(at),
    decreases n,
{
    if blank[n - 1] == '\n' {
        n - 1
    } else {
        lemma_break_in(blank, n - 1)
    }
}

proof fn lemma_break_shifts(front: Chars, back: Chars, at: int, n: int)
    requires
        0 <= at < n <= back.len(),
        last_break(back, n) == Some(at),
    ensures
        last_break(front + back, front.len() + n) == Some(front.len() + at),
    decreases n,
{
    let s = front + back;
    assert(s[front.len() + n - 1] == back[n - 1]);
    if back[n - 1] != '\n' {
        assert(last_break(back, n - 1) == Some(at));
        if n - 1 <= at {
            lemma_break_is_below(back, n - 1);
        }
        lemma_break_shifts(front, back, at, n - 1);
    }
}

proof fn lemma_break_is_below(s: Chars, n: int)
    ensures
        last_break(s, n) is Some ==> last_break(s, n)->0 < n,
    decreases n,
{
    if n > 0 {
        lemma_break_is_below(s, n - 1);
    }
}

/// What the Windows dialog came to: its choice where it printed one, nothing
/// chosen where it printed none, and a reason where it could not be asked.
pub proof fn law_a_cancelled_dialog_is_no_failure(ran: Ran, r: Result<String, PickError>)
    requires
        call_ensures(windows_choice, (ran,), r),
    ensures
        ran is Printed && last_line(ran->Printed_0@) is Some ==> r is Ok && (r->Ok_0)@ == last_line(
            ran->Printed_0@,
        )->0,
        ran is Printed && last_line(ran->Printed_0@) is None ==> r is Err && r->Err_0
            == PickError::Cancelled,
        !(ran is Printed) ==> r is Err && r->Err_0 is NoBackend,
{
}

/// A portal is there where its folder was found anywhere or its tool is on the
/// path.
pub proof fn law_a_portal_is_found_anywhere(found: &[bool], on_path: bool, r: bool, i: int)
    requires
        call_ensures(portal_present, (found, on_path), r),
    ensures
        on_path ==> r,
        0 <= i < found@.len() && found@[i] ==> r,
        r && !on_path ==> exists|j: int| 0 <= j < found@.len() && #[trigger] found@[j],
{
    if r && !on_path {
        let j = found@.index_of(true);
        assert(found@[j]);
    }
}

/// With no dialog at hand the answer is how to get one; a cancelled Windows dialog
/// is final, a failed one leads to the desktop's own, and its choice is the
/// answer.
pub proof fn law_a_failed_dialog_leads_to_the_next(
    windows: Option<Result<String, PickError>>,
    none: PickStep,
    desk: PickStep,
    win: PickStep,
)
    requires
        call_ensures(pick, (Backend::Nothing, windows), none),
        call_ensures(pick, (Backend::Rfd, windows), desk),
        call_ensures(pick, (Backend::WindowsBridge, windows), win),
    ensures
        none is Answer && none->Answer_0 is Err && none->Answer_0->Err_0 is NoBackend,
        desk is AskDesktop,
        windows is None ==> win is AskWindows,
        windows is Some && windows->0 is Ok ==> win is Answer && win->Answer_0 is Ok && (
        win->Answer_0->Ok_0)@ == (windows->0->Ok_0)@,
        windows is Some && windows->0 is Err && windows->0->Err_0 == PickError::Cancelled ==> win
            == PickStep::Answer(Err(PickError::Cancelled)),
        windows is Some && windows->0 is Err && windows->0->Err_0 is NoBackend ==> win is AskDesktop,
{
}

} // verus!
