//! Which program shows a folder to the user on which system.

use crate::text::{self, same, Chars};
use vstd::prelude::*;

verus! {

/// Whose file manager there is.
#[derive(Clone, Copy, PartialEq, Eq, Debug, Structural)]
pub enum Os {
    /// That of Windows.
    Windows,
    /// That of macOS.
    Mac,
    /// That of the Windows around a Linux.
    LinuxWsl,
    /// That of a Linux desktop.
    LinuxOther,
}

/// A program and its arguments.
#[derive(Debug)]
pub struct Launch {
    /// The program.
    pub program: String,
    /// Its arguments.
    pub args: Vec<String>,
}

impl Launch {
    /// The program and its arguments, by their texts.
    pub open spec fn line(&self) -> (Chars, Seq<Chars>) {
        (self.program@, text::texts(self.args@))
    }
}

/// The program that shows `path`, and what it is given. `windows` is the same
/// path as Windows writes it, where it could be had.
pub open spec fn opener(path: Chars, os: Os, windows: Option<Chars>) -> (Chars, Seq<Chars>) {
    match os {
        Os::Windows => ("explorer"@, seq![path]),
        Os::Mac => ("open"@, seq![path]),
        Os::LinuxWsl => match windows {
            Some(w) => ("explorer.exe"@, seq![w]),
            None => ("xdg-open"@, seq![path]),
        },
        Os::LinuxOther => ("xdg-open"@, seq![path]),
    }
}

/// The text of an optional string.
pub open spec fn maybe(s: Option<String>) -> Option<Chars> {
    match s {
        Some(t) => Some(t@),
        None => None,
    }
}

fn launch(program: &str, arg: String) -> (r: Launch)
    ensures
        r.line() == (program@, seq![arg@]),
{
    let mut args: Vec<String> = Vec::new();
    args.push(arg);
    proof {
        assert(text::texts(args@) =~= seq![args@[0]@]);
    }
    Launch { program: program.to_owned(), args }
}

/// The program that shows a folder, and what it is given. The path is handed on
/// exactly as it came.
pub fn command_for(path: &str, os: Os, windows: Option<String>) -> (r: Launch)
    ensures
        r.line() == opener(path@, os, maybe(windows)),
{
    match os {
        Os::Windows => launch("explorer", path.to_owned()),
        Os::Mac => launch("open", path.to_owned()),
        Os::LinuxWsl => match windows {
            Some(w) => launch("explorer.exe", w),
            None => launch("xdg-open", path.to_owned()),
        },
        Os::LinuxOther => launch("xdg-open", path.to_owned()),
    }
}

/// What to try in order to show a folder.
#[derive(Debug)]
pub struct Attempt {
    /// What to try first.
    pub first: Launch,
    /// What to try where that could not be started.
    pub fallback: Option<Launch>,
}

/// What to try in order to show a folder. Only a call across to Windows has a
/// fallback: the opener of the Linux desktop.
pub fn open_folder(path: &str, os: Os, windows: Option<String>) -> (r: Attempt)
    ensures
        r.first.line() == opener(path@, os, maybe(windows)),
        r.fallback is Some <==> os == Os::LinuxWsl && windows is Some,
        r.fallback is Some ==> (r.fallback->0).line() == opener(path@, Os::LinuxOther, None),
{
    let bridged: bool = match os {
        Os::LinuxWsl => windows.is_some(),
        _ => false,
    };
    let first: Launch = command_for(path, os, windows);
    let fallback: Option<Launch> = if bridged {
        Some(command_for(path, Os::LinuxOther, None))
    } else {
        None
    };
    Attempt { first, fallback }
}

/// The system a program runs on, from the name that it was built for and whether
/// it runs inside Windows.
pub fn detect_os(name: &str, wsl: bool) -> (r: Os)
    ensures
        r == (if name@ == "windows"@ {
            Os::Windows
        } else if name@ == "macos"@ {
            Os::Mac
        } else if wsl {
            Os::LinuxWsl
        } else {
            Os::LinuxOther
        }),
{
    if same(name, "windows") {
        Os::Windows
    } else if same(name, "macos") {
        Os::Mac
    } else if wsl {
        Os::LinuxWsl
    } else {
        Os::LinuxOther
    }
}

// ---------------------------------------------------------------------------
// Linux inside Windows
// ---------------------------------------------------------------------------

/// Whether two characters are the same but for the case of a Latin letter, where
/// the second is in lower case.
pub open spec fn same_letter(c: char, low: char) -> bool {
    c == low || ('a' <= low && low <= 'z' && 'A' <= c && c <= 'Z' && c as int + 32 == low as int)
}

/// Whether `word`, in lower case, stands in `s` at `at`, in whatever case.
pub open spec fn word_at(s: Chars, word: Chars, at: int) -> bool {
    &&& 0 <= at
    &&& at + word.len() <= s.len()
    &&& forall|i: int| 0 <= i < word.len() ==> same_letter(#[trigger] s[at + i], word[i])
}

/// Whether `word`, in lower case, stands anywhere in `s`, in whatever case.
pub open spec fn has_word(s: Chars, word: Chars) -> bool {
    exists|at: int| #[trigger] word_at(s, word, at)
}

fn letter(c: char, low: char) -> (r: bool)
    ensures
        r == same_letter(c, low),
{
    c == low || ('a' <= low && low <= 'z' && 'A' <= c && c <= 'Z' && c as u32 + 32 == low as u32)
}

fn stands_at(s: &Vec<char>, word: &Vec<char>, at: usize) -> (r: bool)
    requires
        at + word@.len() <= s@.len(),
    ensures
        r == word_at(s@, word@, at as int),
{
    let n: usize = s.len();
    let mut i: usize = 0;
    while i < word.len()
        invariant
            i <= word@.len(),
            n == s@.len(),
            at + word@.len() <= n,
            forall|j: int| 0 <= j < i ==> same_letter(#[trigger] s@[at + j], word@[j]),
        decreases word@.len() - i,
    {
        if !letter(s[at + i], word[i]) {
            proof {
                assert(!same_letter(s@[at + i], word@[i as int]));
            }
            return false;
        }
        i = i + 1;
    }
    true
}

/// Whether `word`, in lower case, stands anywhere in `s`, in whatever case.
pub fn mentions(s: &str, word: &str) -> (r: bool)
    ensures
        r == has_word(s@, word@),
{
    let cs: Vec<char> = text::chars(s);
    let ws: Vec<char> = text::chars(word);
    if ws.len() > cs.len() {
        return false;
    }
    let last: usize = cs.len() - ws.len();
    let mut at: usize = 0;
    while at < last
        invariant
            cs@ == s@,
            ws@ == word@,
            last == cs@.len() - ws@.len(),
            at <= last,
            forall|k: int| 0 <= k < at ==> !#[trigger] word_at(s@, word@, k),
        decreases last - at,
    {
        if stands_at(&cs, &ws, at) {
            return true;
        }
        at = at + 1;
    }
    stands_at(&cs, &ws, last)
}

/// Whether a Linux runs inside Windows: its kernel names Microsoft, and the tool
/// that maps paths is there. A kernel that could not be asked is `None`.
pub fn is_wsl(kernel: Option<&str>, has_wslpath: bool) -> (r: bool)
    ensures
        r == (match kernel {
            Some(v) => has_word(v@, "microsoft"@) && has_wslpath,
            None => false,
        }),
{
    match kernel {
        Some(v) => mentions(v, "microsoft") && has_wslpath,
        None => false,
    }
}

/// Whether a character ends a line.
pub open spec fn ends_line(c: char) -> bool {
    c == '\r' || c == '\n'
}

/// A text without the line ends behind it.
pub open spec fn without_line_ends(s: Chars) -> Chars
    decreases s.len(),
{
    if s.len() > 0 && ends_line(s.last()) {
        without_line_ends(s.drop_last())
    } else {
        s
    }
}

/// The path that a tool printed: what it printed without the line ends behind
/// it, or `None` where that is nothing.
pub fn printed_path(out: &str) -> (r: Option<String>)
    ensures
        match r {
            Some(p) => p@ == without_line_ends(out@) && p@.len() > 0,
            None => without_line_ends(out@).len() == 0,
        },
{
    let cs: Vec<char> = text::chars(out);
    let mut n: usize = cs.len();
    proof {
        assert(out@.take(n as int) =~= out@);
    }
    while n > 0 && (cs[n - 1] == '\r' || cs[n - 1] == '\n')
        invariant
            cs@ == out@,
            n <= cs@.len(),
            without_line_ends(out@.take(n as int)) == without_line_ends(out@),
        decreases n,
    {
        proof {
            assert(out@.take(n as int).drop_last() =~= out@.take(n - 1));
            assert(out@.take(n as int).last() == out@[n - 1]);
        }
        n = n - 1;
    }
    proof {
        if n > 0 {
            assert(out@.take(n as int).last() == out@[n - 1]);
        }
    }
    if n == 0 {
        return None;
    }
    let p: &str = out.substring_char(0, n);
    proof {
        assert(p@ =~= out@.take(n as int));
    }
    Some(p.to_owned())
}

/// A folder is opened with the tool of its system, and handed over as it is; from
/// within WSL it goes to the Windows tool by its Windows path, where it has one.
pub proof fn law_a_folder_opens_with_its_systems_tool(
    path: &str,
    os: Os,
    windows: Option<String>,
    r: Launch,
)
    requires
        call_ensures(command_for, (path, os, windows), r),
    ensures
        r.line().1.len() == 1,
        os == Os::Windows ==> r.line() == ("explorer"@, seq![path@]),
        os == Os::Mac ==> r.line() == ("open"@, seq![path@]),
        os == Os::LinuxOther ==> r.line() == ("xdg-open"@, seq![path@]),
        os == Os::LinuxWsl && windows is None ==> r.line() == ("xdg-open"@, seq![path@]),
        os == Os::LinuxWsl && windows is Some ==> r.line() == ("explorer.exe"@, seq![
            (windows->0)@,
        ]),
{
}

/// Where the Windows tool was tried first, the desktop's own is tried next.
pub proof fn law_the_desktops_tool_is_the_second_try(
    path: &str,
    os: Os,
    windows: Option<String>,
    r: Attempt,
)
    requires
        call_ensures(open_folder, (path, os, windows), r),
    ensures
        r.fallback is Some <==> os == Os::LinuxWsl && windows is Some,
        r.fallback is Some ==> (r.fallback->0).line() == ("xdg-open"@, seq![path@]) && r.first.line()
            == ("explorer.exe"@, seq![(windows->0)@]),
        r.fallback is None && os == Os::Windows ==> r.first.line() == ("explorer"@, seq![path@]),
        r.fallback is None && os == Os::Mac ==> r.first.line() == ("open"@, seq![path@]),
        r.fallback is None && os != Os::Windows && os != Os::Mac ==> r.first.line() == (
            "xdg-open"@,
            seq![path@],
        ),
{
}

/// A system is told by its name, and WSL only where it is neither of the others.
pub proof fn law_a_system_is_told_by_its_name(name: &str, wsl: bool, r: Os)
    requires
        call_ensures(detect_os, (name, wsl), r),
    ensures
        r == Os::Windows <==> name@ == "windows"@,
        r == Os::Mac <==> name@ == "macos"@,
        r == Os::LinuxWsl <==> name@ != "windows"@ && name@ != "macos"@ && wsl,
        r == Os::LinuxOther <==> name@ != "windows"@ && name@ != "macos"@ && !wsl,
{
    reveal_strlit("windows");
    reveal_strlit("macos");
    assert("windows"@.len() == 7 && "macos"@.len() == 5);
}

/// A kernel is WSL's where its version speaks of Microsoft, in capitals or not,
/// and the path tool is there.
pub proof fn law_wsl_speaks_of_microsoft(before: Chars, after: Chars)
    ensures
        has_word(before + "microsoft"@ + after, "microsoft"@),
        has_word(before + "Microsoft"@ + after, "microsoft"@),
        has_word(before + "MICROSOFT"@ + after, "microsoft"@),
{
    reveal_strlit("microsoft");
    reveal_strlit("Microsoft");
    reveal_strlit("MICROSOFT");
    assert(word_at(before + "microsoft"@ + after, "microsoft"@, before.len() as int));
    assert(word_at(before + "Microsoft"@ + after, "microsoft"@, before.len() as int));
    assert(word_at(before + "MICROSOFT"@ + after, "microsoft"@, before.len() as int));
}

/// WSL is told by its kernel and by its path tool together.
pub proof fn law_wsl_needs_both_signs(kernel: Option<&str>, has_wslpath: bool, r: bool)
    requires
        call_ensures(is_wsl, (kernel, has_wslpath), r),
    ensures
        r <==> kernel is Some && has_wslpath && has_word((kernel->0)@, "microsoft"@),
        r ==> exists|at: int|
            0 <= at && at + 9 <= (kernel->0)@.len() && ((#[trigger] (kernel->0)@[at]) == 'm' || (
            kernel->0)@[at] == 'M'),
{
    reveal_strlit("microsoft");
    if r {
        let s = (kernel->0)@;
        let at = choose|at: int| #[trigger] word_at(s, "microsoft"@, at);
        assert(same_letter(s[at + 0], "microsoft"@[0]));
        assert(s[at] == 'm' || s[at] == 'M');
    }
}

/// What a tool printed is taken without the line ends behind it, and with every
/// other character.
pub proof fn law_line_ends_are_dropped(s: Chars, ends: Chars)
    requires
        s.len() > 0 ==> s.last() != '\r' && s.last() != '\n',
        forall|i: int| 0 <= i < ends.len() ==> (#[trigger] ends[i]) == '\r' || ends[i] == '\n',
    ensures
        without_line_ends(s + ends) == s,
    decreases ends.len(),
{
    if ends.len() == 0 {
        assert(s + ends =~= s);
    } else {
        law_line_ends_are_dropped(s, ends.drop_last());
        assert((s + ends).last() == ends[ends.len() - 1]);
        assert((s + ends).drop_last() =~= s + ends.drop_last());
    }
}

} // verus!
