//! The closing page: what the build is made of, the type with its licenses, and
//! the promise it ends on.

use crate::text::Chars;
use vstd::prelude::*;

verus! {

/// What the program is, in one line.
pub const TAGLINE: &'static str = "strict-checkout folder sync between machines you trust — no server ever reads your files";

/// Where the licenses are.
pub const LICENSES: &'static str = "license texts ship inside the repository under assets/fonts";

/// What the program promises.
pub const PROMISE: &'static str = "Nothing here is ever overwritten unseen, and nothing is deleted unless you choose it. Every ambiguous moment keeps both copies and says so.";

/// The license of every face.
pub const OFL: &'static str = "SIL Open Font License 1.1";

/// One part of the page.
#[derive(Debug, Clone)]
pub enum Part {
    /// The wordmark under its star.
    Wordmark,
    /// A centred line.
    Text(&'static str),
    /// A centred line in faint ink.
    Faint(&'static str),
    /// The rule with the diamond.
    Rule,
    /// The name of a section.
    Section(&'static str),
    /// A key and its value.
    Leader(&'static str, String),
    /// The closing seal.
    Seal,
}

/// One part of the page as a value.
pub enum Shown {
    /// The wordmark under its star.
    Wordmark,
    /// A centred line.
    Text(Chars),
    /// A centred line in faint ink.
    Faint(Chars),
    /// The rule with the diamond.
    Rule,
    /// The name of a section.
    Section(Chars),
    /// A key and its value.
    Leader(Chars, Chars),
    /// The closing seal.
    Seal,
}

impl View for Part {
    type V = Shown;

    open spec fn view(&self) -> Shown {
        match self {
            Part::Wordmark => Shown::Wordmark,
            Part::Text(t) => Shown::Text(t@),
            Part::Faint(t) => Shown::Faint(t@),
            Part::Rule => Shown::Rule,
            Part::Section(t) => Shown::Section(t@),
            Part::Leader(k, v) => Shown::Leader(k@, v@),
            Part::Seal => Shown::Seal,
        }
    }
}

/// The page for a version.
pub open spec fn page(version: Chars) -> Seq<Shown> {
    seq![
        Shown::Wordmark,
        Shown::Text(TAGLINE@),
        Shown::Rule,
        Shown::Section("Build"@),
        Shown::Leader("version"@, version),
        Shown::Leader("interface"@, "egui, drawn in-process — no webview, no runtime"@),
        Shown::Leader("network"@, "iroh QUIC with NAT traversal, end-to-end encrypted"@),
        Shown::Leader("hashing"@, "BLAKE3 content addressing"@),
        Shown::Leader("chunking"@, "FastCDC content-defined chunks"@),
        Shown::Section("Type"@),
        Shown::Leader("IBM Plex Sans"@, OFL@),
        Shown::Leader("IBM Plex Sans Arabic"@, OFL@),
        Shown::Leader("IBM Plex Serif"@, OFL@),
        Shown::Leader("IBM Plex Mono"@, OFL@),
        Shown::Faint(LICENSES@),
        Shown::Rule,
        Shown::Seal,
        Shown::Text(PROMISE@),
    ]
}

/// The page for a version, from top to bottom.
pub fn colophon(version: &str) -> (r: Vec<Part>)
    ensures
        r@.map_values(|p: Part| p@) == page(version@),
{
    let mut r: Vec<Part> = Vec::new();
    r.push(Part::Wordmark);
    r.push(Part::Text(TAGLINE));
    r.push(Part::Rule);
    r.push(Part::Section("Build"));
    r.push(Part::Leader("version", version.to_owned()));
    r.push(
        Part::Leader("interface", "egui, drawn in-process — no webview, no runtime".to_owned()),
    );
    r.push(
        Part::Leader("network", "iroh QUIC with NAT traversal, end-to-end encrypted".to_owned()),
    );
    r.push(Part::Leader("hashing", "BLAKE3 content addressing".to_owned()));
    r.push(Part::Leader("chunking", "FastCDC content-defined chunks".to_owned()));
    r.push(Part::Section("Type"));
    r.push(Part::Leader("IBM Plex Sans", OFL.to_owned()));
    r.push(Part::Leader("IBM Plex Sans Arabic", OFL.to_owned()));
    r.push(Part::Leader("IBM Plex Serif", OFL.to_owned()));
    r.push(Part::Leader("IBM Plex Mono", OFL.to_owned()));
    r.push(Part::Faint(LICENSES));
    r.push(Part::Rule);
    r.push(Part::Seal);
    r.push(Part::Text(PROMISE));
    proof {
        assert(r@.map_values(|p: Part| p@) =~= page(version@));
    }
    r
}

} // verus!
