//! What becomes of a folder that is dropped on the window.

use crate::copy;
use crate::geometry::{self, max_of, mid_of, Frame, Point};
use crate::text::{self, same};
use vstd::prelude::*;

verus! {

/// What a drop asks for.
#[derive(Debug)]
pub enum DropAction {
    /// The folder is a session already; open it.
    OpenSession(String),
    /// The folder is no session yet; fill it into the form that makes one.
    PrefillInit(String),
    /// The drop could not be used, for that reason.
    Rejected(&'static str),
}

/// Which of the dropped things to go by: the first that has a path.
pub fn first_with_path(has_path: &[bool]) -> (r: Option<usize>)
    ensures
        match r {
            Some(i) => i < has_path@.len() && has_path@[i as int] && forall|j: int|
                0 <= j < i ==> !has_path@[j],
            None => forall|j: int| 0 <= j < has_path@.len() ==> !has_path@[j],
        },
{
    let mut i: usize = 0;
    while i < has_path.len()
        invariant
            i <= has_path@.len(),
            forall|j: int| 0 <= j < i ==> !has_path@[j],
        decreases has_path@.len() - i,
    {
        if has_path[i] {
            return Some(i);
        }
        i = i + 1;
    }
    None
}

fn listed(list: &[String], key: &str) -> (r: bool)
    ensures
        r == text::texts(list@).contains(key@),
{
    let mut i: usize = 0;
    let ghost all = text::texts(list@);
    while i < list.len()
        invariant
            i <= list@.len(),
            all == text::texts(list@),
            forall|j: int| 0 <= j < i ==> all[j] != key@,
        decreases list@.len() - i,
    {
        if same(list[i].as_str(), key) {
            proof {
                assert(all[i as int] == key@);
            }
            return true;
        }
        proof {
            assert(all[i as int] != key@);
        }
        i = i + 1;
    }
    false
}

/// Classifies a drop of so many things. `chosen` is the absolute path to go by,
/// if any of them had one, and whether it is a folder; `registered` are the
/// absolute paths of the sessions. Nothing comes of a drop of nothing.
pub fn take_drop(
    dropped: usize,
    chosen: Option<(String, bool)>,
    registered: &[String],
) -> (r: Option<DropAction>)
    ensures
        dropped == 0 <==> r is None,
        dropped > 0 ==> match chosen {
            None => r == Some(DropAction::Rejected(copy::DROP_REJECT_NO_PATH)),
            Some((folder, is_dir)) => if !is_dir {
                r == Some(DropAction::Rejected(copy::DROP_REJECT_NOT_FOLDER))
            } else if text::texts(registered@).contains(folder@) {
                r == Some(DropAction::OpenSession(folder))
            } else {
                r == Some(DropAction::PrefillInit(folder))
            },
        },
{
    if dropped == 0 {
        return None;
    }
    match chosen {
        None => Some(DropAction::Rejected(copy::DROP_REJECT_NO_PATH)),
        Some((folder, is_dir)) => if !is_dir {
            Some(DropAction::Rejected(copy::DROP_REJECT_NOT_FOLDER))
        } else if listed(registered, folder.as_str()) {
            Some(DropAction::OpenSession(folder))
        } else {
            Some(DropAction::PrefillInit(folder))
        },
    }
}

// ---------------------------------------------------------------------------
// The overlay
// ---------------------------------------------------------------------------

/// The card of the overlay, with its two lines.
#[derive(Clone, Copy, Debug)]
pub struct OverlayCard {
    /// The card.
    pub card: Frame,
    /// The upper left corner of the title.
    pub title: Point,
    /// The upper left corner of the hint.
    pub hint: Point,
}

/// The air at the sides of the card.
pub const CARD_PAD_X: i64 = 1_800;

/// The air over and under its lines.
pub const CARD_PAD_Y: i64 = 1_400;

/// The gap between its lines.
pub const LINE_GAP: i64 = 500;

/// Sets the card of the overlay in the middle of the window: as wide as the wider
/// of its two lines, each of which is centred on it.
pub fn overlay_card(
    screen: Frame,
    title_w: u32,
    title_h: u32,
    hint_w: u32,
    hint_h: u32,
) -> (r: OverlayCard)
    requires
        screen.near(),
    ensures
        ({
            let w = geometry::larger(title_w as int, hint_w as int) + 2 * CARD_PAD_X;
            let h = title_h + LINE_GAP + hint_h + 2 * CARD_PAD_Y;
            let mid = geometry::middle(screen.left as int, screen.right as int);
            &&& r.card.left == mid - w / 2
            &&& r.card.right == r.card.left + w
            &&& r.card.top == geometry::middle(screen.top as int, screen.bottom as int) - h / 2
            &&& r.card.bottom == r.card.top + h
            &&& r.title.x == mid - title_w as int / 2
            &&& r.title.y == r.card.top + CARD_PAD_Y
            &&& r.hint.x == mid - hint_w as int / 2
            &&& r.hint.y == r.title.y + title_h + LINE_GAP
        }),
{
    let w: i64 = max_of(title_w as i64, hint_w as i64) + 2 * CARD_PAD_X;
    let h: i64 = title_h as i64 + LINE_GAP + hint_h as i64 + 2 * CARD_PAD_Y;
    let mid: i64 = mid_of(screen.left, screen.right);
    let left: i64 = mid - w / 2;
    let top: i64 = mid_of(screen.top, screen.bottom) - h / 2;
    OverlayCard {
        card: Frame { left, top, right: left + w, bottom: top + h },
        title: Point { x: mid - (title_w / 2) as i64, y: top + CARD_PAD_Y },
        hint: Point {
            x: mid - (hint_w / 2) as i64,
            y: top + CARD_PAD_Y + title_h as i64 + LINE_GAP,
        },
    }
}

/// Both lines of the overlay lie on its card.
pub proof fn law_the_lines_lie_on_the_card(title_w: int, hint_w: int)
    requires
        title_w >= 0,
        hint_w >= 0,
    ensures
        ({
            let w = geometry::larger(title_w, hint_w) + 2 * CARD_PAD_X;
            &&& -(w / 2) < -(title_w / 2) && title_w - title_w / 2 < w - w / 2
            &&& -(w / 2) < -(hint_w / 2) && hint_w - hint_w / 2 < w - w / 2
        }),
{
}

/// A drop opens the folder that it names: as the session it is, where it is one,
/// and as a new one otherwise; anything that is no folder is turned away.
pub proof fn law_a_dropped_folder_is_opened(
    dropped: usize,
    folder: String,
    is_dir: bool,
    registered: &[String],
    r: Option<DropAction>,
)
    requires
        call_ensures(take_drop, (dropped, Some((folder, is_dir)), registered), r),
        dropped > 0,
    ensures
        is_dir && text::texts(registered@).contains(folder@) ==> r == Some(
            DropAction::OpenSession(folder),
        ),
        is_dir && !text::texts(registered@).contains(folder@) ==> r == Some(
            DropAction::PrefillInit(folder),
        ),
        !is_dir ==> r is Some && r->0 is Rejected,
{
}

} // verus!
