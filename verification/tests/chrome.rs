//! The frame of the window.

use tazamun_gui::chrome::{band_rect, TITLEBAR_H};
use tazamun_gui::geometry::Frame;

fn bar(w: i64) -> Frame {
    Frame { left: 0, top: 0, right: w * 100, bottom: i64::from(TITLEBAR_H) }
}

#[test]
fn the_band_sits_clear_at_the_foot_of_the_bar() {
    let bar = bar(900);
    let band = band_rect(bar);
    assert!(band.is_positive());
    assert!(band.bottom < bar.bottom, "{band:?}");
    assert!(band.top > bar.bottom / 2, "{band:?}");
    assert!(band.left > bar.left && band.right < bar.right);
}

#[test]
fn a_bar_too_narrow_for_the_band_yields_nothing_to_paint() {
    assert!(!band_rect(bar(8)).is_positive());
    assert!(!band_rect(bar(0)).is_positive());
}
