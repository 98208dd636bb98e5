//! What the window knows of its own version.

use crate::text::{same, Chars};
use vstd::prelude::*;

verus! {

/// Where the window stands with updates. Times are seconds since it opened.
#[derive(Debug, Clone)]
pub struct UpdateState {
    /// The version that is running.
    pub current: String,
    /// The latest release the last check found.
    pub latest: Option<String>,
    /// When the last check finished.
    pub checked_at: Option<u64>,
    /// Whether a check is running.
    pub busy: bool,
    /// Whether a release was installed and waits for a restart.
    pub applied: bool,
    /// Why the last check failed, where it did.
    pub error: Option<String>,
}

impl UpdateState {
    /// The release to speak of: the latest one found, or the running one.
    pub open spec fn release(&self) -> Chars {
        match self.latest {
            Some(l) => l@,
            None => self.current@,
        }
    }

    /// Whether the latest release found is another one than is running.
    pub open spec fn is_available(&self) -> bool {
        self.latest is Some && (self.latest->0)@ != self.current@
    }

    /// Whether a release other than the running one was found.
    pub fn available(&self) -> (r: bool)
        ensures
            r == self.is_available(),
    {
        match &self.latest {
            Some(l) => !same(l.as_str(), self.current.as_str()),
            None => false,
        }
    }

    /// The release to speak of.
    pub fn latest_or_current(&self) -> (r: &str)
        ensures
            r@ == self.release(),
    {
        match &self.latest {
            Some(l) => l.as_str(),
            None => self.current.as_str(),
        }
    }
}

impl Default for UpdateState {
    fn default() -> (r: Self)
        ensures
            r.current@ == Seq::<char>::empty(),
            r.latest is None,
            r.checked_at is None,
            !r.busy,
            !r.applied,
            r.error is None,
    {
        UpdateState {
            current: String::new(),
            latest: None,
            checked_at: None,
            busy: false,
            applied: false,
            error: None,
        }
    }
}

} // verus!
