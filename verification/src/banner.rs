//! The banner above the window's content, which tells of a missing internet
//! connection or of a branch list that could not be fetched.

use vstd::prelude::*;

verus! {

/// The text that the banner holds.
#[derive(PartialEq, Eq, Structural, Clone, Copy, Debug)]
pub enum BannerTitle {
    Unset,
    NoInternet,
    UrlError,
}

/// The banner's text and whether it is shown.
#[derive(PartialEq, Eq, Structural, Clone, Copy, Debug)]
pub struct BannerState {
    pub title: BannerTitle,
    pub revealed: bool,
}

/// The banner after a connectivity check: when online, a "no internet" banner
/// is hidden; when offline, the banner says "no internet" and shows, unless it
/// already tells of a branch list that could not be fetched.
pub open spec fn after_connectivity(s: BannerState, online: bool) -> BannerState {
    if online {
        if s.title == BannerTitle::NoInternet {
            BannerState { title: s.title, revealed: false }
        } else {
            s
        }
    } else if s.title != BannerTitle::UrlError {
        BannerState { title: BannerTitle::NoInternet, revealed: true }
    } else {
        s
    }
}

impl BannerState {
    /// The banner as the window starts: without text, hidden.
    pub fn new() -> (r: BannerState)
        ensures
            r == (BannerState { title: BannerTitle::Unset, revealed: false }),
    {
        BannerState { title: BannerTitle::Unset, revealed: false }
    }

    /// The banner after a connectivity check.
    pub fn on_connectivity(&self, online: bool) -> (r: BannerState)
        ensures
            r == after_connectivity(*self, online),
    {
        if online {
            if self.title == BannerTitle::NoInternet {
                BannerState { title: self.title, revealed: false }
            } else {
                *self
            }
        } else if self.title != BannerTitle::UrlError {
            BannerState { title: BannerTitle::NoInternet, revealed: true }
        } else {
            *self
        }
    }

    /// The banner after the branch list could not be fetched: it tells so and shows.
    pub fn on_branches_unavailable(&self) -> (r: BannerState)
        ensures
            r == (BannerState { title: BannerTitle::UrlError, revealed: true }),
    {
        BannerState { title: BannerTitle::UrlError, revealed: true }
    }
}

/// Once the banner tells of a branch list that could not be fetched,
/// connectivity checks no longer change it.
pub proof fn lemma_url_error_stays(s: BannerState, online: bool)
    requires
        s.title == BannerTitle::UrlError,
    ensures
        after_connectivity(s, online) == s,
{
}

/// Repeating a connectivity check with the same outcome changes nothing more.
pub proof fn lemma_connectivity_idempotent(s: BannerState, online: bool)
    ensures
        after_connectivity(after_connectivity(s, online), online) == after_connectivity(s, online),
{
}

/// Going offline shows the "no internet" banner, unless the banner tells of a
/// branch list that could not be fetched; coming back online then hides it.
pub proof fn lemma_offline_then_online(s: BannerState)
    requires
        s.title != BannerTitle::UrlError,
    ensures
        after_connectivity(s, false) == (BannerState { title: BannerTitle::NoInternet, revealed: true }),
        after_connectivity(after_connectivity(s, false), true) == (BannerState {
            title: BannerTitle::NoInternet,
            revealed: false,
        }),
{
}

/// Being online never shows the banner, and being offline never hides it.
pub proof fn lemma_connectivity_direction(s: BannerState)
    ensures
        after_connectivity(s, true).revealed ==> s.revealed,
        s.revealed ==> after_connectivity(s, false).revealed,
{
}

} // verus!
