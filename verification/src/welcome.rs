//! The welcome screen's interaction model: the two clickable regions and
//! the action a hit on one of them means. Drawing the screen is the host
//! renderer's work.

use vstd::prelude::*;

verus! {

/// Opaque identifier for a clickable region.
#[derive(Debug, Clone, Copy, PartialEq, Eq, Hash, Structural)]
pub struct HitId(pub u32);

/// The hit id of the "create vault" button.
pub open spec fn hit_create_vault() -> HitId {
    HitId(1)
}

/// The hit id of the "open vault" button.
pub open spec fn hit_open_vault() -> HitId {
    HitId(2)
}

/// Action chosen by hit-testing the welcome screen.
#[derive(Debug, Clone, Copy, PartialEq, Structural)]
pub enum WelcomeAction {
    CreateVault,
    OpenVault,
    NoAction,
}

impl WelcomeAction {
    /// Maps a hit id to the corresponding action.
    pub fn from_hit(id: HitId) -> (r: WelcomeAction)
        ensures
            id == hit_create_vault() ==> r == WelcomeAction::CreateVault,
            id == hit_open_vault() ==> r == WelcomeAction::OpenVault,
            id != hit_create_vault() && id != hit_open_vault() ==> r == WelcomeAction::NoAction,
    {
        if id.0 == 1 {
            WelcomeAction::CreateVault
        } else if id.0 == 2 {
            WelcomeAction::OpenVault
        } else {
            WelcomeAction::NoAction
        }
    }
}

/// The compact centered launcher. Its layout and painting live with the
/// host renderer; the screen itself carries no state.
pub struct WelcomeScreen;

impl WelcomeScreen {
    /// Builds a welcome screen.
    pub fn new() -> (s: WelcomeScreen) {
        WelcomeScreen
    }
}

impl Default for WelcomeScreen {
    fn default() -> (s: WelcomeScreen) {
        WelcomeScreen::new()
    }
}

} // verus!
