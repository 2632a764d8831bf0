//! The pause menu's action and page identifiers. Layout, rendering and
//! input handling live with the application; the terrain core only cares
//! that a few actions adjust its streaming configuration.
use vstd::prelude::*;

verus! {

/// An action a menu element can trigger.
#[derive(Debug, Clone, Copy, PartialEq, Eq, Structural)]
pub enum MenuAction {
    Resume,
    CreateWorld,
    OpenWorld,
    SaveConfig,
    OpenSettings,
    OpenAdvanced,
    BackToMain,
    CycleFpsCap,
    ToggleVsync,
    CycleRenderDistance,
    CycleFov,
    ToggleWireframe,
    CycleJobsInFlight,
    CycleDirtyPerFrame,
    CycleMinVertexCap,
    CycleMinIndexCap,
    CycleLandLevel,
    Quit,
}

/// Which page of the pause menu is open.
#[derive(Debug, Clone, Copy, PartialEq, Eq, Structural)]
pub enum MenuPage {
    Main,
    Settings,
    Advanced,
}

} // verus!
