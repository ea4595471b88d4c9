//! Named screen regions (the ROI map UI tests read), the icon set and the
//! settings window's open flag.

use vstd::prelude::*;

verus! {

/// Named screen regions — the stable ROI map for UI tests.
#[derive(Debug, Clone, Copy, PartialEq, Eq, Structural)]
pub enum Roi {
    MenuBar,
    Plot,
    Descriptors,
    Dialog,
    FrontPanel,
    /// Overlaid on the plot's right edge (trigger level indicator).
    TrigBadge,
    /// Overlaid along the plot's bottom (measurement readouts).
    MeasOverlay,
}

/// The script-facing name of a region.
pub open spec fn roi_name(r: Roi) -> Seq<char> {
    match r {
        Roi::MenuBar => "menu_bar"@,
        Roi::Plot => "plot"@,
        Roi::Descriptors => "descriptors"@,
        Roi::Dialog => "dialog"@,
        Roi::FrontPanel => "front_panel"@,
        Roi::TrigBadge => "trig_badge"@,
        Roi::MeasOverlay => "meas_overlay"@,
    }
}

impl Roi {
    /// Every region, in the order the layout dump lists them.
    pub const ALL: [Roi; 7] = [
        Roi::MenuBar,
        Roi::Plot,
        Roi::Descriptors,
        Roi::Dialog,
        Roi::FrontPanel,
        Roi::TrigBadge,
        Roi::MeasOverlay,
    ];

    /// The region's script-facing name.
    pub fn name(self) -> (s: &'static str)
        ensures
            s@ == roi_name(self),
    {
        match self {
            Roi::MenuBar => "menu_bar",
            Roi::Plot => "plot",
            Roi::Descriptors => "descriptors",
            Roi::Dialog => "dialog",
            Roi::FrontPanel => "front_panel",
            Roi::TrigBadge => "trig_badge",
            Roi::MeasOverlay => "meas_overlay",
        }
    }
}

/// The icons the view toolbar draws.
#[derive(Debug, Clone, Copy, PartialEq, Eq, Structural)]
pub enum Icon {
    Home,
    ArrowLeft,
    ArrowRight,
    ArrowUp,
    ArrowDown,
    ZoomIn,
    ZoomOut,
    /// Circular arrow (reset/re-centre).
    Recenter,
}

/// Whether the settings window is open.
#[derive(Debug, Clone, Copy, PartialEq, Eq, Default)]
pub struct Settings {
    pub open: bool,
}

} // verus!
