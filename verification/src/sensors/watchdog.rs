//! MIKROE-4416 Watchdog Click (TI TPS3430 window watchdog) wired with SET0
//! tied high: only the disabled and 1:2 window modes are reachable, chosen
//! by the SET1 pin.
use vstd::prelude::*;

verus! {

/// Watchdog window modes reachable with SET0 hard-wired to 3V3.
#[derive(Debug, Clone, Copy, PartialEq, Eq, Structural)]
pub enum WatchdogWindow {
    /// SET1 low: watchdog disabled; WDO never asserts and WDI is ignored.
    Disabled,
    /// SET1 high: 1:2 lower-to-upper window boundary ratio.
    Ratio1To2,
}

/// Watchdog driver errors.
#[derive(Debug, Clone, Copy, PartialEq, Eq, Structural)]
pub enum WatchdogError {
    GpioError,
}

impl WatchdogWindow {
    /// Whether the SET1 pin is high in this window.
    pub open spec fn set1_high_spec(self) -> bool {
        self == WatchdogWindow::Ratio1To2
    }

    /// Whether the SET1 pin is driven high to select this window.
    pub fn set1_high(self) -> (high: bool)
        ensures
            high == self.set1_high_spec(),
    {
        match self {
            WatchdogWindow::Disabled => false,
            WatchdogWindow::Ratio1To2 => true,
        }
    }
}

/// The window in force after start-up: SET1 is driven low, so the watchdog
/// expects no pulses until a window is chosen.
pub fn initial_window() -> (w: WatchdogWindow)
    ensures
        w == WatchdogWindow::Disabled,
        !w.set1_high_spec(),
{
    WatchdogWindow::Disabled
}

} // verus!
