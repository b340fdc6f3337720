//! The application theme and the color-key button palette.

use vstd::prelude::*;

verus! {

/// The theme the user picked for the window.
#[derive(Clone, Copy, Debug, PartialEq, Eq, Structural)]
pub enum AppTheme {
    Light,
    Dark,
}

impl Default for AppTheme {
    /// A fresh installation starts in the light theme.
    fn default() -> (r: Self)
        ensures
            r is Light,
    {
        AppTheme::Light
    }
}

/// Which of the four broadcast color keys a button stands for.
#[derive(Clone, Copy, Debug, PartialEq, Eq, Structural)]
pub enum ColorKeyButtonStyle {
    ColorKeyRed,
    ColorKeyGreen,
    ColorKeyBlue,
    ColorKeyYellow,
}

impl Default for ColorKeyButtonStyle {
    /// The red key comes first in the row.
    fn default() -> (r: Self)
        ensures
            r is ColorKeyRed,
    {
        ColorKeyButtonStyle::ColorKeyRed
    }
}

} // verus!
