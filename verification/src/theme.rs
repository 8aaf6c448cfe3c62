//! The colour families of the buttons of the bottom grid.
use vstd::prelude::*;

verus! {

/// The colours of a button of the bottom grid, as on Directory Opus 4.
#[derive(Clone, Copy, PartialEq, Eq, Debug, Structural)]
pub enum ButtonStyle {
    Blue,
    Purple,
    Orange,
    Black,
    Grey,
    Red,
}

/// A colour by its red, green and blue components.
pub type Rgb = (u8, u8, u8);

/// The background and text colours of the buttons of the family `style`.
pub open spec fn style_colors(style: ButtonStyle) -> (Rgb, Rgb) {
    match style {
        ButtonStyle::Blue => ((0, 83, 184), (255, 232, 42)),
        ButtonStyle::Purple => ((116, 0, 114), (255, 232, 42)),
        ButtonStyle::Orange => ((238, 170, 67), (91, 17, 94)),
        ButtonStyle::Black => ((0, 0, 0), (238, 170, 67)),
        ButtonStyle::Grey => ((170, 170, 170), (91, 17, 94)),
        ButtonStyle::Red => ((204, 35, 1), (255, 232, 42)),
    }
}

impl ButtonStyle {
    /// The background and text colours of a button of this family: yellow
    /// text on blue, purple or red, purple text on orange or grey, orange
    /// text on black.
    pub fn colors(self) -> (c: (Rgb, Rgb))
        ensures
            c == style_colors(self),
    {
        let yellow: Rgb = (255, 232, 42);
        let purple: Rgb = (91, 17, 94);
        let orange: Rgb = (238, 170, 67);
        match self {
            ButtonStyle::Blue => ((0, 83, 184), yellow),
            ButtonStyle::Purple => ((116, 0, 114), yellow),
            ButtonStyle::Orange => (orange, purple),
            ButtonStyle::Black => ((0, 0, 0), orange),
            ButtonStyle::Grey => ((170, 170, 170), purple),
            ButtonStyle::Red => ((204, 35, 1), yellow),
        }
    }
}

} // verus!
