//! Where the view stands.
use crate::geometry::{centered, share, Rect};
use vstd::prelude::*;

verus! {

/// The view on a screen.
#[derive(Clone, Copy, Debug, PartialEq, Eq, Structural)]
pub struct DataViewUi {
    pub area: Rect,
}

impl DataViewUi {
    /// The area of the view, with its border: four fifths of the screen, in its middle.
    pub fn popup(&self) -> (r: Rect)
        requires
            self.area.ends_count(),
            self.area.width * 80 <= u16::MAX,
            self.area.height * 80 <= u16::MAX,
        ensures
            r.width == share(self.area.width as int, 80),
            r.height == share(self.area.height as int, 80),
            r.x == self.area.x + (self.area.width - r.width) / 2,
            r.y == self.area.y + (self.area.height - r.height) / 2,
    {
        centered(self.area, 80, 80)
    }
}

} // verus!
