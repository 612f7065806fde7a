//! The padding configuration of a single cell: an inner indent on each of
//! its four sides. A padding is a plain value; handing it to a rendering
//! layer is the caller's business.

use vstd::prelude::*;

verus! {

/// One side's indent: how many characters of padding, and which character
/// fills them.
#[derive(Clone, Copy, Debug, PartialEq, Eq, Structural)]
pub struct Indent {
    /// The character the padding is filled with.
    pub fill: char,
    /// How many characters wide the padding is.
    pub size: usize,
}

impl Indent {
    /// An indent of the given width, filled with spaces.
    pub fn spaced(size: usize) -> (indent: Indent)
        ensures
            indent == (Indent { fill: ' ', size }),
    {
        Indent { fill: ' ', size }
    }
}

/// Padding is responsible for the left/right/top/bottom inner indent of a
/// particular cell.
#[derive(Clone, Copy, Debug, PartialEq, Eq, Structural)]
pub struct Padding {
    /// The indent left of the content.
    pub left: Indent,
    /// The indent right of the content.
    pub right: Indent,
    /// The indent above the content.
    pub top: Indent,
    /// The indent below the content.
    pub bottom: Indent,
}

impl Padding {
    /// Constructs a padding with the given width on each side.
    ///
    /// It uses space (`' '`) as the fill character on every side. To set a
    /// custom character use [`Self::set_fill`].
    pub fn new(left: usize, right: usize, top: usize, bottom: usize) -> (padding: Padding)
        ensures
            padding == (Padding {
                left: Indent { fill: ' ', size: left },
                right: Indent { fill: ' ', size: right },
                top: Indent { fill: ' ', size: top },
                bottom: Indent { fill: ' ', size: bottom },
            }),
    {
        Padding {
            top: Indent::spaced(top),
            bottom: Indent::spaced(bottom),
            left: Indent::spaced(left),
            right: Indent::spaced(right),
        }
    }

    /// Constructs a padding with every side set to width zero, filled with
    /// spaces.
    pub fn zero() -> (padding: Padding)
        ensures
            padding == (Padding {
                left: Indent { fill: ' ', size: 0 },
                right: Indent { fill: ' ', size: 0 },
                top: Indent { fill: ' ', size: 0 },
                bottom: Indent { fill: ' ', size: 0 },
            }),
    {
        let indent = Indent::spaced(0);
        Padding { top: indent, bottom: indent, left: indent, right: indent }
    }

    /// Sets the fill character of each side, keeping every width.
    pub fn set_fill(self, left: char, right: char, top: char, bottom: char) -> (padding: Padding)
        ensures
            padding == (Padding {
                left: Indent { fill: left, size: self.left.size },
                right: Indent { fill: right, size: self.right.size },
                top: Indent { fill: top, size: self.top.size },
                bottom: Indent { fill: bottom, size: self.bottom.size },
            }),
    {
        Padding {
            left: Indent { fill: left, size: self.left.size },
            right: Indent { fill: right, size: self.right.size },
            top: Indent { fill: top, size: self.top.size },
            bottom: Indent { fill: bottom, size: self.bottom.size },
        }
    }
}

} // verus!
