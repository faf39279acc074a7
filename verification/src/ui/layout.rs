//! How the rows of the terminal are shared out.

use vstd::prelude::*;
use vstd::string::*;
use crate::text::{decimal_text, render_u64};

verus! {

/// The rows of the header.
pub const HEADER_HEIGHT: u16 = 3;

/// The rows of the footer.
pub const FOOTER_HEIGHT: u16 = 1;

/// The fewest rows in which there is room for a header, a row of content and a footer.
pub const MIN_HEIGHT: u16 = 5;

/// Why the rows of a terminal cannot be shared out.
#[derive(Clone, Copy, Debug, PartialEq, Eq, Structural)]
pub enum LayoutError {
    /// There are fewer rows than are needed.
    TooSmall { required: u16, actual: u16 },
}

/// The rows that are left for the content in a terminal of `height` rows, under
/// the header and above the footer.
pub fn content_height(height: u16) -> (r: Result<u16, LayoutError>)
    ensures
        match r {
            Ok(rows) => height >= MIN_HEIGHT && rows == height - HEADER_HEIGHT - FOOTER_HEIGHT,
            Err(e) => height < MIN_HEIGHT && e == (LayoutError::TooSmall {
                required: MIN_HEIGHT,
                actual: height,
            }),
        },
{
    if height < MIN_HEIGHT {
        Err(LayoutError::TooSmall { required: MIN_HEIGHT, actual: height })
    } else {
        Ok(height - HEADER_HEIGHT - FOOTER_HEIGHT)
    }
}

impl LayoutError {
    /// The error in words.
    pub open spec fn text(self) -> Seq<char> {
        match self {
            LayoutError::TooSmall { required, actual } => "terminal too small: need at least "@
                + decimal_text(required as nat) + " rows, got "@ + decimal_text(actual as nat),
        }
    }

    /// The error in words.
    pub fn message(&self) -> (r: String)
        ensures
            r@ == self.text(),
    {
        match self {
            LayoutError::TooSmall { required, actual } => String::from_str(
                "terminal too small: need at least ",
            ).concat(render_u64(*required as u64).as_str()).concat(" rows, got ").concat(
                render_u64(*actual as u64).as_str(),
            ),
        }
    }
}

} // verus!
