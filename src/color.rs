//! A color to represent pieces or board squares.

use vstd::prelude::*;
use vstd::string::*;

use crate::text::{matches_ignore_case, matches_word};

verus! {

/// A black or white color.
#[derive(Copy, Clone, Debug, Hash, PartialEq, Eq, Structural, PartialOrd, Ord)]
pub enum Color {
    /// White color.
    White,
    /// Black color.
    Black,
}

impl Color {
    /// The opposite color.
    pub open spec fn other(self) -> Color {
        match self {
            Color::White => Color::Black,
            Color::Black => Color::White,
        }
    }

    /// Returns the opposite color.
    pub fn not(self) -> (r: Color)
        ensures
            r == self.other(),
    {
        match self {
            Color::White => Color::Black,
            Color::Black => Color::White,
        }
    }

    /// Returns the name of `self`: `White` or `Black`.
    pub fn into_str(self) -> (r: &'static str)
        ensures
            r@ == if self == Color::White {
                "White"@
            } else {
                "Black"@
            },
    {
        match self {
            Color::White => "White",
            Color::Black => "Black",
        }
    }

    /// Parses a color from its name or its initial, in any case: `white`,
    /// `w`, `black` or `b`.
    pub fn parse(s: &str) -> (r: Result<Color, FromStrError>)
        ensures
            r == if matches_word(s@, "white"@) || matches_word(s@, "w"@) {
                Ok::<Color, FromStrError>(Color::White)
            } else if matches_word(s@, "black"@) || matches_word(s@, "b"@) {
                Ok(Color::Black)
            } else {
                Err(FromStrError)
            },
    {
        if matches_ignore_case(s, "white") || matches_ignore_case(s, "w") {
            Ok(Color::White)
        } else if matches_ignore_case(s, "black") || matches_ignore_case(s, "b") {
            Ok(Color::Black)
        } else {
            Err(FromStrError)
        }
    }
}

/// The error returned when a text names no color.
#[derive(Copy, Clone, Debug, PartialEq, Eq, Structural)]
pub struct FromStrError;

impl core::str::FromStr for Color {
    type Err = FromStrError;

    fn from_str(s: &str) -> Result<Color, FromStrError> {
        Color::parse(s)
    }
}

} // verus!
