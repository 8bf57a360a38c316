//! A source location: file, line and column.

use crate::decimal::{dec_rep, u32_to_dec};
use vstd::prelude::*;

verus! {

/// The mathematical value of a [`Location`].
pub ghost struct LocationView {
    pub file: Seq<char>,
    pub line: u32,
    pub column: u32,
}

/// A source position that an error passed through.
///
/// A `Location` whose `line` is `u32::MAX` is the reserved "empty slot"
/// marker produced by [`Location::uninit`]; real locations never carry it.
pub struct Location {
    pub file: String,
    pub line: u32,
    pub column: u32,
}

impl View for Location {
    type V = LocationView;

    open spec fn view(&self) -> LocationView {
        LocationView { file: self.file@, line: self.line, column: self.column }
    }
}

impl Clone for Location {
    fn clone(&self) -> (r: Self)
        ensures
            r@ == self@,
    {
        Location { file: self.file.clone(), line: self.line, column: self.column }
    }
}

impl Location {
    /// Builds the location `file:line:column`.
    pub fn new(file: &str, line: u32, column: u32) -> (r: Self)
        ensures
            r@ == (LocationView { file: file@, line, column }),
    {
        Location { file: file.to_owned(), line, column }
    }

    /// The file the location lies in.
    pub fn file(&self) -> (r: &str)
        ensures
            r@ == self@.file,
    {
        self.file.as_str()
    }

    /// The line within the file.
    pub fn line(&self) -> (r: u32)
        ensures
            r == self@.line,
    {
        self.line
    }

    /// The column within the line.
    pub fn column(&self) -> (r: u32)
        ensures
            r == self@.column,
    {
        self.column
    }

    /// The marker for an unoccupied location slot.
    pub fn uninit() -> (r: Self)
        ensures
            r@.is_uninit(),
    {
        Location { file: String::new(), line: u32::MAX, column: u32::MAX }
    }

    /// Whether this is the unoccupied-slot marker.
    pub fn is_uninit(&self) -> (r: bool)
        ensures
            r == self@.is_uninit(),
    {
        self.line == u32::MAX
    }

    /// Renders the location as `file:line:column`.
    pub fn to_text(&self) -> (r: String)
        ensures
            r@ == self@.text(),
    {
        proof {
            reveal_strlit(":");
        }
        let mut s = self.file.clone();
        s.append(":");
        let line = u32_to_dec(self.line);
        s.append(line.as_str());
        s.append(":");
        let column = u32_to_dec(self.column);
        s.append(column.as_str());
        proof {
            assert(s@ =~= self@.text());
        }
        s
    }
}

impl LocationView {
    /// Whether the location is the unoccupied-slot marker.
    pub open spec fn is_uninit(self) -> bool {
        self.line == u32::MAX
    }

    /// The rendering `file:line:column`.
    pub open spec fn text(self) -> Seq<char> {
        self.file + seq![':'] + dec_rep(self.line as nat) + seq![':'] + dec_rep(
            self.column as nat,
        )
    }
}

} // verus!
