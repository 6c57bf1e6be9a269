//! Source positions, carried through declarations for diagnostics.

use vstd::prelude::*;
use crate::symbol::Symbol;

verus! {

/// A point in a file: line number, offset of the line's first byte, and
/// offset of the point itself.
#[derive(Clone, Copy, PartialEq, Eq, Structural, Debug, Hash)]
pub struct FilePos {
    pub lnum: u64,
    pub bol: u64,
    pub cnum: u64,
}

/// The root that a relative path is relative to.
#[derive(Clone, Copy, PartialEq, Eq, Structural, Debug, Hash)]
pub enum Prefix {
    Root,
    Hhi,
    Dummy,
    Tmp,
}

/// A file name: a root and the interned path below it.
#[derive(Clone, Copy, PartialEq, Eq, Structural, Debug, Hash)]
pub struct RelativePath {
    pub prefix: Prefix,
    pub path: Symbol,
}

/// A source position: either none at all, or a span in a file.
#[derive(Clone, Copy, PartialEq, Eq, Structural, Debug, Hash)]
pub enum Pos {
    /// No position is known, or positions are not tracked.
    Absent,
    /// The span from `start` to `end` in `file`.
    Span { file: RelativePath, start: FilePos, end: FilePos },
}

impl Pos {
    /// The position that stands for "nowhere".
    pub fn none() -> (p: Pos)
        ensures
            p == Pos::Absent,
    {
        Pos::Absent
    }

    /// The span from `start` to `end` in `file`.
    pub fn new(file: RelativePath, start: FilePos, end: FilePos) -> (p: Pos)
        ensures
            p == (Pos::Span { file, start, end }),
    {
        Pos::Span { file, start, end }
    }
}

/// A name together with the position at which it was written.
#[derive(Debug, PartialEq, Eq, Hash)]
pub struct Positioned<S> {
    pub pos: Pos,
    pub id: S,
}

impl<S: Copy> Clone for Positioned<S> {
    fn clone(&self) -> (p: Self)
        ensures
            p == *self,
    {
        Positioned { pos: self.pos, id: self.id }
    }
}

impl<S: Copy> Copy for Positioned<S> {

}

impl<S: Copy> Positioned<S> {
    /// Pairs `id` with `pos`.
    pub fn new(pos: Pos, id: S) -> (p: Positioned<S>)
        ensures
            p == (Positioned { pos, id }),
    {
        Positioned { pos, id }
    }

    /// Where the name was written.
    pub fn pos(&self) -> (p: &Pos)
        ensures
            *p == self.pos,
    {
        &self.pos
    }

    /// The name itself.
    pub fn id(&self) -> (id: S)
        ensures
            id == self.id,
    {
        self.id
    }
}

} // verus!
