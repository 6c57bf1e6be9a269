//! The allocator: interns names and turns the positions that a syntax
//! tree records into the positions that declarations carry.

use vstd::prelude::*;
use crate::symbol::{Symbol, TypeName};
use crate::position::{FilePos, Pos, Positioned, Prefix, RelativePath};

verus! {

/// A point as a syntax tree records it: the line number, the offset of
/// the line's first byte and the offset of the point itself.
#[derive(Clone, Copy, PartialEq, Eq, Structural, Debug, Hash)]
pub struct LineOffset {
    pub lnum: usize,
    pub bol: usize,
    pub offset: usize,
}

/// A position as an owned syntax tree records it: the file and both ends
/// of the span.
#[derive(Debug, PartialEq, Eq)]
pub struct AstPos {
    pub prefix: Prefix,
    pub path: String,
    pub start: LineOffset,
    pub end: LineOffset,
}

/// An identifier in an owned syntax tree: where it stands, and its name.
#[derive(Debug, PartialEq, Eq)]
pub struct AstId(pub AstPos, pub String);

/// A position as a borrowed declaration records it.
#[derive(Clone, Copy, Debug, PartialEq, Eq)]
pub struct DeclPos<'a> {
    pub prefix: Prefix,
    pub path: &'a str,
    pub start: LineOffset,
    pub end: LineOffset,
}

/// An identifier in a borrowed syntax tree.
#[derive(Clone, Copy, Debug, PartialEq, Eq)]
pub struct AstIdRef<'a>(pub &'a DeclPos<'a>, pub &'a str);

/// An identifier in a borrowed declaration.
pub type PosId<'a> = (&'a DeclPos<'a>, &'a str);

impl AstPos {
    /// The file: the root it is relative to, and the path below it.
    pub fn filename(&self) -> (file: (Prefix, &str))
        ensures
            file.0 == self.prefix,
            file.1@ == self.path@,
    {
        (self.prefix, self.path.as_str())
    }

    /// Both ends of the span.
    pub fn to_start_and_end_lnum_bol_offset(&self) -> (ends: (LineOffset, LineOffset))
        ensures
            ends == (self.start, self.end),
    {
        (self.start, self.end)
    }
}

impl<'a> DeclPos<'a> {
    /// The file: the root it is relative to, and the path below it.
    pub fn filename(&self) -> (file: (Prefix, &'a str))
        ensures
            file == (self.prefix, self.path),
    {
        (self.prefix, self.path)
    }

    /// Both ends of the span.
    pub fn to_start_and_end_lnum_bol_offset(&self) -> (ends: (LineOffset, LineOffset))
        ensures
            ends == (self.start, self.end),
    {
        (self.start, self.end)
    }
}

/// The point of a declaration's position that stands where `point` does.
pub open spec fn file_pos_of(point: LineOffset) -> FilePos {
    FilePos { lnum: point.lnum as u64, bol: point.bol as u64, cnum: point.offset as u64 }
}

/// The number of `name` in the table `names`: its index where it occurs,
/// the next free index where it does not.
pub open spec fn slot_of(names: Seq<Seq<char>>, name: Seq<char>) -> int {
    if names.contains(name) {
        names.index_of(name)
    } else {
        names.len() as int
    }
}

/// The table `names` once `name` has been interned: unchanged where it
/// occurs already, one longer where it does not.
pub open spec fn with_name(names: Seq<Seq<char>>, name: Seq<char>) -> Seq<Seq<char>> {
    if names.contains(name) {
        names
    } else {
        names.push(name)
    }
}

/// The mathematical value of an [`Allocator`].
#[verifier::ext_equal]
pub struct AllocatorView {
    /// The interned names; a symbol's number is its name's index.
    pub names: Seq<Seq<char>>,
    /// Whether positions are recorded at all.
    pub tracks_positions: bool,
}

impl AllocatorView {
    /// No name occurs twice, and every index is a symbol's number.
    pub open spec fn wf(self) -> bool {
        &&& self.names.no_duplicates()
        &&& self.names.len() <= usize::MAX
    }

    /// The allocator after `name` has been interned.
    pub open spec fn intern(self, name: Seq<char>) -> AllocatorView {
        AllocatorView { names: with_name(self.names, name), ..self }
    }

    /// The allocator after a position in the file `path` has been asked
    /// for. Where positions are not recorded, nothing is interned.
    pub open spec fn after_pos(self, path: Seq<char>) -> AllocatorView {
        if self.tracks_positions {
            self.intern(path)
        } else {
            self
        }
    }

    /// The position for the span from `start` to `end` in the file
    /// `path` under `prefix`.
    pub open spec fn pos_of(
        self,
        prefix: Prefix,
        path: Seq<char>,
        start: LineOffset,
        end: LineOffset,
    ) -> Pos {
        if self.tracks_positions {
            Pos::Span {
                file: RelativePath {
                    prefix,
                    path: Symbol(slot_of(self.names, path) as u64),
                },
                start: file_pos_of(start),
                end: file_pos_of(end),
            }
        } else {
            Pos::Absent
        }
    }

    /// The symbol for `name`.
    pub open spec fn symbol_of(self, name: Seq<char>) -> Symbol {
        Symbol(slot_of(self.names, name) as u64)
    }
}

/// Interns names, and makes positions only where they are recorded.
#[derive(Debug)]
pub struct Allocator {
    names: Vec<String>,
    track_positions: bool,
}

/// The names that a table of strings holds, in order.
pub open spec fn names_of(table: Seq<String>) -> Seq<Seq<char>> {
    Seq::new(table.len(), |i: int| table[i]@)
}

impl View for Allocator {
    type V = AllocatorView;

    closed spec fn view(&self) -> AllocatorView {
        AllocatorView { names: names_of(self.names@), tracks_positions: self.track_positions }
    }
}

impl Allocator {
    #[verifier::type_invariant]
    spec fn inv(self) -> bool {
        self@.wf()
    }

    /// An allocator that has interned nothing yet.
    pub fn new(track_positions: bool) -> (alloc: Allocator)
        ensures
            alloc@.names == Seq::<Seq<char>>::empty(),
            alloc@.tracks_positions == track_positions,
            alloc@.wf(),
    {
        let alloc = Allocator { names: Vec::new(), track_positions };
        assert(alloc@.names =~= Seq::<Seq<char>>::empty());
        alloc
    }

    /// Whether this allocator records positions.
    pub fn tracks_positions(&self) -> (b: bool)
        ensures
            b == self@.tracks_positions,
    {
        self.track_positions
    }

    /// The name that `sym` stands for, if this allocator gave it out.
    pub fn resolve(&self, sym: Symbol) -> (name: Option<&str>)
        ensures
            self@.wf(),
            match name {
                Some(s) => sym.key() < self@.names.len() && s@ == self@.names[sym.key() as int],
                None => sym.key() >= self@.names.len(),
            },
    {
        proof {
            use_type_invariant(self);
        }
        if sym.0 < self.names.len() as u64 {
            Some(self.names[sym.0 as usize].as_str())
        } else {
            None
        }
    }

    /// Interns `name`: the symbol it already has, or a fresh one.
    pub fn symbol(&mut self, name: &str) -> (sym: Symbol)
        ensures
            final(self)@ == old(self)@.intern(name@),
            sym == old(self)@.symbol_of(name@),
            final(self)@.wf(),
            final(self)@.names[sym.key() as int] == name@,
    {
        proof {
            use_type_invariant(&*self);
        }
        let owned: String = name.to_owned();
        let ghost table = self@.names;
        let mut i: usize = 0;
        while i < self.names.len()
            invariant
                i <= self.names.len(),
                self@.names == table,
                table.no_duplicates(),
                self.track_positions == old(self).track_positions,
                owned@ == name@,
                forall|j: int| 0 <= j < i ==> table[j] != name@,
            decreases self.names.len() - i,
        {
            if self.names[i] == owned {
                assert(table[i as int] == name@);
                assert(table.contains(name@));
                assert(table.index_of(name@) == i);
                return Symbol(i as u64);
            }
            i += 1;
        }
        assert(!table.contains(name@));
        // The table is taken out while it grows, so that the allocator
        // never holds a table in an intermediate state.
        let mut names: Vec<String> = Vec::new();
        assert(names_of(names@) =~= Seq::<Seq<char>>::empty());
        std::mem::swap(&mut self.names, &mut names);
        names.push(owned);
        assert(names_of(names@) =~= table.push(name@));
        assert(names_of(names@).len() == names.len());
        std::mem::swap(&mut self.names, &mut names);
        Symbol(i as u64)
    }

    /// The interned file name for the path `file.1` under the root
    /// `file.0`.
    pub fn relative_path(&mut self, file: (Prefix, &str)) -> (rel: RelativePath)
        ensures
            rel == (RelativePath { prefix: file.0, path: old(self)@.symbol_of(file.1@) }),
            final(self)@ == old(self)@.intern(file.1@),
            final(self)@.wf(),
    {
        RelativePath { prefix: file.0, path: self.symbol(file.1) }
    }

    /// The position that declarations carry for a position of an owned
    /// syntax tree. Where positions are not recorded, none is made and
    /// nothing is interned.
    pub fn pos_from_ast(&mut self, pos: &AstPos) -> (p: Pos)
        ensures
            p == old(self)@.pos_of(pos.prefix, pos.path@, pos.start, pos.end),
            final(self)@ == old(self)@.after_pos(pos.path@),
            final(self)@.wf(),
    {
        proof {
            use_type_invariant(&*self);
        }
        if !self.track_positions {
            return Pos::none();
        }
        let pos_file = self.relative_path(pos.filename());
        let (start, end) = pos.to_start_and_end_lnum_bol_offset();
        let pos_start = FilePos {
            lnum: start.lnum as u64,
            bol: start.bol as u64,
            cnum: start.offset as u64,
        };
        let pos_end = FilePos {
            lnum: end.lnum as u64,
            bol: end.bol as u64,
            cnum: end.offset as u64,
        };
        Pos::new(pos_file, pos_start, pos_end)
    }

    /// The position that declarations carry for a position of a borrowed
    /// declaration. Where positions are not recorded, none is made and
    /// nothing is interned.
    pub fn pos_from_decl(&mut self, pos: &DeclPos<'_>) -> (p: Pos)
        ensures
            p == old(self)@.pos_of(pos.prefix, pos.path@, pos.start, pos.end),
            final(self)@ == old(self)@.after_pos(pos.path@),
            final(self)@.wf(),
    {
        proof {
            use_type_invariant(&*self);
        }
        if !self.track_positions {
            return Pos::none();
        }
        let pos_file = self.relative_path(pos.filename());
        let (start, end) = pos.to_start_and_end_lnum_bol_offset();
        let pos_start = FilePos {
            lnum: start.lnum as u64,
            bol: start.bol as u64,
            cnum: start.offset as u64,
        };
        let pos_end = FilePos {
            lnum: end.lnum as u64,
            bol: end.bol as u64,
            cnum: end.offset as u64,
        };
        Pos::new(pos_file, pos_start, pos_end)
    }

    /// The positioned symbol for an identifier of an owned syntax tree.
    pub fn pos_id_from_ast(&mut self, pos_id: &AstId) -> (id: Positioned<Symbol>)
        ensures
            id.pos == old(self)@.pos_of(pos_id.0.prefix, pos_id.0.path@, pos_id.0.start, pos_id.0.end),
            id.id == old(self)@.after_pos(pos_id.0.path@).symbol_of(pos_id.1@),
            final(self)@ == old(self)@.after_pos(pos_id.0.path@).intern(pos_id.1@),
            final(self)@.wf(),
    {
        let pos = self.pos_from_ast(&pos_id.0);
        let sym = self.symbol(pos_id.1.as_str());
        Positioned::new(pos, sym)
    }

    /// The positioned class name for an identifier of an owned syntax
    /// tree.
    pub fn pos_classname_from_ast(&mut self, pos_id: &AstId) -> (id: Positioned<TypeName>)
        ensures
            id.pos == old(self)@.pos_of(pos_id.0.prefix, pos_id.0.path@, pos_id.0.start, pos_id.0.end),
            id.id == TypeName(old(self)@.after_pos(pos_id.0.path@).symbol_of(pos_id.1@)),
            final(self)@ == old(self)@.after_pos(pos_id.0.path@).intern(pos_id.1@),
            final(self)@.wf(),
    {
        let pos = self.pos_from_ast(&pos_id.0);
        let sym = self.symbol(pos_id.1.as_str());
        Positioned::new(pos, TypeName(sym))
    }

    /// The positioned symbol for an identifier of a borrowed syntax tree.
    pub fn pos_id_from_ast_ref(&mut self, pos_id: &AstIdRef<'_>) -> (id: Positioned<Symbol>)
        ensures
            id.pos == old(self)@.pos_of(pos_id.0.prefix, pos_id.0.path@, pos_id.0.start, pos_id.0.end),
            id.id == old(self)@.after_pos(pos_id.0.path@).symbol_of(pos_id.1@),
            final(self)@ == old(self)@.after_pos(pos_id.0.path@).intern(pos_id.1@),
            final(self)@.wf(),
    {
        let pos = self.pos_from_decl(pos_id.0);
        let sym = self.symbol(pos_id.1);
        Positioned::new(pos, sym)
    }

    /// The positioned class name for an identifier of a borrowed
    /// declaration.
    pub fn pos_classname_from_decl(&mut self, pos_id: PosId<'_>) -> (id: Positioned<TypeName>)
        ensures
            id.pos == old(self)@.pos_of(pos_id.0.prefix, pos_id.0.path@, pos_id.0.start, pos_id.0.end),
            id.id == TypeName(old(self)@.after_pos(pos_id.0.path@).symbol_of(pos_id.1@)),
            final(self)@ == old(self)@.after_pos(pos_id.0.path@).intern(pos_id.1@),
            final(self)@.wf(),
    {
        let pos = self.pos_from_decl(pos_id.0);
        let sym = self.symbol(pos_id.1);
        Positioned::new(pos, TypeName(sym))
    }

    /// The positioned symbol for an identifier of a borrowed
    /// declaration.
    pub fn pos_id_from_decl(&mut self, pos_id: PosId<'_>) -> (id: Positioned<Symbol>)
        ensures
            id.pos == old(self)@.pos_of(pos_id.0.prefix, pos_id.0.path@, pos_id.0.start, pos_id.0.end),
            id.id == old(self)@.after_pos(pos_id.0.path@).symbol_of(pos_id.1@),
            final(self)@ == old(self)@.after_pos(pos_id.0.path@).intern(pos_id.1@),
            final(self)@.wf(),
    {
        let pos = self.pos_from_decl(pos_id.0);
        let sym = self.symbol(pos_id.1);
        Positioned::new(pos, sym)
    }
}

} // verus!
