//! Generated source text as a sequence of pieces.

use vstd::prelude::*;
use vstd::string::*;

verus! {

/// One piece of generated source text.
pub enum Piece {
    /// Source text emitted as written: an identifier, punctuation, or a whole
    /// fragment such as a type or a generics list.
    Code(String),
    /// A string literal whose value is the given text.
    Str(String),
}

/// The mathematical value of a [`Piece`].
pub enum PieceView {
    Code(Seq<char>),
    Str(Seq<char>),
}

impl View for Piece {
    type V = PieceView;

    open spec fn view(&self) -> PieceView {
        match self {
            Piece::Code(s) => PieceView::Code(s@),
            Piece::Str(s) => PieceView::Str(s@),
        }
    }
}

/// A sequence of pieces of source text; rendering joins them with spaces.
pub struct Tokens {
    pub pieces: Vec<Piece>,
}

impl View for Tokens {
    type V = Seq<PieceView>;

    open spec fn view(&self) -> Seq<PieceView> {
        self.pieces@.map_values(|p: Piece| p@)
    }
}

/// The single piece of source text `s`.
pub open spec fn code(s: Seq<char>) -> Seq<PieceView> {
    seq![PieceView::Code(s)]
}

/// The single string literal with value `s`.
pub open spec fn str_lit(s: Seq<char>) -> Seq<PieceView> {
    seq![PieceView::Str(s)]
}

impl Piece {
    /// A copy of this piece.
    pub fn duplicate(&self) -> (r: Piece)
        ensures
            r@ == self@,
    {
        match self {
            Piece::Code(s) => Piece::Code(s.clone()),
            Piece::Str(s) => Piece::Str(s.clone()),
        }
    }
}

impl Tokens {
    /// No pieces.
    pub fn new() -> (t: Tokens)
        ensures
            t@ == Seq::<PieceView>::empty(),
    {
        let t = Tokens { pieces: Vec::new() };
        assert(t@ =~= Seq::<PieceView>::empty());
        t
    }

    /// The single piece of source text `s`.
    pub fn from_code(s: &str) -> (t: Tokens)
        ensures
            t@ == code(s@),
    {
        let mut v: Vec<Piece> = Vec::new();
        v.push(Piece::Code(String::from_str(s)));
        let t = Tokens { pieces: v };
        assert(t@ =~= code(s@));
        t
    }

    fn push_piece(&mut self, p: Piece)
        ensures
            final(self)@ == old(self)@ + seq![p@],
    {
        let ghost before = self.pieces@;
        self.pieces.push(p);
        assert(self.pieces@.map_values(|q: Piece| q@) =~= before.map_values(|q: Piece| q@) + seq![p@]);
    }

    /// Appends the piece of source text `s`.
    pub fn push_code(&mut self, s: &str)
        ensures
            final(self)@ == old(self)@ + code(s@),
    {
        self.push_piece(Piece::Code(String::from_str(s)));
    }

    /// Appends the piece of source text `s`.
    pub fn push_code_string(&mut self, s: String)
        ensures
            final(self)@ == old(self)@ + code(s@),
    {
        self.push_piece(Piece::Code(s));
    }

    /// Appends the string literal with value `s`.
    pub fn push_str_lit(&mut self, s: &String)
        ensures
            final(self)@ == old(self)@ + str_lit(s@),
    {
        self.push_piece(Piece::Str(s.clone()));
    }

    /// Appends all pieces of `other`, which is consumed.
    pub fn append(&mut self, other: Tokens)
        ensures
            final(self)@ == old(self)@ + other@,
    {
        let ghost before = self.pieces@;
        let mut o = other.pieces;
        self.pieces.append(&mut o);
        assert(self.pieces@.map_values(|q: Piece| q@) =~= before.map_values(|q: Piece| q@)
            + other.pieces@.map_values(|q: Piece| q@));
    }

    /// Appends copies of all pieces of `other`.
    pub fn extend(&mut self, other: &Tokens)
        ensures
            final(self)@ == old(self)@ + other@,
    {
        let c = other.duplicate();
        self.append(c);
    }

    /// A copy of these pieces.
    pub fn duplicate(&self) -> (r: Tokens)
        ensures
            r@ == self@,
    {
        let mut v: Vec<Piece> = Vec::new();
        let n = self.pieces.len();
        let mut i: usize = 0;
        while i < n
            invariant
                n == self.pieces@.len(),
                i <= n,
                v@.len() == i,
                forall|j: int| 0 <= j < i ==> #[trigger] v@[j]@ == self.pieces@[j]@,
            decreases n - i,
        {
            let p = self.pieces[i].duplicate();
            v.push(p);
            i = i + 1;
        }
        let r = Tokens { pieces: v };
        assert(r@ =~= self@);
        r
    }
}

} // verus!
