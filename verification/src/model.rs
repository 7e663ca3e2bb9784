//! The plain model of a derive input: the enum's declaration and what the
//! rest of the derive computed for it, plus the helpers that render it.

use vstd::prelude::*;
use vstd::string::*;
use crate::tokens::{code, PieceView, Tokens};

verus! {

/// Names and paths shared by everything generated for one enum.
pub struct Printing {
    /// The path of the `rkyv` crate, e.g. `::rkyv`.
    pub rkyv_path: Tokens,
    /// The visibility of the enum.
    pub vis: Tokens,
    /// The enum's name.
    pub name: String,
    /// The attributes to put on the archived enum.
    pub archived_metas: Vec<Tokens>,
    /// The name of the archived enum.
    pub archived_name: String,
    /// The archived type, e.g. `ArchivedFoo<T>`.
    pub archived_type: Tokens,
    /// The name of the resolver enum.
    pub resolver_name: String,
    /// The doc text of the archived enum.
    pub archived_doc: String,
    /// The doc text of the resolver enum.
    pub resolver_doc: String,
}

/// A `where` clause: its predicates, and whether a comma follows the last.
pub struct WhereClause {
    pub predicates: Vec<Tokens>,
    pub trailing_comma: bool,
}

/// The mathematical value of a [`WhereClause`].
pub struct WhereView {
    pub predicates: Seq<Seq<PieceView>>,
    pub trailing_comma: bool,
}

impl View for WhereClause {
    type V = WhereView;

    open spec fn view(&self) -> WhereView {
        WhereView {
            predicates: self.predicates@.map_values(|t: Tokens| t@),
            trailing_comma: self.trailing_comma,
        }
    }
}

/// The generics of the enum, in the renderings that the generated code uses.
pub struct Generics {
    /// The parameter list as declared, e.g. `<T: Clone, 'a>` (empty if none).
    pub params: Tokens,
    /// The parameter list for an `impl`, e.g. `<T: Clone, 'a>`.
    pub impl_generics: Tokens,
    /// The argument list for the type, e.g. `<T, 'a>`.
    pub ty_generics: Tokens,
    /// The `where` clause, if the declaration has one.
    pub where_clause: Option<WhereClause>,
}

/// One segment of a path.
pub struct PathSegment {
    /// The segment's identifier (raw identifiers keep their `r#`).
    pub ident: String,
    /// Whether the segment has angle-bracketed or parenthesized arguments.
    pub has_arguments: bool,
}

/// A path, such as an argument of `compare(...)`.
pub struct Path {
    pub leading_colon: bool,
    pub segments: Vec<PathSegment>,
}

/// The container attributes that enum generation reads.
pub struct Attributes {
    /// `as = ...`: a type to archive as, in place of a generated archived enum.
    pub as_type: Option<Tokens>,
    /// `compare(...)`: the comparison traits to generate.
    pub compares: Option<Vec<Path>>,
}

/// One field of a variant, with what the derive computed for it.
pub struct Field {
    pub vis: Tokens,
    pub ident: Option<String>,
    /// Whether the field is written with a colon (named fields).
    pub colon_token: bool,
    pub ty: Tokens,
    /// The attributes to forward to the archived field.
    pub metas: Vec<Tokens>,
    /// Whether the field is left out of the generated comparison bounds.
    pub omit_bounds: bool,
    /// The archived type of the field, or `None` if it could not be determined.
    pub archived: Option<Tokens>,
    /// The resolver type of the field, or `None` if it could not be determined.
    pub resolver: Option<Tokens>,
    /// The function that resolves the field, or `None` if it could not be determined.
    pub resolve: Option<Tokens>,
}

/// The fields of a variant.
pub enum Fields {
    Named(Vec<Field>),
    Unnamed(Vec<Field>),
    Unit,
}

/// One variant of the enum.
pub struct Variant {
    pub ident: String,
    /// The explicit discriminant expression, if any.
    pub discriminant: Option<Tokens>,
    pub fields: Fields,
    /// The doc text of the archived variant.
    pub archived_doc: String,
    /// The doc text of the resolver variant.
    pub resolver_doc: String,
}

/// The variants of the enum.
pub struct DataEnum {
    pub variants: Vec<Variant>,
}

/// Why code generation failed.
#[derive(Debug, Clone, Copy, PartialEq, Eq, Structural)]
pub enum DeriveError {
    /// The enum has more than 256 variants.
    TooManyVariants,
    /// The `compare` argument at this index is neither `PartialEq` nor `PartialOrd`.
    UnrecognizedCompare { index: usize },
    /// The archived type of this field could not be determined.
    ArchivedType { variant: usize, field: usize },
    /// The resolver type of this field could not be determined.
    ResolverType { variant: usize, field: usize },
    /// The resolve function of this field could not be determined.
    ResolveFn { variant: usize, field: usize },
}

/// The outcome of a generator as a mathematical value.
pub open spec fn rv(r: Result<Tokens, DeriveError>) -> Result<Seq<PieceView>, DeriveError> {
    match r {
        Ok(t) => Ok(t@),
        Err(e) => Err(e),
    }
}

/// A position as a mathematical integer.
pub open spec fn pos(i: usize) -> int {
    i as int
}

/// The fields of a variant, in declaration order.
pub open spec fn fields_seq(f: Fields) -> Seq<Field> {
    match f {
        Fields::Named(v) => v@,
        Fields::Unnamed(v) => v@,
        Fields::Unit => Seq::empty(),
    }
}

/// The concatenation of `f(i, s[i])` over the elements of `s`, in order.
pub open spec fn rep<A, T>(s: Seq<A>, f: spec_fn(int, A) -> Seq<T>) -> Seq<T>
    decreases s.len(),
{
    if s.len() == 0 {
        Seq::empty()
    } else {
        rep(s.drop_last(), f) + f(s.len() - 1, s.last())
    }
}

/// The concatenation of `f(i, s[i])` over the elements of `s`, in order, or
/// the first error that one of them gives.
pub open spec fn rep_res<A, T>(
    s: Seq<A>,
    f: spec_fn(int, A) -> Result<Seq<T>, DeriveError>,
) -> Result<Seq<T>, DeriveError>
    decreases s.len(),
{
    if s.len() == 0 {
        Ok(Seq::empty())
    } else {
        match rep_res(s.drop_last(), f) {
            Ok(a) => match f(s.len() - 1, s.last()) {
                Ok(b) => Ok(a + b),
                Err(e) => Err(e),
            },
            Err(e) => Err(e),
        }
    }
}

pub proof fn lemma_rep_step<A, T>(s: Seq<A>, f: spec_fn(int, A) -> Seq<T>, i: int)
    requires
        0 <= i < s.len(),
    ensures
        rep(s.take(i + 1), f) == rep(s.take(i), f) + f(i, s[i]),
{
    assert(s.take(i + 1).drop_last() =~= s.take(i));
}

pub proof fn lemma_rep_res_step<A, T>(
    s: Seq<A>,
    f: spec_fn(int, A) -> Result<Seq<T>, DeriveError>,
    i: int,
)
    requires
        0 <= i < s.len(),
    ensures
        rep_res(s.take(i + 1), f) == match rep_res(s.take(i), f) {
            Ok(a) => match f(i, s[i]) {
                Ok(b) => Ok(a + b),
                Err(e) => Err(e),
            },
            Err(e) => Err::<Seq<T>, DeriveError>(e),
        },
{
    assert(s.take(i + 1).drop_last() =~= s.take(i));
}

/// Once a prefix fails, every longer prefix fails with the same error.
pub proof fn lemma_rep_res_err<A, T>(
    s: Seq<A>,
    f: spec_fn(int, A) -> Result<Seq<T>, DeriveError>,
    j: int,
    k: int,
)
    requires
        0 <= j <= k <= s.len(),
        rep_res(s.take(j), f) is Err,
    ensures
        rep_res(s.take(k), f) == rep_res(s.take(j), f),
    decreases k - j,
{
    if k > j {
        lemma_rep_res_err(s, f, j, k - 1);
        lemma_rep_res_step(s, f, k - 1);
    }
}

pub proof fn lemma_take_all<A>(s: Seq<A>)
    ensures
        s.take(s.len() as int) == s,
{
    assert(s.take(s.len() as int) =~= s);
}

/// `#[meta]` for each attribute.
pub open spec fn attr_fn() -> spec_fn(int, Tokens) -> Seq<PieceView> {
    |k: int, m: Tokens| code("#["@) + m@ + code("]"@)
}

pub open spec fn attr_list(ms: Seq<Tokens>) -> Seq<PieceView> {
    rep(ms, attr_fn())
}

/// The identifier, if there is one.
pub open spec fn opt_ident(o: Option<String>) -> Seq<PieceView> {
    match o {
        Some(s) => code(s@),
        None => Seq::empty(),
    }
}

/// A colon, if there is one.
pub open spec fn opt_colon(c: bool) -> Seq<PieceView> {
    if c {
        code(":"@)
    } else {
        Seq::empty()
    }
}

/// `= expr` for an explicit discriminant.
pub open spec fn discriminant_tokens(d: Option<Tokens>) -> Seq<PieceView> {
    match d {
        Some(e) => code("="@) + e@,
        None => Seq::empty(),
    }
}

/// Predicates after the first are preceded by a comma.
pub open spec fn pred_fn() -> spec_fn(int, Seq<PieceView>) -> Seq<PieceView> {
    |k: int, p: Seq<PieceView>|
        if k == 0 {
            p
        } else {
            code(","@) + p
        }
}

/// A `where` clause as it prints: nothing when it has no predicates.
pub open spec fn where_view_tokens(w: WhereView) -> Seq<PieceView> {
    if w.predicates.len() == 0 {
        Seq::empty()
    } else {
        code("where"@) + rep(w.predicates, pred_fn()) + (if w.trailing_comma {
            code(","@)
        } else {
            Seq::empty()
        })
    }
}

/// An optional `where` clause as it prints.
pub open spec fn where_tokens(w: Option<WhereClause>) -> Seq<PieceView> {
    match w {
        Some(wc) => where_view_tokens(wc@),
        None => Seq::empty(),
    }
}

/// A `where` clause with `extra` predicates pushed after its own.
pub open spec fn push_predicates(w: WhereView, extra: Seq<Seq<PieceView>>) -> WhereView {
    WhereView {
        predicates: w.predicates + extra,
        trailing_comma: if extra.len() > 0 {
            false
        } else {
            w.trailing_comma
        },
    }
}

/// Whether a path is the single identifier `ident`: no leading colon, one
/// segment, and no arguments.
pub open spec fn is_ident_spec(p: Path, ident: Seq<char>) -> bool {
    &&& !p.leading_colon
    &&& p.segments@.len() == 1
    &&& !p.segments@[0].has_arguments
    &&& p.segments@[0].ident@ == ident
}

impl Path {
    /// Whether this path is the single identifier `ident`.
    pub fn is_ident(&self, ident: &str) -> (r: bool)
        ensures
            r == is_ident_spec(*self, ident@),
    {
        if self.leading_colon || self.segments.len() != 1 {
            return false;
        }
        let seg = &self.segments[0];
        if seg.has_arguments {
            return false;
        }
        let expected = String::from_str(ident);
        seg.ident == expected
    }
}

impl Tokens {
    /// The single piece of source text `s`.
    pub fn from_code_string(s: String) -> (t: Tokens)
        ensures
            t@ == code(s@),
    {
        let mut t = Tokens::new();
        t.push_code_string(s);
        assert(t@ =~= code(s@));
        t
    }

    /// Appends the identifier, if there is one.
    pub fn push_opt_ident(&mut self, o: &Option<String>)
        ensures
            final(self)@ == old(self)@ + opt_ident(*o),
    {
        match o {
            Some(s) => self.push_code_string(s.clone()),
            None => {
                assert(self@ =~= self@ + opt_ident(*o));
            },
        }
    }

    /// Appends a colon, if `c`.
    pub fn push_opt_colon(&mut self, c: bool)
        ensures
            final(self)@ == old(self)@ + opt_colon(c),
    {
        if c {
            self.push_code(":");
        } else {
            assert(self@ =~= self@ + opt_colon(c));
        }
    }

    /// Appends `= expr` for an explicit discriminant.
    pub fn push_discriminant(&mut self, d: &Option<Tokens>)
        ensures
            final(self)@ == old(self)@ + discriminant_tokens(*d),
    {
        match d {
            Some(e) => {
                let mut t = Tokens::from_code("=");
                t.extend(e);
                self.append(t);
            },
            None => {
                assert(self@ =~= self@ + discriminant_tokens(*d));
            },
        }
    }
}

/// `#[meta]` for each attribute.
pub fn attr_tokens(ms: &Vec<Tokens>) -> (t: Tokens)
    ensures
        t@ == attr_list(ms@),
{
    let mut t = Tokens::new();
    let n = ms.len();
    let mut i: usize = 0;
    while i < n
        invariant
            n == ms@.len(),
            i <= n,
            t@ == rep(ms@.take(i as int), attr_fn()),
        decreases n - i,
    {
        proof {
            lemma_rep_step(ms@, attr_fn(), i as int);
        }
        let mut a = Tokens::from_code("#[");
        a.extend(&ms[i]);
        a.push_code("]");
        t.append(a);
        i = i + 1;
    }
    proof {
        lemma_take_all(ms@);
    }
    t
}

impl WhereClause {
    /// A copy of this clause.
    pub fn duplicate(&self) -> (r: WhereClause)
        ensures
            r@ == self@,
    {
        let mut v: Vec<Tokens> = Vec::new();
        let n = self.predicates.len();
        let mut i: usize = 0;
        while i < n
            invariant
                n == self.predicates@.len(),
                i <= n,
                v@.len() == i,
                forall|j: int| 0 <= j < i ==> #[trigger] v@[j]@ == self.predicates@[j]@,
            decreases n - i,
        {
            let t = self.predicates[i].duplicate();
            v.push(t);
            i = i + 1;
        }
        let r = WhereClause { predicates: v, trailing_comma: self.trailing_comma };
        assert(r@.predicates =~= self@.predicates);
        r
    }

    /// Pushes a predicate after the existing ones.
    pub fn push(&mut self, p: Tokens)
        ensures
            final(self)@ == push_predicates(old(self)@, seq![p@]),
    {
        let ghost before = self.predicates@;
        self.predicates.push(p);
        self.trailing_comma = false;
        assert(self.predicates@.map_values(|t: Tokens| t@) =~= before.map_values(|t: Tokens| t@)
            + seq![p@]);
    }

    /// The clause as it prints.
    pub fn to_tokens(&self) -> (t: Tokens)
        ensures
            t@ == where_view_tokens(self@),
    {
        let n = self.predicates.len();
        if n == 0 {
            return Tokens::new();
        }
        let mut body = Tokens::new();
        let mut i: usize = 0;
        while i < n
            invariant
                n == self.predicates@.len(),
                i <= n,
                body@ == rep(self@.predicates.take(i as int), pred_fn()),
            decreases n - i,
        {
            proof {
                lemma_rep_step(self@.predicates, pred_fn(), i as int);
            }
            if i == 0 {
                body.extend(&self.predicates[i]);
            } else {
                let mut a = Tokens::from_code(",");
                a.extend(&self.predicates[i]);
                body.append(a);
            }
            i = i + 1;
        }
        proof {
            lemma_take_all(self@.predicates);
        }
        let mut t = Tokens::from_code("where");
        t.append(body);
        let mut tail = Tokens::new();
        if self.trailing_comma {
            tail.push_code(",");
            assert(tail@ =~= code(","@));
        }
        t.append(tail);
        t
    }
}

/// An optional `where` clause as it prints.
pub fn where_clause_tokens(w: &Option<WhereClause>) -> (t: Tokens)
    ensures
        t@ == where_tokens(*w),
{
    match w {
        Some(wc) => wc.to_tokens(),
        None => Tokens::new(),
    }
}

} // verus!
