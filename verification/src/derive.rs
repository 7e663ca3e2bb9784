//! Deriving `Archive` for an enum: everything generated, put together.

use vstd::prelude::*;
use crate::tokens::{code, PieceView, Tokens};
use crate::model::{
    discriminant_tokens, is_ident_spec, lemma_rep_step, lemma_take_all, rep, rv, where_clause_tokens,
    where_tokens, Attributes, DataEnum, DeriveError, Generics, Path, Printing, Variant,
};
use crate::archived::{
    archived_type_spec, generate_archived_type, generate_resolver_type, generate_variant_structs,
    resolver_type_spec, variant_structs_spec,
};
use crate::resolve::{generate_resolve_arms, resolve_arms_spec};
use crate::eq::{generate_partial_eq_impl, partial_eq_spec};
use crate::ord::{generate_partial_ord_impl, partial_ord_spec};
use crate::laws::law_too_many_variants;

verus! {

/// The most variants an archived enum can have: its tag is a `u8`.
pub const MAX_VARIANTS: usize = 256;

/// One entry of the tag enum: the variant's name and its discriminant.
pub open spec fn tag_fn() -> spec_fn(int, Variant) -> Seq<PieceView> {
    |vi: int, v: Variant| code(v.ident@) + discriminant_tokens(v.discriminant) + code(","@)
}

/// The `u8` tag enum, with one entry per variant in order.
pub open spec fn archived_tag_enum(d: DataEnum) -> Seq<PieceView> {
    code("#[derive(PartialEq, PartialOrd)] #[repr(u8)] enum ArchivedTag {"@) + rep(d.variants@, tag_fn())
        + code("}"@)
}

/// What is generated before the `compare` arguments are read: the public
/// items (the archived enum unless `as` is given, then the resolver), the
/// private items (the tag enum and the layout structs) and the `resolve`
/// arms; or the first error, in that order.
pub open spec fn before_compares(p: Printing, g: Generics, a: Attributes, d: DataEnum) -> Result<(Seq<PieceView>, Seq<PieceView>, Seq<PieceView>), DeriveError> {
    let archived = if a.as_type is None {
        archived_type_spec(p, g, d)
    } else {
        Ok(Seq::empty())
    };
    match archived {
        Err(e) => Err(e),
        Ok(pa) => match resolver_type_spec(p, g, d) {
            Err(e) => Err(e),
            Ok(rt) => match variant_structs_spec(p, g, d) {
                Err(e) => Err(e),
                Ok(vs) => match resolve_arms_spec(p, g, d) {
                    Err(e) => Err(e),
                    Ok(ra) => Ok((pa + rt, archived_tag_enum(d) + vs, ra)),
                },
            },
        },
    }
}

/// The public and private items after the `compare` arguments `cs`, in
/// order: `PartialEq` adds its impls to the public items, `PartialOrd` to
/// the private ones, and any other argument is an error.
pub open spec fn compares_fold(
    p: Printing,
    g: Generics,
    d: DataEnum,
    cs: Seq<Path>,
    public: Seq<PieceView>,
    private: Seq<PieceView>,
) -> Result<(Seq<PieceView>, Seq<PieceView>), DeriveError>
    decreases cs.len(),
{
    if cs.len() == 0 {
        Ok((public, private))
    } else {
        match compares_fold(p, g, d, cs.drop_last(), public, private) {
            Err(e) => Err(e),
            Ok((pu, pr)) => {
                let c = cs.last();
                if is_ident_spec(c, "PartialEq"@) {
                    match partial_eq_spec(p, g, d) {
                        Ok(t) => Ok((pu + t, pr)),
                        Err(e) => Err(e),
                    }
                } else if is_ident_spec(c, "PartialOrd"@) {
                    match partial_ord_spec(p, g, d) {
                        Ok(t) => Ok((pu, pr + t)),
                        Err(e) => Err(e),
                    }
                } else {
                    Err(DeriveError::UnrecognizedCompare { index: (cs.len() - 1) as usize })
                }
            },
        }
    }
}

/// Whether the first `compare` argument asks for a comparison impl, which
/// needs the enum's `where` clause.
pub open spec fn first_compare_recognized(a: Attributes) -> bool {
    match a.compares {
        Some(cs) => cs@.len() > 0 && (is_ident_spec(cs@[0], "PartialEq"@) || is_ident_spec(
            cs@[0],
            "PartialOrd"@,
        )),
        None => false,
    }
}

/// The inputs on which generation reaches a comparison impl without a
/// `where` clause to extend.
pub open spec fn lacks_where_clause(p: Printing, g: Generics, a: Attributes, d: DataEnum) -> bool {
    &&& d.variants@.len() <= MAX_VARIANTS
    &&& before_compares(p, g, a, d) is Ok
    &&& g.where_clause is None
    &&& first_compare_recognized(a)
}

/// Everything generated for the enum: the public items, then an anonymous
/// `const` holding the private items and the `Archive` impl whose `resolve`
/// matches on the resolver.
pub open spec fn impl_enum_spec(p: Printing, g: Generics, a: Attributes, d: DataEnum) -> Result<Seq<PieceView>, DeriveError> {
    if d.variants@.len() > MAX_VARIANTS {
        Err(DeriveError::TooManyVariants)
    } else {
        match before_compares(p, g, a, d) {
            Err(e) => Err(e),
            Ok((pu, pr, ra)) => match (match a.compares {
                Some(cs) => compares_fold(p, g, d, cs@, pu, pr),
                None => Ok((pu, pr)),
            }) {
                Err(e) => Err(e),
                Ok((public, private)) => Ok(
                    public + code("const _: () = {"@) + private + (code("impl"@) + g.impl_generics@
                        + code("Archive for"@) + code(p.name@) + g.ty_generics@ + where_tokens(
                        g.where_clause,
                    )) + code("{"@) + (code("type Archived ="@) + p.archived_type@ + code(";"@))
                        + (code("type Resolver ="@) + code(p.resolver_name@) + g.ty_generics@ + code(
                        ";"@,
                    )) + code(
                        "#[allow(clippy::unit_arg)] fn resolve( &self, resolver: <Self as Archive>::Resolver, out:"@,
                    ) + p.rkyv_path@ + code(
                        "::Place<<Self as Archive>::Archived>, ) { match resolver {"@,
                    ) + ra + code("} } } };"@),
                ),
            },
        }
    }
}

/// Generates the `u8` tag enum.
pub fn generate_tag_enum(data: &DataEnum) -> (t: Tokens)
    ensures
        t@ == archived_tag_enum(*data),
{
    let ghost f = tag_fn();
    let mut acc = Tokens::new();
    let n = data.variants.len();
    let mut i: usize = 0;
    while i < n
        invariant
            n == data.variants@.len(),
            f == tag_fn(),
            i <= n,
            acc@ == rep(data.variants@.take(i as int), f),
        decreases n - i,
    {
        proof {
            lemma_rep_step(data.variants@, f, i as int);
        }
        let v = &data.variants[i];
        let mut t = Tokens::from_code_string(v.ident.clone());
        t.push_discriminant(&v.discriminant);
        t.push_code(",");
        acc.append(t);
        i = i + 1;
    }
    proof {
        lemma_take_all(data.variants@);
    }
    let mut t = Tokens::from_code("#[derive(PartialEq, PartialOrd)] #[repr(u8)] enum ArchivedTag {");
    t.append(acc);
    t.push_code("}");
    t
}

proof fn lemma_fold_step(
    p: Printing,
    g: Generics,
    d: DataEnum,
    cs: Seq<Path>,
    public: Seq<PieceView>,
    private: Seq<PieceView>,
    i: int,
)
    requires
        0 <= i < cs.len(),
    ensures
        compares_fold(p, g, d, cs.take(i + 1), public, private) == match compares_fold(
            p,
            g,
            d,
            cs.take(i),
            public,
            private,
        ) {
            Err(e) => Err(e),
            Ok((pu, pr)) => if is_ident_spec(cs[i], "PartialEq"@) {
                match partial_eq_spec(p, g, d) {
                    Ok(t) => Ok((pu + t, pr)),
                    Err(e) => Err(e),
                }
            } else if is_ident_spec(cs[i], "PartialOrd"@) {
                match partial_ord_spec(p, g, d) {
                    Ok(t) => Ok((pu, pr + t)),
                    Err(e) => Err(e),
                }
            } else {
                Err(DeriveError::UnrecognizedCompare { index: i as usize })
            },
        },
{
    assert(cs.take(i + 1).drop_last() =~= cs.take(i));
}

proof fn lemma_fold_err(
    p: Printing,
    g: Generics,
    d: DataEnum,
    cs: Seq<Path>,
    public: Seq<PieceView>,
    private: Seq<PieceView>,
    j: int,
    k: int,
)
    requires
        0 <= j <= k <= cs.len(),
        compares_fold(p, g, d, cs.take(j), public, private) is Err,
    ensures
        compares_fold(p, g, d, cs.take(k), public, private) == compares_fold(
            p,
            g,
            d,
            cs.take(j),
            public,
            private,
        ),
    decreases k - j,
{
    if k > j {
        lemma_fold_err(p, g, d, cs, public, private, j, k - 1);
        lemma_fold_step(p, g, d, cs, public, private, k - 1);
    }
}

fn apply_compares(
    printing: &Printing,
    generics: &Generics,
    data: &DataEnum,
    cs: &Vec<Path>,
    public: &mut Tokens,
    private: &mut Tokens,
) -> (r: Result<(), DeriveError>)
    requires
        generics.where_clause is None ==> !(cs@.len() > 0 && (is_ident_spec(cs@[0], "PartialEq"@)
            || is_ident_spec(cs@[0], "PartialOrd"@))),
    ensures
        match compares_fold(*printing, *generics, *data, cs@, old(public)@, old(private)@) {
            Ok((pu, pr)) => r is Ok && final(public)@ == pu && final(private)@ == pr,
            Err(e) => r == Err::<(), DeriveError>(e),
        },
{
    let ghost pub0 = public@;
    let ghost priv0 = private@;
    let n = cs.len();
    let mut i: usize = 0;
    while i < n
        invariant
            n == cs@.len(),
            i <= n,
            pub0 == old(public)@,
            priv0 == old(private)@,
            i > 0 ==> generics.where_clause is Some,
            generics.where_clause is None ==> !(cs@.len() > 0 && (is_ident_spec(cs@[0], "PartialEq"@)
                || is_ident_spec(cs@[0], "PartialOrd"@))),
            compares_fold(*printing, *generics, *data, cs@.take(i as int), pub0, priv0) == Ok::<
                (Seq<PieceView>, Seq<PieceView>),
                DeriveError,
            >((public@, private@)),
        decreases n - i,
    {
        proof {
            lemma_fold_step(*printing, *generics, *data, cs@, pub0, priv0, i as int);
        }
        let c = &cs[i];
        if c.is_ident("PartialEq") {
            match generate_partial_eq_impl(printing, generics, data) {
                Ok(t) => {
                    public.append(t);
                },
                Err(e) => {
                    proof {
                        lemma_fold_err(*printing, *generics, *data, cs@, pub0, priv0, i + 1, n as int);
                        lemma_take_all(cs@);
                    }
                    return Err(e);
                },
            }
        } else if c.is_ident("PartialOrd") {
            match generate_partial_ord_impl(printing, generics, data) {
                Ok(t) => {
                    private.append(t);
                },
                Err(e) => {
                    proof {
                        lemma_fold_err(*printing, *generics, *data, cs@, pub0, priv0, i + 1, n as int);
                        lemma_take_all(cs@);
                    }
                    return Err(e);
                },
            }
        } else {
            proof {
                lemma_fold_err(*printing, *generics, *data, cs@, pub0, priv0, i + 1, n as int);
                lemma_take_all(cs@);
            }
            return Err(DeriveError::UnrecognizedCompare { index: i });
        }
        i = i + 1;
    }
    proof {
        lemma_take_all(cs@);
    }
    Ok(())
}

/// Generates everything for deriving `Archive` on an enum: the archived enum
/// (unless an `as` type is given), the resolver enum, the tag enum, the
/// layout structs, the requested comparison impls and the `Archive` impl.
/// Fails on more than 256 variants, on a `compare` argument other than
/// `PartialEq` and `PartialOrd`, and on a field whose archived type,
/// resolver type or resolve function is unknown, whichever comes first.
pub fn impl_enum(printing: &Printing, generics: &Generics, attributes: &Attributes, data: &DataEnum) -> (r: Result<Tokens, DeriveError>)
    requires
        !lacks_where_clause(*printing, *generics, *attributes, *data),
    ensures
        rv(r) == impl_enum_spec(*printing, *generics, *attributes, *data),
        r matches Err(DeriveError::TooManyVariants) <==> data.variants@.len() > MAX_VARIANTS,
{
    proof {
        law_too_many_variants(*printing, *generics, *attributes, *data);
    }
    if data.variants.len() > MAX_VARIANTS {
        return Err(DeriveError::TooManyVariants);
    }
    let mut public = if attributes.as_type.is_none() {
        match generate_archived_type(printing, generics, data) {
            Ok(t) => t,
            Err(e) => {
                return Err(e);
            },
        }
    } else {
        Tokens::new()
    };
    match generate_resolver_type(printing, generics, data) {
        Ok(t) => public.append(t),
        Err(e) => {
            return Err(e);
        },
    }
    let mut private = generate_tag_enum(data);
    match generate_variant_structs(printing, generics, data) {
        Ok(t) => private.append(t),
        Err(e) => {
            return Err(e);
        },
    }
    let resolve_arms = match generate_resolve_arms(printing, generics, data) {
        Ok(t) => t,
        Err(e) => {
            return Err(e);
        },
    };
    match &attributes.compares {
        Some(cs) => {
            match apply_compares(printing, generics, data, cs, &mut public, &mut private) {
                Ok(()) => {},
                Err(e) => {
                    return Err(e);
                },
            }
        },
        None => {},
    }
    let mut t = public;
    t.push_code("const _: () = {");
    t.append(private);
    let mut header = Tokens::from_code("impl");
    header.extend(&generics.impl_generics);
    header.push_code("Archive for");
    header.push_code_string(printing.name.clone());
    header.extend(&generics.ty_generics);
    header.append(where_clause_tokens(&generics.where_clause));
    t.append(header);
    t.push_code("{");
    let mut archived = Tokens::from_code("type Archived =");
    archived.extend(&printing.archived_type);
    archived.push_code(";");
    t.append(archived);
    let mut resolver = Tokens::from_code("type Resolver =");
    resolver.push_code_string(printing.resolver_name.clone());
    resolver.extend(&generics.ty_generics);
    resolver.push_code(";");
    t.append(resolver);
    t.push_code(
        "#[allow(clippy::unit_arg)] fn resolve( &self, resolver: <Self as Archive>::Resolver, out:",
    );
    t.extend(&printing.rkyv_path);
    t.push_code("::Place<<Self as Archive>::Archived>, ) { match resolver {");
    t.append(resolve_arms);
    t.push_code("} } } };");
    Ok(t)
}

} // verus!
