//! `PartialEq` between the enum and its archived counterpart.

use vstd::prelude::*;
use crate::tokens::{code, PieceView, Tokens};
use crate::model::{
    fields_seq, lemma_rep_res_err, lemma_rep_res_step, lemma_rep_step, lemma_take_all, opt_ident,
    push_predicates, rep, rep_res, rv, where_view_tokens, DataEnum, DeriveError, Field, Fields,
    Generics, Printing, Variant, WhereClause, WhereView,
};
use crate::resolve::{binding_list_fn, member_bindings};
use crate::text::{binding, binding_name};

verus! {

/// The bound `archived: Trait<ty>` of a field that keeps its bounds.
pub open spec fn bound_field_fn(vi: int, bound: Seq<char>) -> spec_fn(int, Field) -> Result<Seq<Seq<PieceView>>, DeriveError> {
    |k: int, f: Field|
        if f.omit_bounds {
            Ok(Seq::empty())
        } else {
            match f.archived {
                Some(a) => Ok(seq![a@ + code(bound) + f.ty@ + code(">"@)]),
                None => Err(DeriveError::ArchivedType { variant: vi as usize, field: k as usize }),
            }
        }
}

pub open spec fn bound_variant_fn(bound: Seq<char>) -> spec_fn(int, Variant) -> Result<Seq<Seq<PieceView>>, DeriveError> {
    |vi: int, v: Variant| rep_res(fields_seq(v.fields), bound_field_fn(vi, bound))
}

/// The bounds for all fields of all variants that keep their bounds, in
/// order; `bound` is the text between the archived type and the field type,
/// such as `: PartialEq<`.
pub open spec fn bound_predicates(d: DataEnum, bound: Seq<char>) -> Result<Seq<Seq<PieceView>>, DeriveError> {
    rep_res(d.variants@, bound_variant_fn(bound))
}

/// The `where` clause of a comparison impl: the enum's clause with the
/// field bounds pushed after its own predicates.
pub open spec fn bounded_where(g: Generics, d: DataEnum, bound: Seq<char>) -> Result<WhereView, DeriveError> {
    match bound_predicates(d, bound) {
        Ok(ps) => Ok(push_predicates(g.where_clause.unwrap()@, ps)),
        Err(e) => Err(e),
    }
}

/// `name: binding,` for each field, the name omitted where the field has none.
pub open spec fn name_binding_fn(prefix: Seq<char>) -> spec_fn(int, Field) -> Seq<PieceView> {
    |k: int, f: Field| opt_ident(f.ident) + code(":"@) + code(binding(prefix, k as nat)) + code(","@)
}

/// `&& other_i.eq(self_i)` for each field.
pub open spec fn eq_check_fn() -> spec_fn(int, Field) -> Seq<PieceView> {
    |k: int, f: Field|
        code("&&"@) + code(binding("other_"@, k as nat)) + code(".eq("@) + code(
            binding("self_"@, k as nat),
        ) + code(")"@)
}

/// The patterns `Name::Variant {..}` / `(..)` that bind each field of the
/// enum's value (`self_i`) and of the other value (`other_i`), as the
/// comparison impls write them.
pub open spec fn self_pattern(p: Printing, v: Variant, fs: Seq<Field>, named: bool) -> Seq<PieceView> {
    code(p.name@) + code("::"@) + code(v.ident@) + (if named {
        code("{"@) + rep(fs, name_binding_fn("self_"@)) + code("} => match other {"@)
    } else {
        code("("@) + rep(fs, binding_list_fn("self_"@)) + code(") => match other {"@)
    }) + code(p.archived_name@) + code("::"@) + code(v.ident@) + (if named {
        code("{"@) + rep(fs, name_binding_fn("other_"@)) + code("} =>"@)
    } else {
        code("("@) + rep(fs, binding_list_fn("other_"@)) + code(") =>"@)
    })
}

/// The match arm comparing one variant for equality.
pub open spec fn eq_arm_fn(p: Printing) -> spec_fn(int, Variant) -> Seq<PieceView> {
    |vi: int, v: Variant|
        match v.fields {
            Fields::Named(fs) => self_pattern(p, v, fs@, true) + (code("true"@) + rep(
                fs@,
                eq_check_fn(),
            )) + code(", #[allow(unreachable_patterns)] _ => false, }"@),
            Fields::Unnamed(fs) => self_pattern(p, v, fs@, false) + code("{"@) + (code("true"@)
                + rep(fs@, eq_check_fn())) + code("} #[allow(unreachable_patterns)] _ => false, }"@),
            Fields::Unit => code(p.name@) + code("::"@) + code(v.ident@) + code("=> match other {"@)
                + code(p.archived_name@) + code("::"@) + code(v.ident@) + code(
                "=> true, #[allow(unreachable_patterns)] _ => false, }"@,
            ),
        } + code(","@)
}

/// Both `PartialEq` impls: the enum compared with its archived type by
/// variant and then field by field, and the archived type compared with the
/// enum by delegating to the first.
pub open spec fn partial_eq_spec(p: Printing, g: Generics, d: DataEnum) -> Result<Seq<PieceView>, DeriveError> {
    match bounded_where(g, d, ": PartialEq<"@) {
        Ok(wv) => {
            let w = where_view_tokens(wv);
            Ok(
                code("impl"@) + g.impl_generics@ + code("PartialEq<"@) + p.archived_type@ + code(
                    "> for"@,
                ) + code(p.name@) + g.ty_generics@ + w + code("{ fn eq(&self, other: &"@)
                    + p.archived_type@ + code(") -> bool { match self {"@) + rep(
                    d.variants@,
                    eq_arm_fn(p),
                ) + code("} } }"@) + code("impl"@) + g.impl_generics@ + code("PartialEq<"@)
                    + code(p.name@) + g.ty_generics@ + code("> for"@) + p.archived_type@ + w + code(
                    "{ fn eq(&self, other: &"@,
                ) + code(p.name@) + g.ty_generics@ + code(") -> bool { other.eq(self) } }"@),
            )
        },
        Err(e) => Err(e),
    }
}

fn push_variant_bounds(acc: &mut WhereClause, vi: usize, fields: &Fields, bound: &str) -> (r: Result<(), DeriveError>)
    ensures
        match rep_res(fields_seq(*fields), bound_field_fn(vi as int, bound@)) {
            Ok(ps) => r is Ok && final(acc)@ == push_predicates(old(acc)@, ps),
            Err(e) => r == Err::<(), DeriveError>(e),
        },
{
    let fs = match fields {
        Fields::Named(fs) => fs,
        Fields::Unnamed(fs) => fs,
        Fields::Unit => {
            assert(push_predicates(acc@, Seq::empty()).predicates =~= acc@.predicates);
            return Ok(());
        },
    };
    let ghost f = bound_field_fn(vi as int, bound@);
    let ghost base = acc@;
    let ghost mut ps: Seq<Seq<PieceView>> = Seq::empty();
    assert(push_predicates(base, ps).predicates =~= base.predicates);
    let n = fs.len();
    let mut i: usize = 0;
    while i < n
        invariant
            n == fs@.len(),
            fs@ == fields_seq(*fields),
            f == bound_field_fn(vi as int, bound@),
            base == old(acc)@,
            i <= n,
            rep_res(fs@.take(i as int), f) == Ok::<Seq<Seq<PieceView>>, DeriveError>(ps),
            acc@ == push_predicates(base, ps),
        decreases n - i,
    {
        proof {
            lemma_rep_res_step(fs@, f, i as int);
        }
        let fld = &fs[i];
        if !fld.omit_bounds {
            match &fld.archived {
                Some(a) => {
                    let mut t = a.duplicate();
                    t.push_code(bound);
                    t.extend(&fld.ty);
                    t.push_code(">");
                    acc.push(t);
                    proof {
                        assert(acc@.predicates =~= base.predicates + (ps + seq![t@]));
                        ps = ps + seq![t@];
                    }
                },
                None => {
                    proof {
                        lemma_rep_res_err(fs@, f, i as int + 1, n as int);
                        lemma_take_all(fs@);
                    }
                    return Err(DeriveError::ArchivedType { variant: vi, field: i });
                },
            }
        } else {
            proof {
                assert(ps + Seq::<Seq<PieceView>>::empty() =~= ps);
            }
        }
        i = i + 1;
    }
    proof {
        lemma_take_all(fs@);
    }
    Ok(())
}

/// The enum's `where` clause with the bounds `archived: Trait<ty>` of every
/// field that keeps its bounds, or the first such field whose archived type
/// is unknown.
pub fn bounded_where_clause(g: &Generics, d: &DataEnum, bound: &str) -> (r: Result<WhereClause, DeriveError>)
    requires
        g.where_clause is Some,
    ensures
        match bounded_where(*g, *d, bound@) {
            Ok(wv) => r is Ok && r->Ok_0@ == wv,
            Err(e) => r == Err::<WhereClause, DeriveError>(e),
        },
{
    let mut acc = g.where_clause.as_ref().unwrap().duplicate();
    let ghost f = bound_variant_fn(bound@);
    let ghost base = acc@;
    let ghost mut ps: Seq<Seq<PieceView>> = Seq::empty();
    assert(push_predicates(base, ps).predicates =~= base.predicates);
    let n = d.variants.len();
    let mut i: usize = 0;
    while i < n
        invariant
            n == d.variants@.len(),
            f == bound_variant_fn(bound@),
            base == g.where_clause.unwrap()@,
            i <= n,
            rep_res(d.variants@.take(i as int), f) == Ok::<Seq<Seq<PieceView>>, DeriveError>(ps),
            acc@ == push_predicates(base, ps),
        decreases n - i,
    {
        proof {
            lemma_rep_res_step(d.variants@, f, i as int);
        }
        match push_variant_bounds(&mut acc, i, &d.variants[i].fields, bound) {
            Ok(()) => {
                proof {
                    let qs = rep_res(fields_seq(d.variants@[i as int].fields), bound_field_fn(i as int, bound@))->Ok_0;
                    assert(acc@.predicates =~= base.predicates + (ps + qs));
                    ps = ps + qs;
                }
            },
            Err(e) => {
                proof {
                    lemma_rep_res_err(d.variants@, f, i as int + 1, n as int);
                    lemma_take_all(d.variants@);
                }
                return Err(e);
            },
        }
        i = i + 1;
    }
    proof {
        lemma_take_all(d.variants@);
    }
    Ok(acc)
}

/// `name: binding,` for each field.
pub fn name_bindings(fs: &Vec<Field>, prefix: &str) -> (t: Tokens)
    ensures
        t@ == rep(fs@, name_binding_fn(prefix@)),
{
    let ghost f = name_binding_fn(prefix@);
    let mut acc = Tokens::new();
    let n = fs.len();
    let mut i: usize = 0;
    while i < n
        invariant
            n == fs@.len(),
            f == name_binding_fn(prefix@),
            i <= n,
            acc@ == rep(fs@.take(i as int), f),
        decreases n - i,
    {
        proof {
            lemma_rep_step(fs@, f, i as int);
        }
        let mut t = Tokens::new();
        t.push_opt_ident(&fs[i].ident);
        t.push_code(":");
        t.push_code_string(binding_name(prefix, i));
        t.push_code(",");
        assert(t@ =~= opt_ident(fs@[i as int].ident) + code(":"@) + code(binding(prefix@, i as nat))
            + code(","@));
        acc.append(t);
        i = i + 1;
    }
    proof {
        lemma_take_all(fs@);
    }
    acc
}

/// The patterns that bind the fields of both values of a comparison.
pub fn self_pattern_tokens(p: &Printing, v: &Variant, fs: &Vec<Field>, named: bool) -> (t: Tokens)
    ensures
        t@ == self_pattern(*p, *v, fs@, named),
{
    let mut t = Tokens::from_code_string(p.name.clone());
    t.push_code("::");
    t.push_code_string(v.ident.clone());
    if named {
        let mut a = Tokens::from_code("{");
        a.append(name_bindings(fs, "self_"));
        a.push_code("} => match other {");
        t.append(a);
    } else {
        let mut a = Tokens::from_code("(");
        a.append(member_bindings(fs, "self_", false));
        a.push_code(") => match other {");
        t.append(a);
    }
    t.push_code_string(p.archived_name.clone());
    t.push_code("::");
    t.push_code_string(v.ident.clone());
    if named {
        let mut a = Tokens::from_code("{");
        a.append(name_bindings(fs, "other_"));
        a.push_code("} =>");
        t.append(a);
    } else {
        let mut a = Tokens::from_code("(");
        a.append(member_bindings(fs, "other_", false));
        a.push_code(") =>");
        t.append(a);
    }
    t
}

fn eq_checks(fs: &Vec<Field>) -> (t: Tokens)
    ensures
        t@ == rep(fs@, eq_check_fn()),
{
    let ghost f = eq_check_fn();
    let mut acc = Tokens::new();
    let n = fs.len();
    let mut i: usize = 0;
    while i < n
        invariant
            n == fs@.len(),
            f == eq_check_fn(),
            i <= n,
            acc@ == rep(fs@.take(i as int), f),
        decreases n - i,
    {
        proof {
            lemma_rep_step(fs@, f, i as int);
        }
        let mut t = Tokens::from_code("&&");
        t.push_code_string(binding_name("other_", i));
        t.push_code(".eq(");
        t.push_code_string(binding_name("self_", i));
        t.push_code(")");
        acc.append(t);
        i = i + 1;
    }
    proof {
        lemma_take_all(fs@);
    }
    acc
}

fn eq_arm(p: &Printing, vi: usize, v: &Variant) -> (t: Tokens)
    ensures
        t@ == (eq_arm_fn(*p))(vi as int, *v),
{
    let mut t = match &v.fields {
        Fields::Named(fs) => {
            let mut t = self_pattern_tokens(p, v, fs, true);
            let mut all = Tokens::from_code("true");
            all.append(eq_checks(fs));
            t.append(all);
            t.push_code(", #[allow(unreachable_patterns)] _ => false, }");
            t
        },
        Fields::Unnamed(fs) => {
            let mut t = self_pattern_tokens(p, v, fs, false);
            t.push_code("{");
            let mut all = Tokens::from_code("true");
            all.append(eq_checks(fs));
            t.append(all);
            t.push_code("} #[allow(unreachable_patterns)] _ => false, }");
            t
        },
        Fields::Unit => {
            let mut t = Tokens::from_code_string(p.name.clone());
            t.push_code("::");
            t.push_code_string(v.ident.clone());
            t.push_code("=> match other {");
            t.push_code_string(p.archived_name.clone());
            t.push_code("::");
            t.push_code_string(v.ident.clone());
            t.push_code("=> true, #[allow(unreachable_patterns)] _ => false, }");
            t
        },
    };
    t.push_code(",");
    t
}

fn eq_arms(p: &Printing, d: &DataEnum) -> (t: Tokens)
    ensures
        t@ == rep(d.variants@, eq_arm_fn(*p)),
{
    let ghost f = eq_arm_fn(*p);
    let mut acc = Tokens::new();
    let n = d.variants.len();
    let mut i: usize = 0;
    while i < n
        invariant
            n == d.variants@.len(),
            f == eq_arm_fn(*p),
            i <= n,
            acc@ == rep(d.variants@.take(i as int), f),
        decreases n - i,
    {
        proof {
            lemma_rep_step(d.variants@, f, i as int);
        }
        acc.append(eq_arm(p, i, &d.variants[i]));
        i = i + 1;
    }
    proof {
        lemma_take_all(d.variants@);
    }
    acc
}

/// Generates both `PartialEq` impls between the enum and its archived type,
/// or the first field that keeps its bounds and whose archived type is unknown.
pub fn generate_partial_eq_impl(printing: &Printing, generics: &Generics, data: &DataEnum) -> (r: Result<Tokens, DeriveError>)
    requires
        generics.where_clause is Some,
    ensures
        rv(r) == partial_eq_spec(*printing, *generics, *data),
{
    let wc = match bounded_where_clause(generics, data, ": PartialEq<") {
        Ok(w) => w,
        Err(e) => {
            return Err(e);
        },
    };
    let w = wc.to_tokens();
    let p = printing;
    let g = generics;
    let mut t = Tokens::from_code("impl");
    t.extend(&g.impl_generics);
    t.push_code("PartialEq<");
    t.extend(&p.archived_type);
    t.push_code("> for");
    t.push_code_string(p.name.clone());
    t.extend(&g.ty_generics);
    t.extend(&w);
    t.push_code("{ fn eq(&self, other: &");
    t.extend(&p.archived_type);
    t.push_code(") -> bool { match self {");
    t.append(eq_arms(p, data));
    t.push_code("} } }");
    t.push_code("impl");
    t.extend(&g.impl_generics);
    t.push_code("PartialEq<");
    t.push_code_string(p.name.clone());
    t.extend(&g.ty_generics);
    t.push_code("> for");
    t.extend(&p.archived_type);
    t.extend(&w);
    t.push_code("{ fn eq(&self, other: &");
    t.push_code_string(p.name.clone());
    t.extend(&g.ty_generics);
    t.push_code(") -> bool { other.eq(self) } }");
    Ok(t)
}

} // verus!
