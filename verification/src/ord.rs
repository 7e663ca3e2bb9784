//! `PartialOrd` between the enum and its archived counterpart: variants
//! compare by their order of declaration, fields of equal variants in order.

use vstd::prelude::*;
use crate::tokens::{code, PieceView, Tokens};
use crate::model::{
    lemma_rep_step, lemma_take_all, pos, rep, rv, where_view_tokens, DataEnum, DeriveError, Field,
    Fields, Generics, Printing, Variant,
};
use crate::eq::{bounded_where, bounded_where_clause, self_pattern, self_pattern_tokens};
use crate::text::{binding_at, binding_name};
use crate::runs::{contains_run, lemma_run_add, lemma_run_self};

verus! {

/// What follows `Name::Variant` in a pattern that ignores the fields, and
/// the tag that the arm gives.
pub open spec fn disc_tail(v: Variant) -> Seq<PieceView> {
    (match v.fields {
        Fields::Named(_) => code("{ .. } => ArchivedTag::"@),
        Fields::Unnamed(_) => code("( .. ) => ArchivedTag::"@),
        Fields::Unit => code("=> ArchivedTag::"@),
    }) + code(v.ident@)
}

/// The arm that maps a value of the enum (`owner` is its name) to its tag.
pub open spec fn disc_fn(owner: Seq<char>) -> spec_fn(int, Variant) -> Seq<PieceView> {
    |vi: int, v: Variant| code(owner) + code("::"@) + code(v.ident@) + disc_tail(v) + code(","@)
}

/// For each field: compare the archived field with the enum's and return
/// the reversed outcome unless they are equal.
pub open spec fn ord_check_fn() -> spec_fn(int, Field) -> Seq<PieceView> {
    |k: int, f: Field|
        code("match"@) + code(binding_at("other_"@, k)) + code(".partial_cmp("@) + code(
            binding_at("self_"@, k),
        ) + code(
            ") { Some(::core::cmp::Ordering::Equal) => (), cmp => return cmp.map(::core::cmp::Ordering::reverse), }"@,
        )
}

pub open spec fn ord_arm_tail() -> Seq<PieceView> {
    code(
        "Some(::core::cmp::Ordering::Equal) } #[allow(unreachable_patterns)] _ => unsafe { ::core::hint::unreachable_unchecked() }, }"@,
    )
}

/// The match arm comparing the fields of one variant.
pub open spec fn ord_arm_fn(p: Printing) -> spec_fn(int, Variant) -> Seq<PieceView> {
    |vi: int, v: Variant|
        (match v.fields {
            Fields::Named(fs) => self_pattern(p, v, fs@, true) + code("{"@) + rep(fs@, ord_check_fn())
                + ord_arm_tail(),
            Fields::Unnamed(fs) => self_pattern(p, v, fs@, false) + code("{"@) + rep(
                fs@,
                ord_check_fn(),
            ) + ord_arm_tail(),
            Fields::Unit => code(p.name@) + code("::"@) + code(v.ident@) + code("=> match other {"@)
                + code(p.archived_name@) + code("::"@) + code(v.ident@) + code("=> {"@)
                + ord_arm_tail(),
        }) + code(","@)
}

/// Both `PartialOrd` impls: the enum compared with its archived type by tag
/// and, for equal tags, field by field; and the archived type compared with
/// the enum by reversing the first.
pub open spec fn partial_ord_spec(p: Printing, g: Generics, d: DataEnum) -> Result<Seq<PieceView>, DeriveError> {
    match bounded_where(g, d, ": PartialOrd<"@) {
        Ok(wv) => {
            let w = where_view_tokens(wv);
            Ok(
                code("impl"@) + g.impl_generics@ + code("PartialOrd<"@) + p.archived_type@ + code(
                    "> for"@,
                ) + code(p.name@) + g.ty_generics@ + w + code("{ fn partial_cmp( &self, other: &"@)
                    + p.archived_type@ + code(", ) -> Option<::core::cmp::Ordering> {"@) + (code(
                    "let self_disc = match self {"@,
                ) + rep(d.variants@, disc_fn(p.name@))) + code("};"@) + (code(
                    "let other_disc = match other {"@,
                ) + rep(d.variants@, disc_fn(p.archived_name@))) + code(
                    "}; if self_disc == other_disc { match self {"@,
                ) + rep(d.variants@, ord_arm_fn(p)) + (code("} } else {"@) + code(
                    "self_disc.partial_cmp(&other_disc)"@,
                )) + code("} } }"@) + code("impl"@) + g.impl_generics@ + code("PartialOrd<"@) + code(p.name@)
                    + g.ty_generics@ + code("> for"@) + p.archived_type@ + w + code(
                    "{ fn partial_cmp( &self, other: &"@,
                ) + code(p.name@) + g.ty_generics@ + code(
                    ", ) -> Option<::core::cmp::Ordering> { match other.partial_cmp(self) { Some(::core::cmp::Ordering::Less) => { Some(::core::cmp::Ordering::Greater) } Some(::core::cmp::Ordering::Greater) => { Some(::core::cmp::Ordering::Less) } cmp => cmp, } } }"@,
                ),
            )
        },
        Err(e) => Err(e),
    }
}

fn ord_checks(fs: &Vec<Field>) -> (t: Tokens)
    ensures
        t@ == rep(fs@, ord_check_fn()),
{
    let ghost f = ord_check_fn();
    let mut acc = Tokens::new();
    let n = fs.len();
    let mut i: usize = 0;
    while i < n
        invariant
            n == fs@.len(),
            f == ord_check_fn(),
            i <= n,
            acc@ == rep(fs@.take(pos(i)), f),
        decreases n - i,
    {
        proof {
            lemma_rep_step(fs@, f, pos(i));
        }
        let mut t = Tokens::from_code("match");
        t.push_code_string(binding_name("other_", i));
        t.push_code(".partial_cmp(");
        t.push_code_string(binding_name("self_", i));
        t.push_code(
            ") { Some(::core::cmp::Ordering::Equal) => (), cmp => return cmp.map(::core::cmp::Ordering::reverse), }",
        );
        acc.append(t);
        i = i + 1;
    }
    proof {
        lemma_take_all(fs@);
    }
    acc
}

fn ord_arm(p: &Printing, vi: usize, v: &Variant) -> (t: Tokens)
    ensures
        t@ == (ord_arm_fn(*p))(pos(vi), *v),
{
    let tail = "Some(::core::cmp::Ordering::Equal) } #[allow(unreachable_patterns)] _ => unsafe { ::core::hint::unreachable_unchecked() }, }";
    let mut t = match &v.fields {
        Fields::Named(fs) => {
            let mut t = self_pattern_tokens(p, v, fs, true);
            t.push_code("{");
            t.append(ord_checks(fs));
            t.push_code(tail);
            t
        },
        Fields::Unnamed(fs) => {
            let mut t = self_pattern_tokens(p, v, fs, false);
            t.push_code("{");
            t.append(ord_checks(fs));
            t.push_code(tail);
            t
        },
        Fields::Unit => {
            let mut t = Tokens::from_code_string(p.name.clone());
            t.push_code("::");
            t.push_code_string(v.ident.clone());
            t.push_code("=> match other {");
            t.push_code_string(p.archived_name.clone());
            t.push_code("::");
            t.push_code_string(v.ident.clone());
            t.push_code("=> {");
            t.push_code(tail);
            t
        },
    };
    t.push_code(",");
    t
}

fn disc_arm(owner: &String, v: &Variant) -> (t: Tokens)
    ensures
        t@ == code(owner@) + code("::"@) + code(v.ident@) + disc_tail(*v) + code(","@),
{
    let mut t = Tokens::from_code_string(owner.clone());
    t.push_code("::");
    t.push_code_string(v.ident.clone());
    let mut tail = match &v.fields {
        Fields::Named(_) => Tokens::from_code("{ .. } => ArchivedTag::"),
        Fields::Unnamed(_) => Tokens::from_code("( .. ) => ArchivedTag::"),
        Fields::Unit => Tokens::from_code("=> ArchivedTag::"),
    };
    tail.push_code_string(v.ident.clone());
    t.append(tail);
    t.push_code(",");
    t
}

fn disc_arms(owner: &String, d: &DataEnum) -> (t: Tokens)
    ensures
        t@ == rep(d.variants@, disc_fn(owner@)),
{
    let ghost f = disc_fn(owner@);
    let mut acc = Tokens::new();
    let n = d.variants.len();
    let mut i: usize = 0;
    while i < n
        invariant
            n == d.variants@.len(),
            f == disc_fn(owner@),
            i <= n,
            acc@ == rep(d.variants@.take(pos(i)), f),
        decreases n - i,
    {
        proof {
            lemma_rep_step(d.variants@, f, pos(i));
        }
        acc.append(disc_arm(owner, &d.variants[i]));
        i = i + 1;
    }
    proof {
        lemma_take_all(d.variants@);
    }
    acc
}

fn ord_arms(p: &Printing, d: &DataEnum) -> (t: Tokens)
    ensures
        t@ == rep(d.variants@, ord_arm_fn(*p)),
{
    let ghost f = ord_arm_fn(*p);
    let mut acc = Tokens::new();
    let n = d.variants.len();
    let mut i: usize = 0;
    while i < n
        invariant
            n == d.variants@.len(),
            f == ord_arm_fn(*p),
            i <= n,
            acc@ == rep(d.variants@.take(pos(i)), f),
        decreases n - i,
    {
        proof {
            lemma_rep_step(d.variants@, f, pos(i));
        }
        acc.append(ord_arm(p, i, &d.variants[i]));
        i = i + 1;
    }
    proof {
        lemma_take_all(d.variants@);
    }
    acc
}

/// Generates both `PartialOrd` impls between the enum and its archived
/// type, or the first field that keeps its bounds and whose archived type is
/// unknown.
pub fn generate_partial_ord_impl(printing: &Printing, generics: &Generics, data: &DataEnum) -> (r: Result<Tokens, DeriveError>)
    requires
        generics.where_clause is Some,
    ensures
        rv(r) == partial_ord_spec(*printing, *generics, *data),
{
    let wc = match bounded_where_clause(generics, data, ": PartialOrd<") {
        Ok(w) => w,
        Err(e) => {
            return Err(e);
        },
    };
    let w = wc.to_tokens();
    let p = printing;
    let g = generics;
    let mut t = Tokens::from_code("impl");
    t.extend(&g.impl_generics);
    t.push_code("PartialOrd<");
    t.extend(&p.archived_type);
    t.push_code("> for");
    t.push_code_string(p.name.clone());
    t.extend(&g.ty_generics);
    t.extend(&w);
    t.push_code("{ fn partial_cmp( &self, other: &");
    t.extend(&p.archived_type);
    t.push_code(", ) -> Option<::core::cmp::Ordering> {");
    let mut self_disc = Tokens::from_code("let self_disc = match self {");
    self_disc.append(disc_arms(&p.name, data));
    t.append(self_disc);
    t.push_code("};");
    let mut other_disc = Tokens::from_code("let other_disc = match other {");
    other_disc.append(disc_arms(&p.archived_name, data));
    t.append(other_disc);
    t.push_code("}; if self_disc == other_disc { match self {");
    t.append(ord_arms(p, data));
    let mut fallback = Tokens::from_code("} } else {");
    fallback.push_code("self_disc.partial_cmp(&other_disc)");
    t.append(fallback);
    t.push_code("} } }");
    t.push_code("impl");
    t.extend(&g.impl_generics);
    t.push_code("PartialOrd<");
    t.push_code_string(p.name.clone());
    t.extend(&g.ty_generics);
    t.push_code("> for");
    t.extend(&p.archived_type);
    t.extend(&w);
    t.push_code("{ fn partial_cmp( &self, other: &");
    t.push_code_string(p.name.clone());
    t.extend(&g.ty_generics);
    t.push_code(
        ", ) -> Option<::core::cmp::Ordering> { match other.partial_cmp(self) { Some(::core::cmp::Ordering::Less) => { Some(::core::cmp::Ordering::Greater) } Some(::core::cmp::Ordering::Greater) => { Some(::core::cmp::Ordering::Less) } cmp => cmp, } } }",
    );
    Ok(t)
}

/// The pattern of a variant in a tag match, up to the tag's path.
pub open spec fn tag_pattern(v: Variant) -> Seq<PieceView> {
    match v.fields {
        Fields::Named(_) => code("{ .. } => ArchivedTag::"@),
        Fields::Unnamed(_) => code("( .. ) => ArchivedTag::"@),
        Fields::Unit => code("=> ArchivedTag::"@),
    }
}

/// Values of different variants compare by their tags, the enum's value
/// against the archived one: the enum value's tag is bound to `self_disc` by
/// matching `self` with the enum's name, the archived value's to
/// `other_disc` by matching `other` with the archived enum's name, each arm
/// mapping a variant to the tag of the same name; when the tags differ the
/// result is `self_disc.partial_cmp(&other_disc)`.
pub proof fn law_partial_ord_compares_tags(p: Printing, g: Generics, d: DataEnum)
    requires
        partial_ord_spec(p, g, d) is Ok,
    ensures
        contains_run(
            partial_ord_spec(p, g, d)->Ok_0,
            code("let self_disc = match self {"@) + rep(d.variants@, disc_fn(p.name@)),
        ),
        contains_run(
            partial_ord_spec(p, g, d)->Ok_0,
            code("let other_disc = match other {"@) + rep(d.variants@, disc_fn(p.archived_name@)),
        ),
        contains_run(
            partial_ord_spec(p, g, d)->Ok_0,
            code("} } else {"@) + code("self_disc.partial_cmp(&other_disc)"@),
        ),
        forall|owner: Seq<char>, vi: int, v: Variant|
            #[trigger] (disc_fn(owner))(vi, v) == code(owner) + code("::"@) + code(v.ident@)
                + tag_pattern(v) + code(v.ident@) + code(","@),
{
    broadcast use lemma_run_add;

    lemma_run_self(code("let self_disc = match self {"@) + rep(d.variants@, disc_fn(p.name@)));
    lemma_run_self(
        code("let other_disc = match other {"@) + rep(d.variants@, disc_fn(p.archived_name@)),
    );
    lemma_run_self(code("} } else {"@) + code("self_disc.partial_cmp(&other_disc)"@));
    assert forall|owner: Seq<char>, vi: int, v: Variant|
        #[trigger] (disc_fn(owner))(vi, v) == code(owner) + code("::"@) + code(v.ident@)
            + tag_pattern(v) + code(v.ident@) + code(","@) by {
        assert((disc_fn(owner))(vi, v) =~= code(owner) + code("::"@) + code(v.ident@)
            + tag_pattern(v) + code(v.ident@) + code(","@));
    }
}

} // verus!
