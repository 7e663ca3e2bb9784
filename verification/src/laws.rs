//! Properties of the generated code that span the generators.

use vstd::prelude::*;
use crate::tokens::{code, str_lit, PieceView, Tokens};
use crate::model::{
    attr_fn, attr_list, discriminant_tokens, fields_seq, is_ident_spec, rep, rep_res, where_tokens,
    Attributes, DataEnum, DeriveError, Field, Fields, Generics, Printing, Variant,
};
use crate::text::{archived_variant_name, binding, decimal, lemma_decimal_injective};
use crate::archived::{
    archived_field_fn, archived_type_spec, archived_variant_fn, variant_attrs, resolver_field_fn,
    resolver_type_spec, resolver_variant_fn, struct_field_fn, variant_struct_fn,
    variant_structs_spec,
};
use crate::resolve::{
    arm_tail, binding_list_fn, field_write_fn, member_binding_fn, resolve_arm_fn,
    resolve_arms_spec, resolve_member,
};
use crate::eq::{bound_field_fn, bound_variant_fn, eq_arm_fn, eq_check_fn, partial_eq_spec};
use crate::ord::partial_ord_spec;
use crate::runs::{contains_run, lemma_rep_congruent, lemma_rep_run, lemma_run_add, lemma_run_self};
use crate::derive::{
    archived_tag_enum, before_compares, compares_fold, impl_enum_spec, tag_fn, MAX_VARIANTS,
};

verus! {

/// An error that names a field whose archived type, resolver type or
/// resolve function is unknown.
pub open spec fn is_field_error(e: DeriveError) -> bool {
    ||| e is ArchivedType
    ||| e is ResolverType
    ||| e is ResolveFn
}

/// Whether a `compare` argument names one of the supported traits.
pub open spec fn recognized(c: crate::model::Path) -> bool {
    is_ident_spec(c, "PartialEq"@) || is_ident_spec(c, "PartialOrd"@)
}

proof fn lemma_rep_res_err_field<A, T>(s: Seq<A>, f: spec_fn(int, A) -> Result<Seq<T>, DeriveError>)
    requires
        forall|i: int|
            0 <= i < s.len() && (#[trigger] f(i, s[i])) is Err ==> is_field_error(f(i, s[i])->Err_0),
    ensures
        rep_res(s, f) is Err ==> is_field_error(rep_res(s, f)->Err_0),
    decreases s.len(),
{
    if s.len() > 0 {
        let t = s.drop_last();
        assert forall|i: int| 0 <= i < t.len() && (#[trigger] f(i, t[i])) is Err implies is_field_error(
            f(i, t[i])->Err_0,
        ) by {
            assert(t[i] == s[i]);
        }
        lemma_rep_res_err_field(t, f);
    }
}

proof fn lemma_fields_err<T>(v: Variant, f: spec_fn(int, Field) -> Result<Seq<T>, DeriveError>)
    requires
        forall|k: int, fld: Field| (#[trigger] f(k, fld)) is Err ==> is_field_error(f(k, fld)->Err_0),
    ensures
        rep_res(fields_seq(v.fields), f) is Err ==> is_field_error(rep_res(fields_seq(v.fields), f)->Err_0),
{
    lemma_rep_res_err_field(fields_seq(v.fields), f);
}

proof fn lemma_generators_err(p: Printing, g: Generics, d: DataEnum)
    ensures
        archived_type_spec(p, g, d) is Err ==> is_field_error(archived_type_spec(p, g, d)->Err_0),
        resolver_type_spec(p, g, d) is Err ==> is_field_error(resolver_type_spec(p, g, d)->Err_0),
        variant_structs_spec(p, g, d) is Err ==> is_field_error(variant_structs_spec(p, g, d)->Err_0),
        resolve_arms_spec(p, g, d) is Err ==> is_field_error(resolve_arms_spec(p, g, d)->Err_0),
        partial_eq_spec(p, g, d) is Err ==> is_field_error(partial_eq_spec(p, g, d)->Err_0),
        partial_ord_spec(p, g, d) is Err ==> is_field_error(partial_ord_spec(p, g, d)->Err_0),
{
    let vs = d.variants@;
    assert forall|i: int| 0 <= i < vs.len() && (#[trigger] (archived_variant_fn())(i, vs[i])) is Err implies is_field_error(
        (archived_variant_fn())(i, vs[i])->Err_0,
    ) by {
        lemma_fields_err(vs[i], archived_field_fn(i));
    }
    lemma_rep_res_err_field(vs, archived_variant_fn());
    assert forall|i: int| 0 <= i < vs.len() && (#[trigger] (resolver_variant_fn())(i, vs[i])) is Err implies is_field_error(
        (resolver_variant_fn())(i, vs[i])->Err_0,
    ) by {
        lemma_fields_err(vs[i], resolver_field_fn(i));
    }
    lemma_rep_res_err_field(vs, resolver_variant_fn());
    assert forall|i: int| 0 <= i < vs.len() && (#[trigger] (variant_struct_fn(p, g))(i, vs[i])) is Err implies is_field_error(
        (variant_struct_fn(p, g))(i, vs[i])->Err_0,
    ) by {
        lemma_fields_err(vs[i], struct_field_fn(i));
    }
    lemma_rep_res_err_field(vs, variant_struct_fn(p, g));
    assert forall|i: int| 0 <= i < vs.len() && (#[trigger] (resolve_arm_fn(p, g))(i, vs[i])) is Err implies is_field_error(
        (resolve_arm_fn(p, g))(i, vs[i])->Err_0,
    ) by {
        lemma_fields_err(vs[i], field_write_fn(p, i));
    }
    lemma_rep_res_err_field(vs, resolve_arm_fn(p, g));
    assert forall|i: int| 0 <= i < vs.len() && (#[trigger] (bound_variant_fn(": PartialEq<"@))(i, vs[i])) is Err implies is_field_error(
        (bound_variant_fn(": PartialEq<"@))(i, vs[i])->Err_0,
    ) by {
        lemma_fields_err(vs[i], bound_field_fn(i, ": PartialEq<"@));
    }
    lemma_rep_res_err_field(vs, bound_variant_fn(": PartialEq<"@));
    assert forall|i: int| 0 <= i < vs.len() && (#[trigger] (bound_variant_fn(": PartialOrd<"@))(i, vs[i])) is Err implies is_field_error(
        (bound_variant_fn(": PartialOrd<"@))(i, vs[i])->Err_0,
    ) by {
        lemma_fields_err(vs[i], bound_field_fn(i, ": PartialOrd<"@));
    }
    lemma_rep_res_err_field(vs, bound_variant_fn(": PartialOrd<"@));
}

proof fn lemma_fold_outcome(
    p: Printing,
    g: Generics,
    d: DataEnum,
    cs: Seq<crate::model::Path>,
    pu: Seq<PieceView>,
    pr: Seq<PieceView>,
)
    requires
        cs.len() <= usize::MAX,
    ensures
        compares_fold(p, g, d, cs, pu, pr) is Ok ==> forall|j: int| 0 <= j < cs.len() ==> recognized(#[trigger] cs[j]),
        compares_fold(p, g, d, cs, pu, pr) is Err ==> {
            let e = compares_fold(p, g, d, cs, pu, pr)->Err_0;
            ||| is_field_error(e)
            ||| e matches DeriveError::UnrecognizedCompare { index } && index < cs.len() && !recognized(cs[index as int])
                && forall|j: int| 0 <= j < index ==> recognized(#[trigger] cs[j])
        },
    decreases cs.len(),
{
    if cs.len() > 0 {
        let t = cs.drop_last();
        lemma_fold_outcome(p, g, d, t, pu, pr);
        lemma_generators_err(p, g, d);
        assert forall|j: int| 0 <= j < t.len() implies t[j] == cs[j] by {}
        match compares_fold(p, g, d, t, pu, pr) {
            Err(e) => {},
            Ok((a, b)) => {
                let c = cs.last();
                if !recognized(c) {
                    let e = compares_fold(p, g, d, cs, pu, pr)->Err_0;
                    assert(e == DeriveError::UnrecognizedCompare { index: (cs.len() - 1) as usize });
                    assert(((cs.len() - 1) as usize) as int == cs.len() - 1);
                }
            },
        }
    }
}

/// More than 256 variants is reported as such, and nothing else is: every
/// other failure names a field or a `compare` argument.
pub proof fn law_too_many_variants(p: Printing, g: Generics, a: Attributes, d: DataEnum)
    ensures
        impl_enum_spec(p, g, a, d) == Err::<Seq<PieceView>, DeriveError>(DeriveError::TooManyVariants)
            <==> d.variants@.len() > MAX_VARIANTS,
{
    lemma_generators_err(p, g, d);
    match a.compares {
        Some(cs) => {
            match before_compares(p, g, a, d) {
                Ok((pu, pr, ra)) => {
                    assert(cs.len() == cs@.len());
                    lemma_fold_outcome(p, g, d, cs@, pu, pr);
                },
                Err(_) => {},
            }
        },
        None => {},
    }
}

/// A `compare` argument is refused exactly when it is the first one that is
/// neither `PartialEq` nor `PartialOrd`, and the error gives its position.
pub proof fn law_unrecognized_compare(p: Printing, g: Generics, a: Attributes, d: DataEnum, index: usize)
    requires
        impl_enum_spec(p, g, a, d) == Err::<Seq<PieceView>, DeriveError>(
            DeriveError::UnrecognizedCompare { index },
        ),
    ensures
        a.compares is Some,
        index < a.compares->Some_0@.len(),
        !recognized(a.compares->Some_0@[index as int]),
        forall|j: int| 0 <= j < index ==> recognized(#[trigger] a.compares->Some_0@[j]),
{
    lemma_generators_err(p, g, d);
    match a.compares {
        Some(cs) => {
            match before_compares(p, g, a, d) {
                Ok((pu, pr, ra)) => {
                    assert(cs.len() == cs@.len());
                    lemma_fold_outcome(p, g, d, cs@, pu, pr);
                },
                Err(_) => {},
            }
        },
        None => {},
    }
}

/// In the resolve code a field without a name is addressed by its position
/// plus one: never position 0, which holds the tag, and distinct fields get
/// distinct positions.
pub proof fn law_tuple_fields_skip_tag(k: int, j: int, f: Field, h: Field)
    requires
        0 <= k,
        0 <= j,
        f.ident is None,
        h.ident is None,
    ensures
        resolve_member(k, f) != decimal(0),
        resolve_member(k, f) == resolve_member(j, h) ==> k == j,
{
    if resolve_member(k, f) == decimal(0) {
        lemma_decimal_injective((k + 1) as nat, 0);
    }
    if resolve_member(k, f) == resolve_member(j, h) {
        lemma_decimal_injective((k + 1) as nat, (j + 1) as nat);
    }
}

/// A unit variant has no layout struct.
pub proof fn law_unit_variant_has_no_layout(p: Printing, g: Generics, vi: int, v: Variant)
    requires
        v.fields is Unit,
    ensures
        (variant_struct_fn(p, g))(vi, v) == Ok::<Seq<PieceView>, DeriveError>(Seq::empty()),
{
}

/// With an `as` type, no archived enum is generated: the public items begin
/// with the resolver enum.
pub proof fn law_as_type_skips_archived_enum(p: Printing, g: Generics, a: Attributes, d: DataEnum)
    requires
        a.as_type is Some,
        before_compares(p, g, a, d) is Ok,
    ensures
        resolver_type_spec(p, g, d) is Ok,
        before_compares(p, g, a, d)->Ok_0.0 =~= resolver_type_spec(p, g, d)->Ok_0,
{
}

proof fn lemma_contains_add<T>(s: Seq<T>, t: Seq<T>, x: T)
    ensures
        (s.contains(x) || t.contains(x)) ==> (s + t).contains(x),
{
    if s.contains(x) {
        let i = choose|i: int| 0 <= i < s.len() && s[i] == x;
        assert((s + t)[i] == x);
    } else if t.contains(x) {
        let i = choose|i: int| 0 <= i < t.len() && t[i] == x;
        assert((s + t)[s.len() + i] == x);
    }
}

proof fn lemma_rep_res_part<A>(
    s: Seq<A>,
    f: spec_fn(int, A) -> Result<Seq<PieceView>, DeriveError>,
    i: int,
    x: PieceView,
)
    requires
        0 <= i < s.len(),
        rep_res(s, f) is Ok,
    ensures
        f(i, s[i]) is Ok,
        f(i, s[i])->Ok_0.contains(x) ==> rep_res(s, f)->Ok_0.contains(x),
    decreases s.len(),
{
    let t = s.drop_last();
    if i == s.len() - 1 {
        lemma_contains_add(rep_res(t, f)->Ok_0, f(i, s[i])->Ok_0, x);
    } else {
        assert(t[i] == s[i]);
        lemma_rep_res_part(t, f, i, x);
        lemma_contains_add(rep_res(t, f)->Ok_0, f(s.len() - 1, s.last())->Ok_0, x);
    }
}

/// The layout struct that the `resolve` arm of a variant with fields casts
/// its output to is declared, under the same name, among the layout structs.
pub proof fn law_resolve_uses_declared_layout(p: Printing, g: Generics, d: DataEnum, vi: int)
    requires
        0 <= vi < d.variants@.len(),
        !(d.variants@[vi].fields is Unit),
        variant_structs_spec(p, g, d) is Ok,
        resolve_arms_spec(p, g, d) is Ok,
    ensures
        variant_structs_spec(p, g, d)->Ok_0.contains(
            PieceView::Code(archived_variant_name(d.variants@[vi].ident@)),
        ),
        resolve_arms_spec(p, g, d)->Ok_0.contains(
            PieceView::Code(archived_variant_name(d.variants@[vi].ident@)),
        ),
{
    broadcast use lemma_contains_add_b;

    let v = d.variants@[vi];
    let x = PieceView::Code(archived_variant_name(v.ident@));
    assert(crate::tokens::code(archived_variant_name(v.ident@))[0] == x);
    lemma_rep_res_part(d.variants@, variant_struct_fn(p, g), vi, x);
    lemma_rep_res_part(d.variants@, resolve_arm_fn(p, g), vi, x);
}

broadcast proof fn lemma_contains_add_b<T>(s: Seq<T>, t: Seq<T>, x: T)
    ensures
        (s.contains(x) || t.contains(x)) ==> #[trigger] (s + t).contains(x),
{
    lemma_contains_add(s, t, x);
}

proof fn lemma_rep_res_all_ok<A, T>(
    s: Seq<A>,
    f: spec_fn(int, A) -> Result<Seq<T>, DeriveError>,
    h: spec_fn(int, A) -> Seq<T>,
)
    requires
        forall|i: int| 0 <= i < s.len() ==> #[trigger] f(i, s[i]) == Ok::<Seq<T>, DeriveError>(h(i, s[i])),
    ensures
        rep_res(s, f) == Ok::<Seq<T>, DeriveError>(rep(s, h)),
    decreases s.len(),
{
    if s.len() > 0 {
        let t = s.drop_last();
        assert forall|i: int| 0 <= i < t.len() implies #[trigger] f(i, t[i]) == Ok::<Seq<T>, DeriveError>(
            h(i, t[i]),
        ) by {
            assert(t[i] == s[i]);
        }
        lemma_rep_res_all_ok(t, f, h);
    }
}

proof fn lemma_rep_res_each_ok<A, T>(s: Seq<A>, f: spec_fn(int, A) -> Result<Seq<T>, DeriveError>, i: int)
    requires
        0 <= i < s.len(),
        rep_res(s, f) is Ok,
    ensures
        f(i, s[i]) is Ok,
    decreases s.len(),
{
    let t = s.drop_last();
    if i < s.len() - 1 {
        assert(t[i] == s[i]);
        lemma_rep_res_each_ok(t, f, i);
    }
}

/// The fields of a variant are written as its kind declares them: named
/// fields with a name and a colon, tuple fields with neither.
pub open spec fn fields_match_kind(v: Variant) -> bool {
    match v.fields {
        Fields::Named(fs) => forall|k: int|
            0 <= k < fs@.len() ==> (#[trigger] fs@[k]).ident is Some && fs@[k].colon_token,
        Fields::Unnamed(fs) => forall|k: int|
            0 <= k < fs@.len() ==> (#[trigger] fs@[k]).ident is None && !fs@[k].colon_token,
        Fields::Unit => true,
    }
}

/// The members of a variant's layout struct, in declaration order: the
/// tag's first, then one per field. A struct with named fields names them
/// (`__tag`, then each field's name); a tuple struct numbers them (`0` for
/// the tag, `k + 1` for field `k`).
pub open spec fn layout_members(v: Variant) -> Seq<Seq<char>> {
    match v.fields {
        Fields::Named(fs) => seq!["__tag"@] + Seq::new(fs@.len(), |k: int| (fs@[k].ident->Some_0)@),
        Fields::Unnamed(fs) => Seq::new(fs@.len() + 1, |j: int| decimal(j as nat)),
        Fields::Unit => Seq::empty(),
    }
}

/// A layout struct has one member more than its variant has fields: the tag
/// is `__tag` or position `0`, and field `k` is the field's own name or
/// position `k + 1`.
pub proof fn law_layout_members(v: Variant)
    requires
        fields_match_kind(v),
        !(v.fields is Unit),
    ensures
        layout_members(v).len() == fields_seq(v.fields).len() + 1,
        v.fields is Named ==> layout_members(v)[0] == "__tag"@,
        v.fields is Unnamed ==> layout_members(v)[0] == decimal(0),
        forall|k: int|
            0 <= k < fields_seq(v.fields).len() ==> #[trigger] layout_members(v)[k + 1] == match fields_seq(
                v.fields,
            )[k].ident {
                Some(id) => id@,
                None => decimal((k + 1) as nat),
            },
{
    match v.fields {
        Fields::Named(fs) => {
            assert(layout_members(v)[0] == "__tag"@);
            assert forall|k: int| 0 <= k < fs@.len() implies #[trigger] layout_members(v)[k + 1] == (
            fs@[k].ident->Some_0)@ by {
                assert(fs@[k].ident is Some);
            }
        },
        _ => {},
    }
}

/// The declaration of field `k` in a struct with named fields: the member
/// `ms[k + 1]` with the field's archived type.
pub open spec fn named_decl_fn(ms: Seq<Seq<char>>) -> spec_fn(int, Field) -> Seq<PieceView> {
    |k: int, f: Field| code(ms[k + 1]) + code(":"@) + (f.archived->Some_0)@ + code(","@)
}

/// The declaration of field `k` in a tuple struct: the field's archived
/// type, as element `k + 1` after the tag.
pub open spec fn tuple_decl_fn() -> spec_fn(int, Field) -> Seq<PieceView> {
    |k: int, f: Field| (f.archived->Some_0)@ + code(","@)
}

/// The layout struct of a variant, written over its name and members.
pub open spec fn layout_decl_fn(p: Printing, g: Generics) -> spec_fn(int, Variant) -> Seq<PieceView> {
    |vi: int, v: Variant|
        match v.fields {
            Fields::Named(fs) => code("#[repr(C)] struct"@) + code(archived_variant_name(v.ident@))
                + g.params@ + where_tokens(g.where_clause) + code("{"@) + code(layout_members(v)[0])
                + code(": ArchivedTag,"@) + rep(fs@, named_decl_fn(layout_members(v))) + code(
                "__phantom: ::core::marker::PhantomData<"@,
            ) + code(p.name@) + g.ty_generics@ + code(">, }"@),
            Fields::Unnamed(fs) => code("#[repr(C)] struct"@) + code(archived_variant_name(v.ident@))
                + g.params@ + code("( ArchivedTag,"@) + rep(fs@, tuple_decl_fn()) + code(
                "::core::marker::PhantomData<"@,
            ) + code(p.name@) + g.ty_generics@ + code(">, )"@) + where_tokens(g.where_clause)
                + code(";"@),
            Fields::Unit => Seq::empty(),
        }
}

/// Resolving field `k` into the member `ms[k + 1]` of the layout struct.
pub open spec fn layout_write_fn(p: Printing, ms: Seq<Seq<char>>) -> spec_fn(int, Field) -> Seq<PieceView> {
    |k: int, f: Field|
        code("let field_ptr = unsafe { ::core::ptr::addr_of_mut!((*out.ptr())."@) + code(ms[k + 1])
            + code(") }; let out_field = unsafe {"@) + p.rkyv_path@ + code(
            "::Place::from_field_unchecked(out, field_ptr,) };"@,
        ) + (f.resolve->Some_0)@ + code("("@) + code(binding("self_"@, k as nat)) + code(","@)
            + code(binding("resolver_"@, k as nat)) + code(", out_field,);"@)
}

/// The `resolve` arm of a variant, written over the name and members of its
/// layout struct: the cast to the struct, the tag written to its first
/// member, each field resolved into its own member; a unit variant's arm
/// writes only the tag.
pub open spec fn layout_arm_fn(p: Printing, g: Generics) -> spec_fn(int, Variant) -> Seq<PieceView> {
    |vi: int, v: Variant|
        match v.fields {
            Fields::Named(fs) => code(p.resolver_name@) + code("::"@) + code(v.ident@) + code("{"@)
                + rep(fs@, member_binding_fn("resolver_"@)) + code("} => { match self {"@) + code(
                p.name@,
            ) + code("::"@) + code(v.ident@) + code("{"@) + rep(fs@, member_binding_fn("self_"@))
                + code("} => { let out = unsafe { out.cast_unchecked::<"@) + code(
                archived_variant_name(v.ident@),
            ) + g.ty_generics@ + code(
                ">() }; let tag_ptr = unsafe { ::core::ptr::addr_of_mut!((*out.ptr())."@,
            ) + code(layout_members(v)[0]) + code(") }; unsafe { tag_ptr.write(ArchivedTag::"@)
                + code(v.ident@) + code("); }"@) + rep(fs@, layout_write_fn(p, layout_members(v)))
                + arm_tail(),
            Fields::Unnamed(fs) => code(p.resolver_name@) + code("::"@) + code(v.ident@) + code("("@)
                + rep(fs@, binding_list_fn("resolver_"@)) + code(") => { match self {"@) + code(
                p.name@,
            ) + code("::"@) + code(v.ident@) + code("("@) + rep(fs@, binding_list_fn("self_"@))
                + code(") => { let out = unsafe { out.cast_unchecked::<"@) + code(
                archived_variant_name(v.ident@),
            ) + g.ty_generics@ + code(
                ">() }; let tag_ptr = unsafe { ::core::ptr::addr_of_mut!((*out.ptr())."@,
            ) + code(layout_members(v)[0]) + code(") }; unsafe { tag_ptr.write(ArchivedTag::"@)
                + code(v.ident@) + code("); }"@) + rep(fs@, layout_write_fn(p, layout_members(v)))
                + arm_tail(),
            Fields::Unit => code(p.resolver_name@) + code("::"@) + code(v.ident@) + code(
                "=> { let out = unsafe { out.cast_unchecked::<ArchivedTag>() }; unsafe { out.write_unchecked(ArchivedTag::"@,
            ) + code(v.ident@) + code("); } }"@),
        }
}

proof fn lemma_layout_decl_variant(p: Printing, g: Generics, vi: int, v: Variant)
    requires
        fields_match_kind(v),
        (variant_struct_fn(p, g))(vi, v) is Ok,
    ensures
        (variant_struct_fn(p, g))(vi, v) == Ok::<Seq<PieceView>, DeriveError>((layout_decl_fn(p, g))(vi, v)),
{
    let ms = layout_members(v);
    match v.fields {
        Fields::Named(fs) => {
            let f = struct_field_fn(vi);
            assert forall|k: int| 0 <= k < fs@.len() implies #[trigger] f(k, fs@[k]) == Ok::<
                Seq<PieceView>,
                DeriveError,
            >((named_decl_fn(ms))(k, fs@[k])) by {
                lemma_rep_res_each_ok(fs@, f, k);
                assert(ms[k + 1] == (fs@[k].ident->Some_0)@);
            }
            lemma_rep_res_all_ok(fs@, f, named_decl_fn(ms));
            assert(ms[0] == "__tag"@);
        },
        Fields::Unnamed(fs) => {
            let f = struct_field_fn(vi);
            assert forall|k: int| 0 <= k < fs@.len() implies #[trigger] f(k, fs@[k]) == Ok::<
                Seq<PieceView>,
                DeriveError,
            >((tuple_decl_fn())(k, fs@[k])) by {
                lemma_rep_res_each_ok(fs@, f, k);
                let t = (fs@[k].archived->Some_0)@;
                assert(Seq::<PieceView>::empty() + Seq::<PieceView>::empty() + t + code(","@) =~= t
                    + code(","@));
            }
            lemma_rep_res_all_ok(fs@, f, tuple_decl_fn());
        },
        Fields::Unit => {},
    }
}

proof fn lemma_layout_arm_variant(p: Printing, g: Generics, vi: int, v: Variant)
    requires
        fields_match_kind(v),
        (resolve_arm_fn(p, g))(vi, v) is Ok,
    ensures
        (resolve_arm_fn(p, g))(vi, v) == Ok::<Seq<PieceView>, DeriveError>((layout_arm_fn(p, g))(vi, v)),
{
    let ms = layout_members(v);
    let f = field_write_fn(p, vi);
    match v.fields {
        Fields::Named(fs) => {
            assert forall|k: int| 0 <= k < fs@.len() implies #[trigger] f(k, fs@[k]) == Ok::<
                Seq<PieceView>,
                DeriveError,
            >((layout_write_fn(p, ms))(k, fs@[k])) by {
                lemma_rep_res_each_ok(fs@, f, k);
                assert(ms[k + 1] == (fs@[k].ident->Some_0)@);
            }
            lemma_rep_res_all_ok(fs@, f, layout_write_fn(p, ms));
            assert(ms[0] == "__tag"@);
        },
        Fields::Unnamed(fs) => {
            assert forall|k: int| 0 <= k < fs@.len() implies #[trigger] f(k, fs@[k]) == Ok::<
                Seq<PieceView>,
                DeriveError,
            >((layout_write_fn(p, ms))(k, fs@[k])) by {
                lemma_rep_res_each_ok(fs@, f, k);
                assert(ms[k + 1] == decimal((k + 1) as nat));
            }
            lemma_rep_res_all_ok(fs@, f, layout_write_fn(p, ms));
            assert(ms[0] == decimal(0));
        },
        Fields::Unit => {},
    }
}

/// Each `resolve` arm writes into exactly the layout struct declared for its
/// variant: the layout structs are the declarations over each variant's
/// struct name and members, and the arms cast to that same name, write the
/// tag to the first of those members and resolve field `k` into member
/// `k + 1`; a unit variant has no struct and its arm writes only the tag.
pub proof fn law_resolve_writes_declared_layout(p: Printing, g: Generics, d: DataEnum)
    requires
        forall|i: int| 0 <= i < d.variants@.len() ==> fields_match_kind(#[trigger] d.variants@[i]),
        variant_structs_spec(p, g, d) is Ok,
        resolve_arms_spec(p, g, d) is Ok,
    ensures
        variant_structs_spec(p, g, d) == Ok::<Seq<PieceView>, DeriveError>(
            rep(d.variants@, layout_decl_fn(p, g)),
        ),
        resolve_arms_spec(p, g, d) == Ok::<Seq<PieceView>, DeriveError>(
            rep(d.variants@, layout_arm_fn(p, g)),
        ),
{
    let vs = d.variants@;
    assert forall|i: int| 0 <= i < vs.len() implies #[trigger] (variant_struct_fn(p, g))(i, vs[i])
        == Ok::<Seq<PieceView>, DeriveError>((layout_decl_fn(p, g))(i, vs[i])) by {
        lemma_rep_res_each_ok(vs, variant_struct_fn(p, g), i);
        lemma_layout_decl_variant(p, g, i, vs[i]);
    }
    lemma_rep_res_all_ok(vs, variant_struct_fn(p, g), layout_decl_fn(p, g));
    assert forall|i: int| 0 <= i < vs.len() implies #[trigger] (resolve_arm_fn(p, g))(i, vs[i])
        == Ok::<Seq<PieceView>, DeriveError>((layout_arm_fn(p, g))(i, vs[i])) by {
        lemma_rep_res_each_ok(vs, resolve_arm_fn(p, g), i);
        lemma_layout_arm_variant(p, g, i, vs[i]);
    }
    lemma_rep_res_all_ok(vs, resolve_arm_fn(p, g), layout_arm_fn(p, g));
}

/// What follows a variant's name in the archived enum: its fields in the
/// variant's own delimiters, nothing for a unit variant.
pub open spec fn variant_fields_part(v: Variant, fs: Seq<PieceView>) -> Seq<PieceView> {
    match v.fields {
        Fields::Named(_) => code("{"@) + fs + code("}"@),
        Fields::Unnamed(_) => code("("@) + fs + code(")"@),
        Fields::Unit => Seq::empty(),
    }
}

/// Entry `vi` of the archived enum: attributes, the variant's name, its
/// fields, and the variant's discriminant.
pub open spec fn archived_entry_fn() -> spec_fn(int, Variant) -> Seq<PieceView> {
    |vi: int, v: Variant|
        variant_attrs(v.archived_doc@) + code(v.ident@) + variant_fields_part(
            v,
            rep_res(fields_seq(v.fields), archived_field_fn(vi))->Ok_0,
        ) + discriminant_tokens(v.discriminant) + code(","@)
}

/// The attributes and visibility of the archived enum.
pub open spec fn archived_head(p: Printing, g: Generics) -> Seq<PieceView> {
    code("#[automatically_derived] #[doc ="@) + str_lit(p.archived_doc@) + code("]"@) + attr_list(
        p.archived_metas@,
    ) + code("#[repr(u8)]"@) + p.vis@
}

/// The tag enum and the archived enum list the same variants in the same
/// order: entry `i` of each is variant `i`'s name, and after it (past the
/// fields, in the archived enum) variant `i`'s discriminant.
pub proof fn law_tag_enum_matches_archived_enum(p: Printing, g: Generics, d: DataEnum)
    requires
        archived_type_spec(p, g, d) is Ok,
    ensures
        archived_type_spec(p, g, d) == Ok::<Seq<PieceView>, DeriveError>(
            archived_head(p, g) + (code("enum"@) + code(p.archived_name@) + g.params@ + where_tokens(
                g.where_clause,
            ) + code("{"@)) + rep(d.variants@, archived_entry_fn()) + code("}"@),
        ),
        archived_tag_enum(d) == code(
            "#[derive(PartialEq, PartialOrd)] #[repr(u8)] enum ArchivedTag {"@,
        ) + rep(d.variants@, tag_fn()) + code("}"@),
        forall|vi: int, v: Variant| #[trigger] (tag_fn())(vi, v) == code(v.ident@) + discriminant_tokens(v.discriminant) + code(","@),
{
    let vs = d.variants@;
    let f = archived_variant_fn();
    assert forall|i: int| 0 <= i < vs.len() implies #[trigger] f(i, vs[i]) == Ok::<
        Seq<PieceView>,
        DeriveError,
    >((archived_entry_fn())(i, vs[i])) by {
        lemma_rep_res_each_ok(vs, f, i);
        let v = vs[i];
        let fs = rep_res(fields_seq(v.fields), archived_field_fn(i))->Ok_0;
        let a = variant_attrs(v.archived_doc@);
        let c = code(v.ident@);
        let x = discriminant_tokens(v.discriminant);
        match v.fields {
            Fields::Named(_) => {
                assert(a + (c + code("{"@) + fs + code("}"@)) + x + code(","@) =~= a + c + (code("{"@)
                    + fs + code("}"@)) + x + code(","@));
            },
            Fields::Unnamed(_) => {
                assert(a + (c + code("("@) + fs + code(")"@)) + x + code(","@) =~= a + c + (code("("@)
                    + fs + code(")"@)) + x + code(","@));
            },
            Fields::Unit => {
                assert(a + c + x + code(","@) =~= a + c + Seq::<PieceView>::empty() + x + code(","@));
            },
        }
    }
    lemma_rep_res_all_ok(vs, f, archived_entry_fn());
}

/// The test of one field in an equality arm: the archived value's field
/// `k` (`other_k`) compared with the enum value's (`self_k`).
pub open spec fn field_eq_test(k: int) -> Seq<PieceView> {
    code("&&"@) + code(binding("other_"@, k as nat)) + code(".eq("@) + code(binding("self_"@, k as nat))
        + code(")"@)
}

/// Equality compares every field: for each variant with fields, named or
/// tuple, the generated impl holds `true` followed by the test of each
/// field, in order.
pub proof fn law_partial_eq_compares_every_field(p: Printing, g: Generics, d: DataEnum)
    requires
        partial_eq_spec(p, g, d) is Ok,
    ensures
        forall|i: int|
            0 <= i < d.variants@.len() && !(d.variants@[i].fields is Unit) ==> contains_run(
                partial_eq_spec(p, g, d)->Ok_0,
                code("true"@) + rep(
                    fields_seq(#[trigger] d.variants@[i].fields),
                    |k: int, f: Field| field_eq_test(k),
                ),
            ),
{
    broadcast use lemma_run_add;

    let vs = d.variants@;
    assert forall|i: int| 0 <= i < vs.len() && !(vs[i].fields is Unit) implies contains_run(
        rep(vs, eq_arm_fn(p)),
        code("true"@) + rep(fields_seq(#[trigger] vs[i].fields), |k: int, f: Field| field_eq_test(k)),
    ) by {
        let v = vs[i];
        let fs = fields_seq(v.fields);
        let lit = |k: int, f: Field| field_eq_test(k);
        lemma_rep_congruent(fs, eq_check_fn(), lit);
        let r = code("true"@) + rep(fs, lit);
        lemma_run_self(r);
        assert(contains_run((eq_arm_fn(p))(i, v), r));
        lemma_rep_run(vs, eq_arm_fn(p), i, r);
    }
}

/// The archived enum and the resolver enum are declared with the enum's
/// generic parameters right after their names, then its `where` clause.
pub proof fn law_enums_declared_with_generics(p: Printing, g: Generics, d: DataEnum)
    ensures
        archived_type_spec(p, g, d) is Ok ==> contains_run(
            archived_type_spec(p, g, d)->Ok_0,
            code("enum"@) + code(p.archived_name@) + g.params@ + where_tokens(g.where_clause) + code(
                "{"@,
            ),
        ),
        resolver_type_spec(p, g, d) is Ok ==> contains_run(
            resolver_type_spec(p, g, d)->Ok_0,
            code("enum"@) + code(p.resolver_name@) + g.params@ + where_tokens(g.where_clause) + code(
                "{"@,
            ),
        ),
{
    broadcast use lemma_run_add;

    lemma_run_self(
        code("enum"@) + code(p.archived_name@) + g.params@ + where_tokens(g.where_clause) + code("{"@),
    );
    lemma_run_self(
        code("enum"@) + code(p.resolver_name@) + g.params@ + where_tokens(g.where_clause) + code("{"@),
    );
}

/// The `Archive` impl is for the enum with its type arguments under its
/// generics and `where` clause; its `Archived` type is the archived type and
/// its `Resolver` type is the resolver enum with the enum's type arguments.
pub proof fn law_archive_impl_types(p: Printing, g: Generics, a: Attributes, d: DataEnum)
    requires
        impl_enum_spec(p, g, a, d) is Ok,
    ensures
        contains_run(
            impl_enum_spec(p, g, a, d)->Ok_0,
            code("impl"@) + g.impl_generics@ + code("Archive for"@) + code(p.name@) + g.ty_generics@
                + where_tokens(g.where_clause),
        ),
        contains_run(
            impl_enum_spec(p, g, a, d)->Ok_0,
            code("type Archived ="@) + p.archived_type@ + code(";"@),
        ),
        contains_run(
            impl_enum_spec(p, g, a, d)->Ok_0,
            code("type Resolver ="@) + code(p.resolver_name@) + g.ty_generics@ + code(";"@),
        ),
{
    broadcast use lemma_run_add;

    lemma_run_self(
        code("impl"@) + g.impl_generics@ + code("Archive for"@) + code(p.name@) + g.ty_generics@
            + where_tokens(g.where_clause),
    );
    lemma_run_self(code("type Archived ="@) + p.archived_type@ + code(";"@));
    lemma_run_self(code("type Resolver ="@) + code(p.resolver_name@) + g.ty_generics@ + code(";"@));
}

/// The total length of the forwarded attributes: each attribute's own
/// length plus its `#[` and `]`.
pub open spec fn attrs_len(ms: Seq<Tokens>) -> int
    decreases ms.len(),
{
    if ms.len() == 0 {
        0
    } else {
        attrs_len(ms.drop_last()) + ms.last()@.len() + 2
    }
}

/// Every attribute given is forwarded, in order: the forwarded attributes
/// hold `#[m]` for each `m`, and nothing more.
pub proof fn law_attr_list_forwards_each(ms: Seq<Tokens>)
    ensures
        attr_list(ms).len() == attrs_len(ms),
        forall|i: int| 0 <= i < ms.len() ==> contains_run(attr_list(ms), code("#["@) + (#[trigger] ms[i])@ + code("]"@)),
    decreases ms.len(),
{
    if ms.len() > 0 {
        law_attr_list_forwards_each(ms.drop_last());
    }
    assert forall|i: int| 0 <= i < ms.len() implies contains_run(attr_list(ms), code("#["@) + (#[trigger] ms[i])@ + code("]"@)) by {
        lemma_run_self(code("#["@) + ms[i]@ + code("]"@));
        lemma_rep_run(ms, attr_fn(), i, code("#["@) + ms[i]@ + code("]"@));
    }
}

/// The archived enum carries every attribute given for it.
pub proof fn law_archived_enum_forwards_attributes(p: Printing, g: Generics, d: DataEnum)
    requires
        archived_type_spec(p, g, d) is Ok,
    ensures
        forall|i: int| 0 <= i < p.archived_metas@.len() ==> contains_run(
            archived_type_spec(p, g, d)->Ok_0,
            code("#["@) + (#[trigger] p.archived_metas@[i])@ + code("]"@),
        ),
{
    broadcast use lemma_run_add;

    law_attr_list_forwards_each(p.archived_metas@);
    assert forall|i: int| 0 <= i < p.archived_metas@.len() implies contains_run(
        archived_type_spec(p, g, d)->Ok_0,
        code("#["@) + (#[trigger] p.archived_metas@[i])@ + code("]"@),
    ) by {
        assert(contains_run(attr_list(p.archived_metas@), code("#["@) + p.archived_metas@[i]@ + code("]"@)));
    }
}

} // verus!
