//! The archived enum, the resolver enum and the per-variant layout structs.

use vstd::prelude::*;
use crate::tokens::{code, str_lit, PieceView, Tokens};
use crate::model::{
    attr_list, attr_tokens, discriminant_tokens, fields_seq, lemma_rep_res_err,
    lemma_rep_res_step, lemma_take_all, opt_colon, opt_ident, rep_res, rv, where_clause_tokens,
    where_tokens, DataEnum, DeriveError, Field, Fields, Generics, Printing, Variant,
};
use crate::text::{archived_variant_ident, archived_variant_name};

verus! {

/// An archived field: its forwarded attributes, visibility, name and archived type.
pub open spec fn archived_field_fn(vi: int) -> spec_fn(int, Field) -> Result<Seq<PieceView>, DeriveError> {
    |k: int, f: Field|
        match f.archived {
            Some(t) => Ok(
                attr_list(f.metas@) + f.vis@ + opt_ident(f.ident) + opt_colon(f.colon_token) + t@
                    + code(","@),
            ),
            None => Err(DeriveError::ArchivedType { variant: vi as usize, field: k as usize }),
        }
}

/// A resolver field: its name and resolver type.
pub open spec fn resolver_field_fn(vi: int) -> spec_fn(int, Field) -> Result<Seq<PieceView>, DeriveError> {
    |k: int, f: Field|
        match f.resolver {
            Some(t) => Ok(opt_ident(f.ident) + opt_colon(f.colon_token) + t@ + code(","@)),
            None => Err(DeriveError::ResolverType { variant: vi as usize, field: k as usize }),
        }
}

/// A field of a layout struct: its name and archived type.
pub open spec fn struct_field_fn(vi: int) -> spec_fn(int, Field) -> Result<Seq<PieceView>, DeriveError> {
    |k: int, f: Field|
        match f.archived {
            Some(t) => Ok(opt_ident(f.ident) + opt_colon(f.colon_token) + t@ + code(","@)),
            None => Err(DeriveError::ArchivedType { variant: vi as usize, field: k as usize }),
        }
}

/// The doc and lint attributes of a generated variant.
pub open spec fn variant_attrs(doc: Seq<char>) -> Seq<PieceView> {
    code("#[doc ="@) + str_lit(doc) + code("] #[allow(dead_code)]"@)
}

/// A variant's name followed by its fields in the variant's own delimiters.
pub open spec fn delimited(v: Variant, body: Seq<PieceView>) -> Seq<PieceView> {
    match v.fields {
        Fields::Named(_) => code(v.ident@) + code("{"@) + body + code("}"@),
        Fields::Unnamed(_) => code(v.ident@) + code("("@) + body + code(")"@),
        Fields::Unit => code(v.ident@),
    }
}

/// A variant of the archived enum.
pub open spec fn archived_variant_fn() -> spec_fn(int, Variant) -> Result<Seq<PieceView>, DeriveError> {
    |vi: int, v: Variant|
        match rep_res(fields_seq(v.fields), archived_field_fn(vi)) {
            Ok(fs) => Ok(
                variant_attrs(v.archived_doc@) + delimited(v, fs) + discriminant_tokens(
                    v.discriminant,
                ) + code(","@),
            ),
            Err(e) => Err(e),
        }
}

/// A variant of the resolver enum.
pub open spec fn resolver_variant_fn() -> spec_fn(int, Variant) -> Result<Seq<PieceView>, DeriveError> {
    |vi: int, v: Variant|
        match rep_res(fields_seq(v.fields), resolver_field_fn(vi)) {
            Ok(fs) => Ok(variant_attrs(v.resolver_doc@) + delimited(v, fs) + code(","@)),
            Err(e) => Err(e),
        }
}

/// The `#[repr(C)]` layout struct of a variant with fields: the tag, the
/// archived fields, and a marker for the enum's type; nothing for a unit variant.
pub open spec fn variant_struct_fn(p: Printing, g: Generics) -> spec_fn(int, Variant) -> Result<Seq<PieceView>, DeriveError> {
    |vi: int, v: Variant|
        match rep_res(fields_seq(v.fields), struct_field_fn(vi)) {
            Ok(fs) => Ok(
                match v.fields {
                    Fields::Named(_) => code("#[repr(C)] struct"@) + code(
                        archived_variant_name(v.ident@),
                    ) + g.params@ + where_tokens(g.where_clause) + code("{"@) + code("__tag"@) + code(
                        ": ArchivedTag,"@,
                    ) + fs + code("__phantom: ::core::marker::PhantomData<"@) + code(p.name@)
                        + g.ty_generics@ + code(">, }"@),
                    Fields::Unnamed(_) => code("#[repr(C)] struct"@) + code(
                        archived_variant_name(v.ident@),
                    ) + g.params@ + code("( ArchivedTag,"@) + fs + code(
                        "::core::marker::PhantomData<"@,
                    ) + code(p.name@) + g.ty_generics@ + code(">, )"@) + where_tokens(
                        g.where_clause,
                    ) + code(";"@),
                    Fields::Unit => Seq::empty(),
                },
            ),
            Err(e) => Err(e),
        }
}

/// The archived enum: `#[repr(u8)]`, one archived variant per variant, in order.
pub open spec fn archived_type_spec(p: Printing, g: Generics, d: DataEnum) -> Result<Seq<PieceView>, DeriveError> {
    match rep_res(d.variants@, archived_variant_fn()) {
        Ok(vs) => Ok(
            code("#[automatically_derived] #[doc ="@) + str_lit(p.archived_doc@) + code("]"@)
                + attr_list(p.archived_metas@) + code("#[repr(u8)]"@) + p.vis@ + (code("enum"@) + code(
                p.archived_name@,
            ) + g.params@ + where_tokens(g.where_clause) + code("{"@)) + vs + code("}"@),
        ),
        Err(e) => Err(e),
    }
}

/// The resolver enum: one resolver variant per variant, in order.
pub open spec fn resolver_type_spec(p: Printing, g: Generics, d: DataEnum) -> Result<Seq<PieceView>, DeriveError> {
    match rep_res(d.variants@, resolver_variant_fn()) {
        Ok(vs) => Ok(
            code("#[automatically_derived] #[doc ="@) + str_lit(p.resolver_doc@) + code("]"@) + p.vis@
                + (code("enum"@) + code(p.resolver_name@) + g.params@ + where_tokens(g.where_clause)
                + code("{"@)) + vs + code("}"@),
        ),
        Err(e) => Err(e),
    }
}

/// The layout structs of all variants with fields, in order.
pub open spec fn variant_structs_spec(p: Printing, g: Generics, d: DataEnum) -> Result<Seq<PieceView>, DeriveError> {
    rep_res(d.variants@, variant_struct_fn(p, g))
}

/// Which per-field piece a field loop builds.
enum FieldPart {
    Archived,
    Resolver,
    Struct,
}

spec fn part_fn(part: FieldPart, vi: int) -> spec_fn(int, Field) -> Result<Seq<PieceView>, DeriveError> {
    match part {
        FieldPart::Archived => archived_field_fn(vi),
        FieldPart::Resolver => resolver_field_fn(vi),
        FieldPart::Struct => struct_field_fn(vi),
    }
}

fn field_piece(part: &FieldPart, vi: usize, k: usize, f: &Field) -> (r: Result<Tokens, DeriveError>)
    ensures
        rv(r) == (part_fn(*part, vi as int))(k as int, *f),
{
    match part {
        FieldPart::Archived => {
            let mut t = attr_tokens(&f.metas);
            t.extend(&f.vis);
            t.push_opt_ident(&f.ident);
            t.push_opt_colon(f.colon_token);
            match &f.archived {
                Some(a) => {
                    t.extend(a);
                    t.push_code(",");
                    Ok(t)
                },
                None => Err(DeriveError::ArchivedType { variant: vi, field: k }),
            }
        },
        FieldPart::Resolver => {
            let mut t = Tokens::new();
            t.push_opt_ident(&f.ident);
            t.push_opt_colon(f.colon_token);
            match &f.resolver {
                Some(a) => {
                    t.extend(a);
                    t.push_code(",");
                    assert(t@ =~= opt_ident(f.ident) + opt_colon(f.colon_token) + a@ + code(","@));
                    Ok(t)
                },
                None => Err(DeriveError::ResolverType { variant: vi, field: k }),
            }
        },
        FieldPart::Struct => {
            let mut t = Tokens::new();
            t.push_opt_ident(&f.ident);
            t.push_opt_colon(f.colon_token);
            match &f.archived {
                Some(a) => {
                    t.extend(a);
                    t.push_code(",");
                    assert(t@ =~= opt_ident(f.ident) + opt_colon(f.colon_token) + a@ + code(","@));
                    Ok(t)
                },
                None => Err(DeriveError::ArchivedType { variant: vi, field: k }),
            }
        },
    }
}

fn field_pieces(part: &FieldPart, vi: usize, fields: &Fields) -> (r: Result<Tokens, DeriveError>)
    ensures
        rv(r) == rep_res(fields_seq(*fields), part_fn(*part, vi as int)),
{
    let fs = match fields {
        Fields::Named(fs) => fs,
        Fields::Unnamed(fs) => fs,
        Fields::Unit => {
            return Ok(Tokens::new());
        },
    };
    let ghost f = part_fn(*part, vi as int);
    let mut acc = Tokens::new();
    let n = fs.len();
    let mut i: usize = 0;
    while i < n
        invariant
            n == fs@.len(),
            fs@ == fields_seq(*fields),
            f == part_fn(*part, vi as int),
            i <= n,
            rep_res(fs@.take(i as int), f) == Ok::<Seq<PieceView>, DeriveError>(acc@),
        decreases n - i,
    {
        proof {
            lemma_rep_res_step(fs@, f, i as int);
        }
        match field_piece(part, vi, i, &fs[i]) {
            Ok(t) => {
                acc.append(t);
            },
            Err(e) => {
                proof {
                    lemma_rep_res_err(fs@, f, i as int + 1, n as int);
                    lemma_take_all(fs@);
                }
                return Err(e);
            },
        }
        i = i + 1;
    }
    proof {
        lemma_take_all(fs@);
    }
    Ok(acc)
}

fn delimited_tokens(v: &Variant, body: Tokens) -> (t: Tokens)
    ensures
        t@ == delimited(*v, body@),
{
    let mut t = Tokens::from_code_string(v.ident.clone());
    match &v.fields {
        Fields::Named(_) => {
            t.push_code("{");
            t.append(body);
            t.push_code("}");
        },
        Fields::Unnamed(_) => {
            t.push_code("(");
            t.append(body);
            t.push_code(")");
        },
        Fields::Unit => {},
    }
    t
}

fn archived_variant(vi: usize, v: &Variant) -> (r: Result<Tokens, DeriveError>)
    ensures
        rv(r) == (archived_variant_fn())(vi as int, *v),
{
    let fs = match field_pieces(&FieldPart::Archived, vi, &v.fields) {
        Ok(fs) => fs,
        Err(e) => {
            return Err(e);
        },
    };
    let mut t = Tokens::from_code("#[doc =");
    t.push_str_lit(&v.archived_doc);
    t.push_code("] #[allow(dead_code)]");
    t.append(delimited_tokens(v, fs));
    t.push_discriminant(&v.discriminant);
    t.push_code(",");
    Ok(t)
}

fn resolver_variant(vi: usize, v: &Variant) -> (r: Result<Tokens, DeriveError>)
    ensures
        rv(r) == (resolver_variant_fn())(vi as int, *v),
{
    let fs = match field_pieces(&FieldPart::Resolver, vi, &v.fields) {
        Ok(fs) => fs,
        Err(e) => {
            return Err(e);
        },
    };
    let mut t = Tokens::from_code("#[doc =");
    t.push_str_lit(&v.resolver_doc);
    t.push_code("] #[allow(dead_code)]");
    t.append(delimited_tokens(v, fs));
    t.push_code(",");
    Ok(t)
}

fn variant_struct(p: &Printing, g: &Generics, vi: usize, v: &Variant) -> (r: Result<Tokens, DeriveError>)
    ensures
        rv(r) == (variant_struct_fn(*p, *g))(vi as int, *v),
{
    let fs = match field_pieces(&FieldPart::Struct, vi, &v.fields) {
        Ok(fs) => fs,
        Err(e) => {
            return Err(e);
        },
    };
    match &v.fields {
        Fields::Named(_) => {
            let mut t = Tokens::from_code("#[repr(C)] struct");
            t.push_code_string(archived_variant_ident(&v.ident));
            t.extend(&g.params);
            t.append(where_clause_tokens(&g.where_clause));
            t.push_code("{");
            t.push_code("__tag");
            t.push_code(": ArchivedTag,");
            t.append(fs);
            t.push_code("__phantom: ::core::marker::PhantomData<");
            t.push_code_string(p.name.clone());
            t.extend(&g.ty_generics);
            t.push_code(">, }");
            Ok(t)
        },
        Fields::Unnamed(_) => {
            let mut t = Tokens::from_code("#[repr(C)] struct");
            t.push_code_string(archived_variant_ident(&v.ident));
            t.extend(&g.params);
            t.push_code("( ArchivedTag,");
            t.append(fs);
            t.push_code("::core::marker::PhantomData<");
            t.push_code_string(p.name.clone());
            t.extend(&g.ty_generics);
            t.push_code(">, )");
            t.append(where_clause_tokens(&g.where_clause));
            t.push_code(";");
            Ok(t)
        },
        Fields::Unit => Ok(Tokens::new()),
    }
}

/// Which per-variant piece a variant loop builds.
enum VariantPart {
    Archived,
    Resolver,
    Struct,
}

spec fn vpart_fn(part: VariantPart, p: Printing, g: Generics) -> spec_fn(int, Variant) -> Result<Seq<PieceView>, DeriveError> {
    match part {
        VariantPart::Archived => archived_variant_fn(),
        VariantPart::Resolver => resolver_variant_fn(),
        VariantPart::Struct => variant_struct_fn(p, g),
    }
}

fn variant_pieces(part: &VariantPart, p: &Printing, g: &Generics, d: &DataEnum) -> (r: Result<Tokens, DeriveError>)
    ensures
        rv(r) == rep_res(d.variants@, vpart_fn(*part, *p, *g)),
{
    let ghost f = vpart_fn(*part, *p, *g);
    let mut acc = Tokens::new();
    let n = d.variants.len();
    let mut i: usize = 0;
    while i < n
        invariant
            n == d.variants@.len(),
            f == vpart_fn(*part, *p, *g),
            i <= n,
            rep_res(d.variants@.take(i as int), f) == Ok::<Seq<PieceView>, DeriveError>(acc@),
        decreases n - i,
    {
        proof {
            lemma_rep_res_step(d.variants@, f, i as int);
        }
        let v = &d.variants[i];
        let item = match part {
            VariantPart::Archived => archived_variant(i, v),
            VariantPart::Resolver => resolver_variant(i, v),
            VariantPart::Struct => variant_struct(p, g, i, v),
        };
        match item {
            Ok(t) => {
                acc.append(t);
            },
            Err(e) => {
                proof {
                    lemma_rep_res_err(d.variants@, f, i as int + 1, n as int);
                    lemma_take_all(d.variants@);
                }
                return Err(e);
            },
        }
        i = i + 1;
    }
    proof {
        lemma_take_all(d.variants@);
    }
    Ok(acc)
}

fn enum_header(name: &String, g: &Generics) -> (t: Tokens)
    ensures
        t@ == code("enum"@) + code(name@) + g.params@ + where_tokens(g.where_clause) + code("{"@),
{
    let mut t = Tokens::from_code("enum");
    t.push_code_string(name.clone());
    t.extend(&g.params);
    t.append(where_clause_tokens(&g.where_clause));
    t.push_code("{");
    t
}

/// Generates the archived enum, or the first field whose archived type is unknown.
pub fn generate_archived_type(printing: &Printing, generics: &Generics, data: &DataEnum) -> (r: Result<Tokens, DeriveError>)
    ensures
        rv(r) == archived_type_spec(*printing, *generics, *data),
{
    let vs = match variant_pieces(&VariantPart::Archived, printing, generics, data) {
        Ok(vs) => vs,
        Err(e) => {
            return Err(e);
        },
    };
    let mut t = Tokens::from_code("#[automatically_derived] #[doc =");
    t.push_str_lit(&printing.archived_doc);
    t.push_code("]");
    t.append(attr_tokens(&printing.archived_metas));
    t.push_code("#[repr(u8)]");
    t.extend(&printing.vis);
    t.append(enum_header(&printing.archived_name, generics));
    t.append(vs);
    t.push_code("}");
    Ok(t)
}

/// Generates the resolver enum, or the first field whose resolver type is unknown.
pub fn generate_resolver_type(printing: &Printing, generics: &Generics, data: &DataEnum) -> (r: Result<Tokens, DeriveError>)
    ensures
        rv(r) == resolver_type_spec(*printing, *generics, *data),
{
    let vs = match variant_pieces(&VariantPart::Resolver, printing, generics, data) {
        Ok(vs) => vs,
        Err(e) => {
            return Err(e);
        },
    };
    let mut t = Tokens::from_code("#[automatically_derived] #[doc =");
    t.push_str_lit(&printing.resolver_doc);
    t.push_code("]");
    t.extend(&printing.vis);
    t.append(enum_header(&printing.resolver_name, generics));
    t.append(vs);
    t.push_code("}");
    Ok(t)
}

/// Generates the layout structs of the variants with fields, or the first
/// field whose archived type is unknown.
pub fn generate_variant_structs(printing: &Printing, generics: &Generics, data: &DataEnum) -> (r: Result<Tokens, DeriveError>)
    ensures
        rv(r) == variant_structs_spec(*printing, *generics, *data),
{
    variant_pieces(&VariantPart::Struct, printing, generics, data)
}

} // verus!
