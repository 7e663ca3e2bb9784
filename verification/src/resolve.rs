//! The arms of the generated `resolve` match: one per variant, writing the
//! tag and resolving each field into the variant's layout struct.

use vstd::prelude::*;
use crate::tokens::{code, PieceView, Tokens};
use crate::model::{
    fields_seq, lemma_rep_res_err, lemma_rep_res_step, lemma_rep_step, lemma_take_all, rep,
    rep_res, rv, DataEnum, DeriveError, Field, Fields, Generics, Printing, Variant,
};
use crate::text::{archived_variant_ident, archived_variant_name, binding, binding_name, decimal, decimal_string};

verus! {

/// How the resolve code names a field of the layout struct: by its name, or,
/// for a field without one, by its position plus one (the tag is field 0).
pub open spec fn resolve_member(k: int, f: Field) -> Seq<char> {
    match f.ident {
        Some(id) => id@,
        None => decimal((k + 1) as nat),
    }
}

/// `member: binding,` for each field.
pub open spec fn member_binding_fn(prefix: Seq<char>) -> spec_fn(int, Field) -> Seq<PieceView> {
    |k: int, f: Field|
        code(resolve_member(k, f)) + code(":"@) + code(binding(prefix, k as nat)) + code(","@)
}

/// `binding,` for each field.
pub open spec fn binding_list_fn(prefix: Seq<char>) -> spec_fn(int, Field) -> Seq<PieceView> {
    |k: int, f: Field| code(binding(prefix, k as nat)) + code(","@)
}

/// For each field: locate it in the layout struct and call its resolve
/// function on the value, the resolver and the place.
pub open spec fn field_write_fn(p: Printing, vi: int) -> spec_fn(int, Field) -> Result<Seq<PieceView>, DeriveError> {
    |k: int, f: Field|
        match f.resolve {
            Some(r) => Ok(
                code("let field_ptr = unsafe { ::core::ptr::addr_of_mut!((*out.ptr())."@) + code(
                    resolve_member(k, f),
                ) + code(") }; let out_field = unsafe {"@) + p.rkyv_path@ + code(
                    "::Place::from_field_unchecked(out, field_ptr,) };"@,
                ) + r@ + code("("@) + code(binding("self_"@, k as nat)) + code(","@) + code(
                    binding("resolver_"@, k as nat),
                ) + code(", out_field,);"@),
            ),
            None => Err(DeriveError::ResolveFn { variant: vi as usize, field: k as usize }),
        }
}

pub open spec fn arm_tail() -> Seq<PieceView> {
    code(
        "}, #[allow(unreachable_patterns)] _ => unsafe { ::core::hint::unreachable_unchecked() }, } }"@,
    )
}

/// The arm for one variant.
pub open spec fn resolve_arm_fn(p: Printing, g: Generics) -> spec_fn(int, Variant) -> Result<Seq<PieceView>, DeriveError> {
    |vi: int, v: Variant|
        match rep_res(fields_seq(v.fields), field_write_fn(p, vi)) {
            Ok(writes) => Ok(
                match v.fields {
                    Fields::Named(fs) => code(p.resolver_name@) + code("::"@) + code(v.ident@) + code(
                        "{"@,
                    ) + rep(fs@, member_binding_fn("resolver_"@)) + code("} => { match self {"@)
                        + code(p.name@) + code("::"@) + code(v.ident@) + code("{"@) + rep(
                        fs@,
                        member_binding_fn("self_"@),
                    ) + code("} => { let out = unsafe { out.cast_unchecked::<"@) + code(
                        archived_variant_name(v.ident@),
                    ) + g.ty_generics@ + code(
                        ">() }; let tag_ptr = unsafe { ::core::ptr::addr_of_mut!((*out.ptr())."@,
                    ) + code("__tag"@) + code(") }; unsafe { tag_ptr.write(ArchivedTag::"@) + code(v.ident@) + code("); }"@) + writes + arm_tail(),
                    Fields::Unnamed(fs) => code(p.resolver_name@) + code("::"@) + code(v.ident@)
                        + code("("@) + rep(fs@, binding_list_fn("resolver_"@)) + code(
                        ") => { match self {"@,
                    ) + code(p.name@) + code("::"@) + code(v.ident@) + code("("@) + rep(
                        fs@,
                        binding_list_fn("self_"@),
                    ) + code(") => { let out = unsafe { out.cast_unchecked::<"@) + code(
                        archived_variant_name(v.ident@),
                    ) + g.ty_generics@ + code(
                        ">() }; let tag_ptr = unsafe { ::core::ptr::addr_of_mut!((*out.ptr())."@,
                    ) + code("0"@) + code(") }; unsafe { tag_ptr.write(ArchivedTag::"@) + code(v.ident@) + code("); }"@) + writes + arm_tail(),
                    Fields::Unit => code(p.resolver_name@) + code("::"@) + code(v.ident@) + code(
                        "=> { let out = unsafe { out.cast_unchecked::<ArchivedTag>() }; unsafe { out.write_unchecked(ArchivedTag::"@,
                    ) + code(v.ident@) + code("); } }"@),
                },
            ),
            Err(e) => Err(e),
        }
}

/// All arms, in variant order.
pub open spec fn resolve_arms_spec(p: Printing, g: Generics, d: DataEnum) -> Result<Seq<PieceView>, DeriveError> {
    rep_res(d.variants@, resolve_arm_fn(p, g))
}

fn resolve_member_string(k: usize, f: &Field) -> (s: String)
    requires
        k < usize::MAX,
    ensures
        s@ == resolve_member(k as int, *f),
{
    match &f.ident {
        Some(id) => id.clone(),
        None => decimal_string(k + 1),
    }
}

/// `member: binding,` (with `with_member`) or `binding,` for each field.
pub fn member_bindings(fs: &Vec<Field>, prefix: &str, with_member: bool) -> (t: Tokens)
    ensures
        with_member ==> t@ == rep(fs@, member_binding_fn(prefix@)),
        !with_member ==> t@ == rep(fs@, binding_list_fn(prefix@)),
{
    let ghost f = if with_member {
        member_binding_fn(prefix@)
    } else {
        binding_list_fn(prefix@)
    };
    let mut acc = Tokens::new();
    let n = fs.len();
    let mut i: usize = 0;
    while i < n
        invariant
            n == fs@.len(),
            f == (if with_member {
                member_binding_fn(prefix@)
            } else {
                binding_list_fn(prefix@)
            }),
            i <= n,
            acc@ == rep(fs@.take(i as int), f),
        decreases n - i,
    {
        proof {
            lemma_rep_step(fs@, f, i as int);
        }
        if with_member {
            let mut t = Tokens::from_code_string(resolve_member_string(i, &fs[i]));
            t.push_code(":");
            t.push_code_string(binding_name(prefix, i));
            t.push_code(",");
            acc.append(t);
        } else {
            let mut t = Tokens::from_code_string(binding_name(prefix, i));
            t.push_code(",");
            acc.append(t);
        }
        i = i + 1;
    }
    proof {
        lemma_take_all(fs@);
    }
    acc
}

fn field_write(p: &Printing, vi: usize, k: usize, f: &Field) -> (r: Result<Tokens, DeriveError>)
    requires
        k < usize::MAX,
    ensures
        rv(r) == (field_write_fn(*p, vi as int))(k as int, *f),
{
    match &f.resolve {
        Some(res) => {
            let mut t = Tokens::from_code(
                "let field_ptr = unsafe { ::core::ptr::addr_of_mut!((*out.ptr()).",
            );
            t.push_code_string(resolve_member_string(k, f));
            t.push_code(") }; let out_field = unsafe {");
            t.extend(&p.rkyv_path);
            t.push_code("::Place::from_field_unchecked(out, field_ptr,) };");
            t.extend(res);
            t.push_code("(");
            t.push_code_string(binding_name("self_", k));
            t.push_code(",");
            t.push_code_string(binding_name("resolver_", k));
            t.push_code(", out_field,);");
            Ok(t)
        },
        None => Err(DeriveError::ResolveFn { variant: vi, field: k }),
    }
}

fn field_writes(p: &Printing, vi: usize, fields: &Fields) -> (r: Result<Tokens, DeriveError>)
    ensures
        rv(r) == rep_res(fields_seq(*fields), field_write_fn(*p, vi as int)),
{
    let fs = match fields {
        Fields::Named(fs) => fs,
        Fields::Unnamed(fs) => fs,
        Fields::Unit => {
            return Ok(Tokens::new());
        },
    };
    let ghost f = field_write_fn(*p, vi as int);
    let mut acc = Tokens::new();
    let n = fs.len();
    let mut i: usize = 0;
    while i < n
        invariant
            n == fs@.len(),
            fs@ == fields_seq(*fields),
            f == field_write_fn(*p, vi as int),
            i <= n,
            rep_res(fs@.take(i as int), f) == Ok::<Seq<PieceView>, DeriveError>(acc@),
        decreases n - i,
    {
        proof {
            lemma_rep_res_step(fs@, f, i as int);
        }
        match field_write(p, vi, i, &fs[i]) {
            Ok(t) => {
                acc.append(t);
            },
            Err(e) => {
                proof {
                    lemma_rep_res_err(fs@, f, i as int + 1, n as int);
                    lemma_take_all(fs@);
                }
                return Err(e);
            },
        }
        i = i + 1;
    }
    proof {
        lemma_take_all(fs@);
    }
    Ok(acc)
}

fn arm_head(
    p: &Printing,
    g: &Generics,
    v: &Variant,
    fs: &Vec<Field>,
    with_member: bool,
    open_delim: &str,
    close_delim: &str,
    tag_field: &str,
) -> (t: Tokens)
    ensures
        t@ == code(p.resolver_name@) + code("::"@) + code(v.ident@) + code(open_delim@) + (if with_member {
            rep(fs@, member_binding_fn("resolver_"@))
        } else {
            rep(fs@, binding_list_fn("resolver_"@))
        }) + code(close_delim@) + code(p.name@) + code("::"@) + code(v.ident@) + code(open_delim@)
            + (if with_member {
            rep(fs@, member_binding_fn("self_"@))
        } else {
            rep(fs@, binding_list_fn("self_"@))
        }) + code(tag_field@) + code(archived_variant_name(v.ident@)) + g.ty_generics@,
{
    let mut t = Tokens::from_code_string(p.resolver_name.clone());
    t.push_code("::");
    t.push_code_string(v.ident.clone());
    t.push_code(open_delim);
    t.append(member_bindings(fs, "resolver_", with_member));
    t.push_code(close_delim);
    t.push_code_string(p.name.clone());
    t.push_code("::");
    t.push_code_string(v.ident.clone());
    t.push_code(open_delim);
    t.append(member_bindings(fs, "self_", with_member));
    t.push_code(tag_field);
    t.push_code_string(archived_variant_ident(&v.ident));
    t.extend(&g.ty_generics);
    t
}

fn resolve_arm(p: &Printing, g: &Generics, vi: usize, v: &Variant) -> (r: Result<Tokens, DeriveError>)
    ensures
        rv(r) == (resolve_arm_fn(*p, *g))(vi as int, *v),
{
    let writes = match field_writes(p, vi, &v.fields) {
        Ok(w) => w,
        Err(e) => {
            return Err(e);
        },
    };
    match &v.fields {
        Fields::Named(fs) => {
            let mut t = arm_head(
                p,
                g,
                v,
                fs,
                true,
                "{",
                "} => { match self {",
                "} => { let out = unsafe { out.cast_unchecked::<",
            );
            t.push_code(">() }; let tag_ptr = unsafe { ::core::ptr::addr_of_mut!((*out.ptr()).");
            t.push_code("__tag");
            t.push_code(") }; unsafe { tag_ptr.write(ArchivedTag::");
            t.push_code_string(v.ident.clone());
            t.push_code("); }");
            t.append(writes);
            t.push_code(
                "}, #[allow(unreachable_patterns)] _ => unsafe { ::core::hint::unreachable_unchecked() }, } }",
            );
            Ok(t)
        },
        Fields::Unnamed(fs) => {
            let mut t = arm_head(
                p,
                g,
                v,
                fs,
                false,
                "(",
                ") => { match self {",
                ") => { let out = unsafe { out.cast_unchecked::<",
            );
            t.push_code(">() }; let tag_ptr = unsafe { ::core::ptr::addr_of_mut!((*out.ptr()).");
            t.push_code("0");
            t.push_code(") }; unsafe { tag_ptr.write(ArchivedTag::");
            t.push_code_string(v.ident.clone());
            t.push_code("); }");
            t.append(writes);
            t.push_code(
                "}, #[allow(unreachable_patterns)] _ => unsafe { ::core::hint::unreachable_unchecked() }, } }",
            );
            Ok(t)
        },
        Fields::Unit => {
            let mut t = Tokens::from_code_string(p.resolver_name.clone());
            t.push_code("::");
            t.push_code_string(v.ident.clone());
            t.push_code(
                "=> { let out = unsafe { out.cast_unchecked::<ArchivedTag>() }; unsafe { out.write_unchecked(ArchivedTag::",
            );
            t.push_code_string(v.ident.clone());
            t.push_code("); } }");
            Ok(t)
        },
    }
}

/// Generates the arms of the `resolve` match, or the first field whose
/// resolve function is unknown.
pub fn generate_resolve_arms(printing: &Printing, generics: &Generics, data: &DataEnum) -> (r: Result<Tokens, DeriveError>)
    ensures
        rv(r) == resolve_arms_spec(*printing, *generics, *data),
{
    let ghost f = resolve_arm_fn(*printing, *generics);
    let mut acc = Tokens::new();
    let n = data.variants.len();
    let mut i: usize = 0;
    while i < n
        invariant
            n == data.variants@.len(),
            f == resolve_arm_fn(*printing, *generics),
            i <= n,
            rep_res(data.variants@.take(i as int), f) == Ok::<Seq<PieceView>, DeriveError>(acc@),
        decreases n - i,
    {
        proof {
            lemma_rep_res_step(data.variants@, f, i as int);
        }
        match resolve_arm(printing, generics, i, &data.variants[i]) {
            Ok(t) => {
                acc.append(t);
            },
            Err(e) => {
                proof {
                    lemma_rep_res_err(data.variants@, f, i as int + 1, n as int);
                    lemma_take_all(data.variants@);
                }
                return Err(e);
            },
        }
        i = i + 1;
    }
    proof {
        lemma_take_all(data.variants@);
    }
    Ok(acc)
}

} // verus!
