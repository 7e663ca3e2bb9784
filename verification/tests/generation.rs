use archive_enum::derive::impl_enum;
use archive_enum::archived::{generate_archived_type, generate_resolver_type, generate_variant_structs};
use archive_enum::resolve::generate_resolve_arms;
use archive_enum::eq::generate_partial_eq_impl;
use archive_enum::ord::generate_partial_ord_impl;
use archive_enum::derive::generate_tag_enum;
use archive_enum::model::{
    Attributes, DataEnum, DeriveError, Field, Fields, Generics, Path, PathSegment, Printing,
    Variant, WhereClause,
};
use archive_enum::text::{archived_variant_ident, binding_name, decimal_string, strip_raw};
use archive_enum::tokens::{Piece, Tokens};

fn toks(s: &str) -> Tokens {
    if s.is_empty() {
        Tokens { pieces: vec![] }
    } else {
        Tokens { pieces: vec![Piece::Code(s.to_string())] }
    }
}

fn render(t: &Tokens) -> String {
    let mut parts = Vec::new();
    for p in &t.pieces {
        match p {
            Piece::Code(s) => parts.push(s.clone()),
            Piece::Str(s) => parts.push(proc_macro2::Literal::string(s).to_string()),
        }
    }
    parts.join(" ")
}

fn normalize(s: &str) -> String {
    s.chars().filter(|c| !c.is_whitespace()).collect()
}

fn lexes(s: &str) -> bool {
    s.parse::<proc_macro2::TokenStream>().is_ok()
}

fn printing(name: &str) -> Printing {
    Printing {
        rkyv_path: toks("::rkyv"),
        vis: toks("pub"),
        name: name.to_string(),
        archived_metas: vec![],
        archived_name: format!("Archived{}", name),
        archived_type: toks(&format!("Archived{}", name)),
        resolver_name: format!("{}Resolver", name),
        archived_doc: format!("An archived [`{}`]", name),
        resolver_doc: format!("The resolver for an archived [`{}`]", name),
    }
}

fn generics() -> Generics {
    Generics {
        params: toks(""),
        impl_generics: toks(""),
        ty_generics: toks(""),
        where_clause: Some(WhereClause { predicates: vec![], trailing_comma: false }),
    }
}

fn field(ident: Option<&str>, ty: &str) -> Field {
    Field {
        vis: toks(""),
        ident: ident.map(|s| s.to_string()),
        colon_token: ident.is_some(),
        ty: toks(ty),
        metas: vec![],
        omit_bounds: false,
        archived: Some(toks(&format!("<{} as ::rkyv::Archive>::Archived", ty))),
        resolver: Some(toks(&format!("<{} as ::rkyv::Archive>::Resolver", ty))),
        resolve: Some(toks(&format!("<{} as ::rkyv::Archive>::resolve", ty))),
    }
}

fn variant(name: &str, fields: Fields) -> Variant {
    Variant {
        ident: name.to_string(),
        discriminant: None,
        fields,
        archived_doc: format!("The archived counterpart of [`Shape::{}`]", name),
        resolver_doc: format!("The resolver for [`Shape::{}`]", name),
    }
}

fn shape() -> DataEnum {
    DataEnum {
        variants: vec![
            variant("Empty", Fields::Unit),
            variant("Circle", Fields::Unnamed(vec![field(None, "u32")])),
            variant(
                "Rect",
                Fields::Named(vec![field(Some("w"), "u32"), field(Some("h"), "u64")]),
            ),
        ],
    }
}

fn path(s: &str) -> Path {
    Path { leading_colon: false, segments: vec![PathSegment { ident: s.to_string(), has_arguments: false }] }
}

fn attrs(compares: Option<Vec<Path>>) -> Attributes {
    Attributes { as_type: None, compares }
}

#[test]
fn decimal_numerals() {
    assert_eq!(decimal_string(0), "0");
    assert_eq!(decimal_string(7), "7");
    assert_eq!(decimal_string(10), "10");
    assert_eq!(decimal_string(256), "256");
    assert_eq!(decimal_string(1_000_007), "1000007");
}

#[test]
fn binding_names() {
    assert_eq!(binding_name("self_", 0), "self_0");
    assert_eq!(binding_name("resolver_", 12), "resolver_12");
    assert_ne!(binding_name("self_", 1), binding_name("self_", 11));
    assert_ne!(binding_name("self_", 3), binding_name("other_", 3));
}

#[test]
fn strip_raw_prefix() {
    assert_eq!(strip_raw(&"r#type".to_string()), "type");
    assert_eq!(strip_raw(&"Foo".to_string()), "Foo");
    assert_eq!(strip_raw(&"r".to_string()), "r");
    assert_eq!(strip_raw(&"r#".to_string()), "");
    assert_eq!(archived_variant_ident(&"r#match".to_string()), "ArchivedVariantmatch");
    assert_eq!(archived_variant_ident(&"Circle".to_string()), "ArchivedVariantCircle");
}

#[test]
fn path_is_ident() {
    assert!(path("PartialEq").is_ident("PartialEq"));
    assert!(!path("PartialEq").is_ident("PartialOrd"));
    let mut p = path("PartialEq");
    p.leading_colon = true;
    assert!(!p.is_ident("PartialEq"));
    let mut q = path("PartialEq");
    q.segments[0].has_arguments = true;
    assert!(!q.is_ident("PartialEq"));
    let two = Path {
        leading_colon: false,
        segments: vec![
            PathSegment { ident: "core".to_string(), has_arguments: false },
            PathSegment { ident: "PartialEq".to_string(), has_arguments: false },
        ],
    };
    assert!(!two.is_ident("PartialEq"));
    assert!(!path("r#PartialEq").is_ident("PartialEq"));
}

#[test]
fn where_clause_rendering() {
    let empty = WhereClause { predicates: vec![], trailing_comma: true };
    assert_eq!(render(&empty.to_tokens()), "");
    let mut w = WhereClause { predicates: vec![toks("T: Clone")], trailing_comma: true };
    assert_eq!(normalize(&render(&w.to_tokens())), normalize("where T: Clone,"));
    w.push(toks("U: Copy"));
    assert_eq!(normalize(&render(&w.to_tokens())), normalize("where T: Clone, U: Copy"));
}

#[test]
fn tag_enum_lists_variants_in_order() {
    let mut d = shape();
    d.variants[1].discriminant = Some(toks("5"));
    let t = generate_tag_enum(&d);
    assert_eq!(
        normalize(&render(&t)),
        normalize("#[derive(PartialEq, PartialOrd)] #[repr(u8)] enum ArchivedTag { Empty, Circle = 5, Rect, }")
    );
}

#[test]
fn archived_type_text() {
    let t = generate_archived_type(&printing("Shape"), &generics(), &shape()).unwrap();
    let expected = "#[automatically_derived] #[doc = \"An archived [`Shape`]\"] #[repr(u8)] pub enum ArchivedShape { \
        #[doc = \"The archived counterpart of [`Shape::Empty`]\"] #[allow(dead_code)] Empty, \
        #[doc = \"The archived counterpart of [`Shape::Circle`]\"] #[allow(dead_code)] Circle(<u32 as ::rkyv::Archive>::Archived,), \
        #[doc = \"The archived counterpart of [`Shape::Rect`]\"] #[allow(dead_code)] Rect { w: <u32 as ::rkyv::Archive>::Archived, h: <u64 as ::rkyv::Archive>::Archived, }, }";
    assert_eq!(normalize(&render(&t)), normalize(expected));
}

#[test]
fn resolver_type_text() {
    let t = generate_resolver_type(&printing("Shape"), &generics(), &shape()).unwrap();
    let expected = "#[automatically_derived] #[doc = \"The resolver for an archived [`Shape`]\"] pub enum ShapeResolver { \
        #[doc = \"The resolver for [`Shape::Empty`]\"] #[allow(dead_code)] Empty, \
        #[doc = \"The resolver for [`Shape::Circle`]\"] #[allow(dead_code)] Circle(<u32 as ::rkyv::Archive>::Resolver,), \
        #[doc = \"The resolver for [`Shape::Rect`]\"] #[allow(dead_code)] Rect { w: <u32 as ::rkyv::Archive>::Resolver, h: <u64 as ::rkyv::Archive>::Resolver, }, }";
    assert_eq!(normalize(&render(&t)), normalize(expected));
}

#[test]
fn variant_structs_skip_unit_variants() {
    let t = generate_variant_structs(&printing("Shape"), &generics(), &shape()).unwrap();
    let expected = "#[repr(C)] struct ArchivedVariantCircle ( ArchivedTag, <u32 as ::rkyv::Archive>::Archived, ::core::marker::PhantomData<Shape>, ); \
        #[repr(C)] struct ArchivedVariantRect { __tag: ArchivedTag, w: <u32 as ::rkyv::Archive>::Archived, h: <u64 as ::rkyv::Archive>::Archived, __phantom: ::core::marker::PhantomData<Shape>, }";
    assert_eq!(normalize(&render(&t)), normalize(expected));
}

#[test]
fn resolve_arms_text() {
    let t = generate_resolve_arms(&printing("Shape"), &generics(), &shape()).unwrap();
    assert!(lexes(&render(&t)));
    let text = normalize(&render(&t));
    let unit = normalize("ShapeResolver::Empty => { let out = unsafe { out.cast_unchecked::<ArchivedTag>() }; unsafe { out.write_unchecked(ArchivedTag::Empty); } }");
    assert!(text.contains(&unit));
    let tuple = normalize("ShapeResolver::Circle(resolver_0,) => { match self { Shape::Circle(self_0,) => { \
        let out = unsafe { out.cast_unchecked::<ArchivedVariantCircle>() }; \
        let tag_ptr = unsafe { ::core::ptr::addr_of_mut!((*out.ptr()).0) }; \
        unsafe { tag_ptr.write(ArchivedTag::Circle); } \
        let field_ptr = unsafe { ::core::ptr::addr_of_mut!((*out.ptr()).1) }; \
        let out_field = unsafe { ::rkyv::Place::from_field_unchecked(out, field_ptr,) }; \
        <u32 as ::rkyv::Archive>::resolve(self_0, resolver_0, out_field,); }, \
        #[allow(unreachable_patterns)] _ => unsafe { ::core::hint::unreachable_unchecked() }, } }");
    assert!(text.contains(&tuple));
    let named = normalize("ShapeResolver::Rect { w: resolver_0, h: resolver_1, } => { match self { Shape::Rect { w: self_0, h: self_1, } => {");
    assert!(text.contains(&named));
    assert!(text.contains(&normalize("(*out.ptr()).__tag")));
    assert!(text.contains(&normalize("<u64 as ::rkyv::Archive>::resolve(self_1, resolver_1, out_field,);")));
}

#[test]
fn partial_eq_impls() {
    let t = generate_partial_eq_impl(&printing("Shape"), &generics(), &shape()).unwrap();
    let text = normalize(&render(&t));
    assert!(text.starts_with(&normalize("impl PartialEq<ArchivedShape> for Shape where <u32 as ::rkyv::Archive>::Archived: PartialEq<u32>, <u32 as ::rkyv::Archive>::Archived: PartialEq<u32>, <u64 as ::rkyv::Archive>::Archived: PartialEq<u64> {")));
    assert!(text.contains(&normalize("Shape::Rect { w: self_0, h: self_1, } => match other { ArchivedShape::Rect { w: other_0, h: other_1, } => true && other_0.eq(self_0) && other_1.eq(self_1),")));
    assert!(text.contains(&normalize("Shape::Empty => match other { ArchivedShape::Empty => true, #[allow(unreachable_patterns)] _ => false, },")));
    assert!(text.ends_with(&normalize("fn eq(&self, other: &Shape) -> bool { other.eq(self) } }")));
    syn::parse_file(&render(&t)).expect("the impls parse");
}

#[test]
fn partial_ord_impls() {
    let t = generate_partial_ord_impl(&printing("Shape"), &generics(), &shape()).unwrap();
    let text = normalize(&render(&t));
    assert!(text.contains(&normalize("let self_disc = match self { Shape::Empty => ArchivedTag::Empty, Shape::Circle ( .. ) => ArchivedTag::Circle, Shape::Rect { .. } => ArchivedTag::Rect, };")));
    assert!(text.contains(&normalize("match other_0.partial_cmp(self_0) { Some(::core::cmp::Ordering::Equal) => (), cmp => return cmp.map(::core::cmp::Ordering::reverse), }")));
    assert!(text.contains(&normalize("Some(::core::cmp::Ordering::Less) => { Some(::core::cmp::Ordering::Greater) }")));
    syn::parse_file(&render(&t)).expect("the impls parse");
}

#[test]
fn omitted_fields_get_no_bounds() {
    let mut d = shape();
    if let Fields::Named(fs) = &mut d.variants[2].fields {
        fs[0].omit_bounds = true;
        fs[0].archived = None;
    }
    let t = generate_partial_eq_impl(&printing("Shape"), &generics(), &d).unwrap();
    let text = normalize(&render(&t));
    assert!(text.starts_with(&normalize("impl PartialEq<ArchivedShape> for Shape where <u32 as ::rkyv::Archive>::Archived: PartialEq<u32>, <u64 as ::rkyv::Archive>::Archived: PartialEq<u64> {")));
}

#[test]
fn whole_output_parses() {
    let out = impl_enum(
        &printing("Shape"),
        &generics(),
        &attrs(Some(vec![path("PartialEq"), path("PartialOrd")])),
        &shape(),
    )
    .unwrap();
    let text = render(&out);
    let file = syn::parse_file(&text).expect("generated code parses");
    assert_eq!(file.items.len(), 5);
    let norm = normalize(&text);
    assert!(norm.contains(&normalize("impl Archive for Shape { type Archived = ArchivedShape; type Resolver = ShapeResolver;")));
    assert!(norm.contains(&normalize("out: ::rkyv::Place<<Self as Archive>::Archived>, ) { match resolver {")));
}

#[test]
fn partial_ord_goes_inside_the_const() {
    let out = impl_enum(&printing("Shape"), &generics(), &attrs(Some(vec![path("PartialOrd")])), &shape()).unwrap();
    let text = normalize(&render(&out));
    let konst = text.find(&normalize("const _ : () = {")).unwrap();
    let ord = text.find("PartialOrd<ArchivedShape>").unwrap();
    assert!(ord > konst);
    let out = impl_enum(&printing("Shape"), &generics(), &attrs(Some(vec![path("PartialEq")])), &shape()).unwrap();
    let text = normalize(&render(&out));
    let konst = text.find(&normalize("const _ : () = {")).unwrap();
    let eq = text.find("PartialEq<ArchivedShape>").unwrap();
    assert!(eq < konst);
}

#[test]
fn too_many_variants() {
    let mut d = DataEnum { variants: vec![] };
    for i in 0..257 {
        d.variants.push(variant(&format!("V{}", i), Fields::Unit));
    }
    let mut a = attrs(Some(vec![path("Bogus")]));
    a.as_type = None;
    assert_eq!(impl_enum(&printing("Big"), &generics(), &a, &d).err(), Some(DeriveError::TooManyVariants));
    d.variants.pop();
    assert!(impl_enum(&printing("Big"), &generics(), &attrs(None), &d).is_ok());
}

#[test]
fn unrecognized_compare() {
    let a = attrs(Some(vec![path("PartialEq"), path("Hash"), path("Debug")]));
    assert_eq!(
        impl_enum(&printing("Shape"), &generics(), &a, &shape()).err(),
        Some(DeriveError::UnrecognizedCompare { index: 1 })
    );
}

#[test]
fn unrecognized_compare_without_where_clause() {
    let mut g = generics();
    g.where_clause = None;
    let a = attrs(Some(vec![path("Eq")]));
    assert_eq!(
        impl_enum(&printing("Shape"), &g, &a, &shape()).err(),
        Some(DeriveError::UnrecognizedCompare { index: 0 })
    );
}

#[test]
fn field_errors_come_in_order() {
    let mut d = shape();
    if let Fields::Named(fs) = &mut d.variants[2].fields {
        fs[1].archived = None;
        fs[0].resolver = None;
    }
    assert_eq!(
        impl_enum(&printing("Shape"), &generics(), &attrs(None), &d).err(),
        Some(DeriveError::ArchivedType { variant: 2, field: 1 })
    );
    let mut a = attrs(None);
    a.as_type = Some(toks("Other"));
    assert_eq!(
        impl_enum(&printing("Shape"), &generics(), &a, &d).err(),
        Some(DeriveError::ResolverType { variant: 2, field: 0 })
    );
    let mut d2 = shape();
    if let Fields::Unnamed(fs) = &mut d2.variants[1].fields {
        fs[0].resolve = None;
    }
    assert_eq!(
        impl_enum(&printing("Shape"), &generics(), &attrs(None), &d2).err(),
        Some(DeriveError::ResolveFn { variant: 1, field: 0 })
    );
}

#[test]
fn as_type_skips_archived_enum() {
    let mut a = attrs(None);
    a.as_type = Some(toks("Other"));
    let out = impl_enum(&printing("Shape"), &generics(), &a, &shape()).unwrap();
    let text = render(&out);
    assert!(!text.contains("enum ArchivedShape"));
    assert!(normalize(&text).starts_with(&normalize("#[automatically_derived] #[doc = \"The resolver for an archived [`Shape`]\"] pub enum ShapeResolver")));
}

#[test]
fn layout_struct_names_match_resolve_casts() {
    let mut d = shape();
    d.variants.push(variant("r#match", Fields::Unnamed(vec![field(None, "u8"), field(None, "u16")])));
    let structs = render(&generate_variant_structs(&printing("Shape"), &generics(), &d).unwrap());
    let arms = render(&generate_resolve_arms(&printing("Shape"), &generics(), &d).unwrap());
    for name in ["ArchivedVariantCircle", "ArchivedVariantRect", "ArchivedVariantmatch"] {
        assert!(structs.contains(&format!("struct {}", name)));
        assert!(arms.contains(&format!("cast_unchecked::< {}", name)));
    }
    let arms = normalize(&arms);
    assert!(arms.contains(&normalize("(*out.ptr()).1")));
    assert!(arms.contains(&normalize("(*out.ptr()).2")));
    assert!(arms.contains(&normalize("r#match(self_0, self_1,)")));
}

#[test]
fn generics_and_where_clause_flow_through() {
    let g = Generics {
        params: toks("<T: Clone>"),
        impl_generics: toks("<T: Clone>"),
        ty_generics: toks("<T>"),
        where_clause: Some(WhereClause { predicates: vec![toks("T: Copy")], trailing_comma: false }),
    };
    let mut p = printing("Wrap");
    p.archived_type = toks("ArchivedWrap<T>");
    let d = DataEnum { variants: vec![variant("One", Fields::Unnamed(vec![field(None, "T")]))] };
    let out = impl_enum(&p, &g, &attrs(Some(vec![path("PartialEq")])), &d).unwrap();
    let text = render(&out);
    syn::parse_file(&text).expect("generated code parses");
    let norm = normalize(&text);
    assert!(norm.contains(&normalize("pub enum ArchivedWrap<T: Clone> where T: Copy {")));
    assert!(norm.contains(&normalize("impl<T: Clone> PartialEq<ArchivedWrap<T>> for Wrap<T> where T: Copy, <T as ::rkyv::Archive>::Archived: PartialEq<T> {")));
    assert!(norm.contains(&normalize("impl<T: Clone> Archive for Wrap<T> where T: Copy {")));
    assert!(norm.contains(&normalize("struct ArchivedVariantOne<T: Clone> ( ArchivedTag, <T as ::rkyv::Archive>::Archived, ::core::marker::PhantomData<Wrap<T>>, ) where T: Copy;")));
}

#[test]
fn field_metas_are_forwarded() {
    let mut d = shape();
    if let Fields::Named(fs) = &mut d.variants[2].fields {
        fs[0].metas = vec![toks("cfg(test)")];
    }
    let mut p = printing("Shape");
    p.archived_metas = vec![toks("derive(Debug)")];
    let t = generate_archived_type(&p, &generics(), &d).unwrap();
    let text = normalize(&render(&t));
    assert!(text.contains(&normalize("#[derive(Debug)] #[repr(u8)] pub enum ArchivedShape")));
    assert!(text.contains(&normalize("Rect { #[cfg(test)] w: <u32 as ::rkyv::Archive>::Archived,")));
}

#[test]
fn enum_without_variants() {
    let d = DataEnum { variants: vec![] };
    let out = impl_enum(&printing("Never"), &generics(), &attrs(Some(vec![path("PartialEq")])), &d).unwrap();
    let text = render(&out);
    syn::parse_file(&text).expect("generated code parses");
    let norm = normalize(&text);
    assert!(norm.contains(&normalize("#[repr(u8)] pub enum ArchivedNever { }")));
    assert!(norm.contains(&normalize("enum ArchivedTag { }")));
    assert!(norm.contains(&normalize("match resolver { } } } };")));
}

#[test]
fn discriminants_are_kept_on_archived_variants() {
    let mut d = shape();
    d.variants[0].discriminant = Some(toks("3"));
    let t = generate_archived_type(&printing("Shape"), &generics(), &d).unwrap();
    let text = normalize(&render(&t));
    assert!(text.contains(&normalize("#[allow(dead_code)] Empty = 3,")));
    let r = generate_resolver_type(&printing("Shape"), &generics(), &d).unwrap();
    assert!(!render(&r).contains("= 3"));
}

#[test]
fn resolve_arms_write_declared_members() {
    let structs = normalize(&render(&generate_variant_structs(&printing("Shape"), &generics(), &shape()).unwrap()));
    let arms = normalize(&render(&generate_resolve_arms(&printing("Shape"), &generics(), &shape()).unwrap()));
    assert!(structs.contains(&normalize("struct ArchivedVariantRect { __tag: ArchivedTag, w:")));
    assert!(structs.contains(&normalize("h: <u64 as ::rkyv::Archive>::Archived,")));
    for member in ["__tag", "w", "h"] {
        assert!(arms.contains(&normalize(&format!("addr_of_mut!((*out.ptr()).{})", member))));
    }
    assert!(structs.contains(&normalize("struct ArchivedVariantCircle ( ArchivedTag, <u32 as ::rkyv::Archive>::Archived,")));
    for member in ["0", "1"] {
        assert!(arms.contains(&normalize(&format!("addr_of_mut!((*out.ptr()).{})", member))));
    }
    assert!(!arms.contains(&normalize("(*out.ptr()).2")));
}

#[test]
fn tag_enum_and_archived_enum_agree() {
    let mut d = shape();
    d.variants[2].discriminant = Some(toks("7"));
    let tags = normalize(&render(&generate_tag_enum(&d)));
    let archived = normalize(&render(&generate_archived_type(&printing("Shape"), &generics(), &d).unwrap()));
    assert!(tags.contains(&normalize("{ Empty, Circle, Rect = 7, }")));
    let e = archived.find("Empty,").unwrap();
    let c = archived.find("Circle(").unwrap();
    let r = archived.find("Rect{").unwrap();
    assert!(e < c && c < r);
    assert!(archived.contains(&normalize("Archived, } = 7, }")));
}
