use linjs_derive::descriptor::{Kind, Shape, TypeParam, Variant};
use linjs_derive::error::{Capability, Violation};
use linjs_derive::frontend::{assemble, constrain_bounds, describe, describe_with_arms};
use linjs_derive::{
    derive_has_class, derive_js_rootable, derive_js_transplantable, expand_token_stream,
};
use quote::ToTokens;

#[test]
fn describe_reads_a_struct() {
    let d = describe(
        "pub struct Foo<'a, T: Clone + Into<String>, U> where U: Copy { x: &'a T, pub y: Vec<U> }",
        Capability::Trace,
    )
    .unwrap();
    assert_eq!(d.name, "Foo");
    assert_eq!(d.scope_params, vec!["'a".to_string()]);
    assert_eq!(d.type_params.len(), 2);
    assert_eq!(d.type_params[0].name, "T");
    assert_eq!(d.type_params[0].bounds, vec!["Clone".to_string(), "Into < String >".to_string()]);
    assert_eq!(d.type_params[1].name, "U");
    assert!(d.type_params[1].bounds.is_empty());
    assert_eq!(d.where_constraints, vec!["U : Copy".to_string()]);
    assert_eq!(d.kind, Kind::Product);
    assert_eq!(d.variants.len(), 1);
    assert_eq!(d.variants[0].name, "Foo");
    assert_eq!(d.variants[0].shape, Shape::Named);
    assert_eq!(d.variants[0].fields.len(), 2);
    assert_eq!(d.variants[0].fields[0].name.as_deref(), Some("x"));
    assert_eq!(d.variants[0].fields[0].ty, "& 'a T");
    assert_eq!(d.variants[0].fields[1].name.as_deref(), Some("y"));
    assert_eq!(d.variants[0].fields[1].ty, "Vec < U >");
}

#[test]
fn describe_reads_an_enum() {
    let d = describe("enum E { A(u8, String), B { x: u8 }, C }", Capability::Trace).unwrap();
    assert_eq!(d.kind, Kind::Sum);
    assert_eq!(d.variants.len(), 3);
    assert_eq!(d.variants[0].name, "A");
    assert_eq!(d.variants[0].shape, Shape::Tuple);
    assert_eq!(d.variants[0].fields.len(), 2);
    assert!(d.variants[0].fields[0].name.is_none());
    assert_eq!(d.variants[0].fields[1].ty, "String");
    assert_eq!(d.variants[1].shape, Shape::Named);
    assert_eq!(d.variants[2].shape, Shape::Unit);
    assert!(d.variants[2].fields.is_empty());
}

#[test]
fn describe_refuses_what_is_no_declaration() {
    let e = describe("fn f() {}", Capability::Rootable).unwrap_err();
    assert_eq!(e.violation, Violation::Malformed);
    assert_eq!(e.capability, Capability::Rootable);
    assert_eq!(e.offender, "");
    assert!(!e.detail.is_empty());
    assert_eq!(
        e.message(),
        format!("deriving JSRootable requires a well-formed type declaration: {}", e.detail)
    );
    let e = describe("struct Foo<'a, 'a>;", Capability::Trace).unwrap_err();
    assert_eq!(e.violation, Violation::Malformed);
    assert_eq!(e.offender, "Foo");
}

#[test]
fn derive_rootable_from_text() {
    assert_eq!(
        derive_js_rootable("struct Foo<'a, T: Clone>(&'a T);").unwrap(),
        "# [ allow ( unsafe_code ) ] unsafe impl < 'a , 'b , T : Clone > :: linjs :: JSRootable < 'b > for Foo < 'a , T > where T : 'b { type Aged = Foo < 'b , T > ; }"
    );
    assert_eq!(
        derive_js_rootable("struct Foo;").unwrap(),
        "# [ allow ( unsafe_code ) ] unsafe impl < 'a > :: linjs :: JSRootable < 'a > for Foo { type Aged = Foo ; }"
    );
}

#[test]
fn derive_rootable_refuses_two_scopes() {
    let e = derive_js_rootable("struct Foo<'a, 'c>(&'a u8, &'c u8);").unwrap_err();
    assert_eq!(e.violation, Violation::Arity);
    assert_eq!(e.offender, "Foo");
    let e = derive_js_rootable("struct Foo<'b>(&'b u8);").unwrap_err();
    assert_eq!(e.violation, Violation::Collision);
    let e = derive_js_rootable("struct").unwrap_err();
    assert_eq!(e.violation, Violation::Malformed);
}

#[test]
fn derive_transplantable_from_text() {
    assert_eq!(
        derive_js_transplantable("struct Foo<'a, C: 'a>(&'a C);").unwrap(),
        "# [ allow ( unsafe_code ) ] unsafe impl < 'a , C : 'a , Z > :: linjs :: JSTransplantable < Z > for Foo < 'a , C > { type Transplanted = Foo < 'a , Z > ; }"
    );
}

#[test]
fn derive_transplantable_refuses_wrong_arity() {
    let e = derive_js_transplantable("struct Foo;").unwrap_err();
    assert_eq!(e.violation, Violation::Arity);
    assert_eq!(e.capability, Capability::Transplantable);
    let e = derive_js_transplantable("struct Foo<C, D>(C, D);").unwrap_err();
    assert_eq!(e.violation, Violation::Arity);
    let e = derive_js_transplantable("struct Foo<Z>(Z);").unwrap_err();
    assert_eq!(e.violation, Violation::Collision);
}

#[test]
fn derive_has_class_from_text() {
    assert_eq!(
        derive_has_class("struct Foo;").unwrap(),
        "pub struct FooClass ; impl :: linjs :: HasClass for Foo { type Class = FooClass ; } impl < 'a , C > :: linjs :: HasInstance < 'a , C > for FooClass { type Instance = Foo ; }"
    );
    assert_eq!(
        derive_has_class("struct C;").unwrap_err().violation,
        Violation::Collision
    );
}

#[test]
fn has_class_instance_parses_back_to_the_declared_type() {
    let text = derive_has_class("struct Foo<'a, 'b, C, D: Clone>(&'a C, &'b D);").unwrap();
    let start = text.rfind("type Instance = ").unwrap() + "type Instance = ".len();
    let end = text.rfind(" ; }").unwrap();
    let generated = syn::parse_type(&text[start..end]).unwrap();
    let declared = syn::parse_type("Foo<'a, 'b, C, D>").unwrap();
    assert_eq!(generated, declared);
    assert!(text.contains(":: linjs :: HasInstance < 'a , C > for FooClass < 'b , D >"));
}

#[test]
fn match_arms_are_those_of_synstructure() {
    let input = "enum E<T> { A(T, u8), B { x: Vec<T>, y: u8 }, C, D() }";
    let ast = syn::parse_derive_input(input).unwrap();
    let style = synstructure::BindStyle::Ref.into();
    let arms = synstructure::each_field(&ast, &style, |binding| {
        let mut visit = quote::Tokens::new();
        binding.to_tokens(&mut visit);
        for word in [".", "trace", "(", "tracer", ")", ";"] {
            visit.append(word);
        }
        visit
    });
    let text = expand_token_stream(input).unwrap();
    let start = text.find("match * self { ").unwrap() + "match * self { ".len();
    let end = text.len() - " } } }".len();
    assert_eq!(&text[start..end], arms.as_str());
}

#[test]
fn type_arguments_are_those_of_syn() {
    let input = "struct Foo<'a, 'b, T: Clone = u8, U>(&'a T, &'b U) where U: Copy, 'a: 'b;";
    let ast = syn::parse_derive_input(input).unwrap();
    let (_, ty_generics, where_clause) = ast.generics.split_for_impl();
    let mut applied = quote::Tokens::new();
    ast.ident.to_tokens(&mut applied);
    ty_generics.to_tokens(&mut applied);
    let mut constraints = quote::Tokens::new();
    where_clause.to_tokens(&mut constraints);
    let text = derive_has_class(input).unwrap();
    assert!(text.contains(&format!("for {} {} {{", applied.as_str(), constraints.as_str())));
    assert!(text.ends_with(&format!("{{ type Instance = {} ; }}", applied.as_str())));
}

#[test]
fn expand_token_stream_from_text() {
    assert_eq!(
        expand_token_stream("struct P<H, T>(H, T);").unwrap(),
        "# [ allow ( unsafe_code ) ] unsafe impl < H , T > :: linjs :: JSTraceable for P < H , T > where T : :: linjs :: JSTraceable { # [ inline ] # [ allow ( unused_variables , unused_imports ) ] unsafe fn trace ( & self , tracer : * mut :: linjs :: JSTracer ) { use :: linjs :: JSTraceable ; match * self { P ( ref __binding_0 , ref __binding_1 , ) => { { __binding_0 . trace ( tracer ) ; } { __binding_1 . trace ( tracer ) ; } ( ) } } } }"
    );
    let e = expand_token_stream("impl Foo {}").unwrap_err();
    assert_eq!(e.violation, Violation::Malformed);
    assert_eq!(e.capability, Capability::Trace);
}

#[test]
fn lifetime_bounds_are_carried_as_constraints() {
    let input = "struct Foo<'a: 'b + 'c, 'b, 'c>(&'a u8, &'b u8, &'c u8) where 'b: 'c;";
    let d = describe(input, Capability::Trace).unwrap();
    assert_eq!(d.scope_params, vec!["'a".to_string(), "'b".to_string(), "'c".to_string()]);
    assert_eq!(d.where_constraints, vec!["'a : 'b + 'c".to_string(), "'b : 'c".to_string()]);
    let text = derive_has_class("struct Foo<'a: 'b, 'b>(&'a u8, &'b u8);").unwrap();
    assert!(text.starts_with(
        "pub struct FooClass ; impl < 'a , 'b > :: linjs :: HasClass for Foo < 'a , 'b > where 'a : 'b { type Class = FooClass < 'b > ; }"
    ));
}

#[test]
fn assemble_turns_scope_bounds_into_constraints() {
    let scopes = vec![
        TypeParam { name: "'a".to_string(), bounds: vec!["'b".to_string()] },
        TypeParam { name: "'b".to_string(), bounds: Vec::new() },
    ];
    assert_eq!(constrain_bounds(&scopes), vec!["'a : 'b".to_string()]);
    let unit = vec![Variant { name: "Foo".to_string(), shape: Shape::Unit, fields: Vec::new() }];
    let d = assemble(
        Capability::Trace,
        "Foo".to_string(),
        scopes.clone(),
        Vec::new(),
        Kind::Product,
        unit.clone(),
        vec!["'b : 'static".to_string()],
    )
    .unwrap();
    assert_eq!(d.scope_params, vec!["'a".to_string(), "'b".to_string()]);
    assert_eq!(d.where_constraints, vec!["'a : 'b".to_string(), "'b : 'static".to_string()]);
    let e = assemble(
        Capability::Trace,
        "Foo".to_string(),
        scopes,
        Vec::new(),
        Kind::Product,
        Vec::new(),
        Vec::new(),
    )
    .unwrap_err();
    assert_eq!(e.violation, Violation::Malformed);
    assert_eq!(e.offender, "Foo");
}

#[test]
fn describe_with_arms_reads_the_arms_too() {
    let (d, arms) = describe_with_arms("enum E { A(u8), B }").unwrap();
    assert_eq!(d.name, "E");
    assert_eq!(d.variants.len(), 2);
    assert_eq!(
        arms,
        "E :: A ( ref __binding_0 , ) => { { __binding_0 . trace ( tracer ) ; } ( ) } E :: B => { ( ) }"
    );
    let e = describe_with_arms("enum").unwrap_err();
    assert_eq!(e.violation, Violation::Malformed);
    assert_eq!(e.capability, Capability::Trace);
    assert!(e.offender.is_empty());
    assert!(!e.detail.is_empty());
}

#[test]
fn unparsable_text_is_refused_by_every_derive() {
    for text in ["", "fn f() {}", "struct", "enum E { A(", "let x = 1;"] {
        for refusal in [
            derive_js_rootable(text).unwrap_err(),
            derive_js_transplantable(text).unwrap_err(),
            derive_has_class(text).unwrap_err(),
            expand_token_stream(text).unwrap_err(),
        ] {
            assert_eq!(refusal.violation, Violation::Malformed);
            assert!(refusal.offender.is_empty());
            assert!(refusal.message().starts_with("deriving "));
        }
    }
}
