use linjs_derive::descriptor::{Field, Kind, Shape, TypeDescriptor, TypeParam, Variant};
use linjs_derive::error::{Capability, Violation};
use linjs_derive::trace::{expand_string, visit_statement};
use linjs_derive::expand_token_stream;

const OPENING: &str = "{ # [ inline ] # [ allow ( unused_variables , unused_imports ) ] unsafe fn trace ( & self , tracer : * mut :: linjs :: JSTracer ) { use :: linjs :: JSTraceable ; match * self {";

fn positional(ty: &str) -> Field {
    Field { name: None, ty: ty.to_string() }
}

fn type_params(names: &[&str]) -> Vec<TypeParam> {
    names.iter().map(|t| TypeParam { name: t.to_string(), bounds: Vec::new() }).collect()
}

fn pair_struct() -> TypeDescriptor {
    TypeDescriptor {
        name: "P".to_string(),
        scope_params: vec!["'a".to_string()],
        type_params: type_params(&["H", "T", "U"]),
        kind: Kind::Product,
        variants: vec![Variant {
            name: "P".to_string(),
            shape: Shape::Tuple,
            fields: vec![positional("& 'a H"), positional("T")],
        }],
        where_constraints: vec!["H : 'a".to_string()],
    }
}

/// The arms of the match in a generated implementation, one string each.
fn arms_of(text: &str) -> Vec<String> {
    let start = text.find(OPENING).unwrap() + OPENING.len();
    let end = text.len() - "} } }".len();
    text[start..end]
        .split("( ) }")
        .map(|arm| arm.trim().to_string())
        .filter(|arm| !arm.is_empty())
        .collect()
}

#[test]
fn trace_of_a_variant_touches_the_fields_of_that_variant_only() {
    let text = expand_token_stream("enum E { A { x: X, y: Y }, B(Z) }").unwrap();
    let arms = arms_of(&text);
    assert_eq!(arms.len(), 2);
    assert_eq!(
        arms[0],
        "E :: A { x : ref __binding_0 , y : ref __binding_1 , } => { { __binding_0 . trace ( tracer ) ; } { __binding_1 . trace ( tracer ) ; }"
    );
    assert_eq!(arms[1], "E :: B ( ref __binding_0 , ) => { { __binding_0 . trace ( tracer ) ; }");
    assert_eq!(arms[0].matches("trace ( tracer )").count(), 2);
    assert_eq!(arms[1].matches("trace ( tracer )").count(), 1);
}

#[test]
fn trace_text_of_a_sum_type() {
    assert_eq!(
        expand_token_stream("enum E { A { x: X, y: Y }, B(Z) }").unwrap(),
        "# [ allow ( unsafe_code ) ] unsafe impl :: linjs :: JSTraceable for E { # [ inline ] # [ allow ( unused_variables , unused_imports ) ] unsafe fn trace ( & self , tracer : * mut :: linjs :: JSTracer ) { use :: linjs :: JSTraceable ; match * self { E :: A { x : ref __binding_0 , y : ref __binding_1 , } => { { __binding_0 . trace ( tracer ) ; } { __binding_1 . trace ( tracer ) ; } ( ) } E :: B ( ref __binding_0 , ) => { { __binding_0 . trace ( tracer ) ; } ( ) } } } }"
    );
}

#[test]
fn trace_text_around_given_arms() {
    let d = pair_struct();
    assert_eq!(
        expand_string(&d, "P ( .. ) => { }").unwrap(),
        "# [ allow ( unsafe_code ) ] unsafe impl < 'a , H , T , U > :: linjs :: JSTraceable for P < 'a , H , T , U > where H : 'a , T : :: linjs :: JSTraceable , U : :: linjs :: JSTraceable { # [ inline ] # [ allow ( unused_variables , unused_imports ) ] unsafe fn trace ( & self , tracer : * mut :: linjs :: JSTracer ) { use :: linjs :: JSTraceable ; match * self { P ( .. ) => { } } } }"
    );
    let text = expand_string(&d, "").unwrap();
    assert!(text.ends_with("match * self { } } }"));
}

#[test]
fn trace_text_of_a_product_type() {
    assert_eq!(
        expand_token_stream("struct P<'a, H: 'a, T, U>(&'a H, T);").unwrap(),
        "# [ allow ( unsafe_code ) ] unsafe impl < 'a , H : 'a , T , U > :: linjs :: JSTraceable for P < 'a , H , T , U > where T : :: linjs :: JSTraceable , U : :: linjs :: JSTraceable { # [ inline ] # [ allow ( unused_variables , unused_imports ) ] unsafe fn trace ( & self , tracer : * mut :: linjs :: JSTracer ) { use :: linjs :: JSTraceable ; match * self { P ( ref __binding_0 , ref __binding_1 , ) => { { __binding_0 . trace ( tracer ) ; } { __binding_1 . trace ( tracer ) ; } ( ) } } } }"
    );
}

#[test]
fn trace_leaves_the_first_type_parameter_unconstrained() {
    let one = expand_token_stream("struct S<T>(T);").unwrap();
    assert!(one.starts_with(
        "# [ allow ( unsafe_code ) ] unsafe impl < T > :: linjs :: JSTraceable for S < T > { # [ inline ]"
    ));
    let two = expand_token_stream("struct S<T, U>(T, U);").unwrap();
    assert!(two.starts_with(
        "# [ allow ( unsafe_code ) ] unsafe impl < T , U > :: linjs :: JSTraceable for S < T , U > where U : :: linjs :: JSTraceable { # [ inline ]"
    ));
}

#[test]
fn trace_of_a_type_without_fields_or_variants() {
    let text = expand_token_stream("struct U;").unwrap();
    assert!(text.ends_with("match * self { U => { ( ) } } } }"));
    let text = expand_token_stream("struct U();").unwrap();
    assert!(text.ends_with("match * self { U ( ) => { ( ) } } } }"));
    let text = expand_token_stream("enum Never {}").unwrap();
    assert!(text.ends_with("match * self { } } }"));
}

#[test]
fn trace_refuses_a_malformed_description() {
    let mut d = pair_struct();
    d.variants[0].fields.push(Field { name: Some("z".to_string()), ty: "Z".to_string() });
    let e = expand_string(&d, "").unwrap_err();
    assert_eq!(e.violation, Violation::Malformed);
    assert_eq!(e.capability, Capability::Trace);
    assert_eq!(e.offender, "P");
    assert_eq!(e.message(), "P: deriving JSTraceable requires a well-formed type declaration");
    let e = expand_token_stream("struct S<T, T>(T);").unwrap_err();
    assert_eq!(e.violation, Violation::Malformed);
    assert_eq!(e.offender, "S");
}

#[test]
fn visit_statement_has_the_binding_traced() {
    assert_eq!(visit_statement("__binding_3").as_str(), "__binding_3 . trace ( tracer ) ;");
}

#[test]
fn trace_binds_more_than_ten_fields_apart() {
    let text = expand_token_stream(
        "struct Wide(u8, u8, u8, u8, u8, u8, u8, u8, u8, u8, u8, u8);",
    )
    .unwrap();
    for i in 0..12 {
        assert_eq!(text.matches(&format!("ref __binding_{} ,", i)).count(), 1);
        assert_eq!(text.matches(&format!("{{ __binding_{} . trace ( tracer ) ; }}", i)).count(), 1);
    }
    assert!(!text.contains("__binding_12"));
}
