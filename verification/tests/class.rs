use linjs_derive::class::{impl_has_class, pair, split_names};
use linjs_derive::descriptor::{Kind, Shape, TypeDescriptor, TypeParam, Variant};
use linjs_derive::error::{Capability, Violation};
use linjs_derive::reparse::{read_applied, read_body};
use linjs_derive::split::split_text;

fn generic(name: &str, scopes: &[&str], types: &[&str]) -> TypeDescriptor {
    TypeDescriptor {
        name: name.to_string(),
        scope_params: scopes.iter().map(|s| s.to_string()).collect(),
        type_params: types
            .iter()
            .map(|t| TypeParam { name: t.to_string(), bounds: Vec::new() })
            .collect(),
        kind: Kind::Product,
        variants: vec![Variant { name: name.to_string(), shape: Shape::Unit, fields: Vec::new() }],
        where_constraints: Vec::new(),
    }
}

fn strings(items: &[&str]) -> Vec<String> {
    items.iter().map(|s| s.to_string()).collect()
}

#[test]
fn split_leading_takes_the_first_or_the_fallback() {
    let (leading, rest) = split_names(&strings(&["'a", "'b", "'c"]), "'z");
    assert_eq!(leading, "'a");
    assert_eq!(rest, strings(&["'b", "'c"]));
    let (leading, rest) = split_names(&strings(&["T"]), "C");
    assert_eq!(leading, "T");
    assert!(rest.is_empty());
    let (leading, rest) = split_names(&Vec::new(), "C");
    assert_eq!(leading, "C");
    assert!(rest.is_empty());
}

#[test]
fn has_class_without_parameters_stands_on_defaults() {
    let d = generic("Foo", &[], &[]);
    let pairing = pair(&d).unwrap();
    assert_eq!(pairing.marker, "FooClass");
    assert_eq!(pairing.forward.bound.name, "FooClass");
    assert!(pairing.forward.bound.scopes.is_empty());
    assert!(pairing.forward.bound.types.is_empty());
    assert_eq!(pairing.reverse.header.scopes, strings(&["'a"]));
    assert_eq!(pairing.reverse.header.types.len(), 1);
    assert_eq!(pairing.reverse.header.types[0].name, "C");
    assert!(pairing.reverse.header.types[0].bounds.is_empty());
    assert_eq!(pairing.reverse.header.witness_scopes, strings(&["'a"]));
    assert_eq!(pairing.reverse.header.witness_types, strings(&["C"]));
    assert_eq!(pairing.reverse.bound.name, "Foo");
    assert!(pairing.reverse.bound.scopes.is_empty());
    assert!(pairing.reverse.bound.types.is_empty());
    assert_eq!(
        impl_has_class(&d).unwrap().as_str(),
        "pub struct FooClass ; impl :: linjs :: HasClass for Foo { type Class = FooClass ; } impl < 'a , C > :: linjs :: HasInstance < 'a , C > for FooClass { type Instance = Foo ; }"
    );
}

#[test]
fn has_class_splits_leading_from_class_parameters() {
    let mut d = generic("Foo", &["'a", "'b"], &["C", "D"]);
    d.type_params[1].bounds.push("Clone".to_string());
    d.where_constraints.push("C : 'a".to_string());
    let pairing = pair(&d).unwrap();
    assert_eq!(pairing.forward.bound.scopes, strings(&["'b"]));
    assert_eq!(pairing.forward.bound.types, strings(&["D"]));
    assert_eq!(pairing.reverse.header.witness_scopes, strings(&["'a"]));
    assert_eq!(pairing.reverse.header.witness_types, strings(&["C"]));
    assert_eq!(
        pairing.to_tokens().as_str(),
        "pub struct FooClass ; impl < 'a , 'b , C , D : Clone > :: linjs :: HasClass for Foo < 'a , 'b , C , D > where C : 'a { type Class = FooClass < 'b , D > ; } impl < 'a , 'b , C , D : Clone > :: linjs :: HasInstance < 'a , C > for FooClass < 'b , D > where C : 'a { type Instance = Foo < 'a , 'b , C , D > ; }"
    );
}

#[test]
fn has_class_with_scope_only_defaults_the_type() {
    let d = generic("Foo", &["'x"], &[]);
    assert_eq!(
        impl_has_class(&d).unwrap().as_str(),
        "pub struct FooClass ; impl < 'x > :: linjs :: HasClass for Foo < 'x > { type Class = FooClass ; } impl < 'x , C > :: linjs :: HasInstance < 'x , C > for FooClass { type Instance = Foo < 'x > ; }"
    );
}

#[test]
fn has_class_refuses_taken_names() {
    let d = generic("Foo", &[], &["FooClass"]);
    let e = impl_has_class(&d).unwrap_err();
    assert_eq!(e.violation, Violation::Collision);
    assert_eq!(e.capability, Capability::ClassAssociation);
    assert_eq!(
        e.message(),
        "Foo: deriving HasClass requires names that the generated code does not take"
    );
    let named = generic("C", &[], &[]);
    assert_eq!(pair(&named).unwrap_err().violation, Violation::Collision);
    let declared = generic("C", &[], &["T"]);
    assert!(pair(&declared).is_ok());
}

#[test]
fn has_class_refuses_a_malformed_description() {
    let d = generic("Foo Bar", &[], &[]);
    let e = impl_has_class(&d).unwrap_err();
    assert_eq!(e.violation, Violation::Malformed);
    assert_eq!(e.message(), "Foo Bar: deriving HasClass requires a well-formed type declaration");
}

#[test]
fn has_class_round_trip_reproduces_the_instance_type() {
    let d = generic("Foo", &["'a", "'b"], &["C", "D"]);
    let pairing = pair(&d).unwrap();
    let text = pairing.reverse.bound.to_tokens().into_string();
    assert_eq!(text, "Foo < 'a , 'b , C , D >");
    let tokens = split_text(&text);
    assert_eq!(tokens, strings(&["Foo", "<", "'a", ",", "'b", ",", "C", ",", "D", ">"]));
    let read = read_applied(&tokens).unwrap();
    assert_eq!(read.name, d.name);
    assert_eq!(read.scopes, d.scope_params);
    assert_eq!(read.types, strings(&["C", "D"]));

    let body = strings(&["{", "type", "Instance", "=", "Foo", "<", "'a", ",", "C", ">", ";", "}"]);
    let (binding, bound) = read_body(&body).unwrap();
    assert_eq!(binding, "Instance");
    assert_eq!(bound.name, "Foo");
    assert_eq!(bound.scopes, strings(&["'a"]));
    assert_eq!(bound.types, strings(&["C"]));
}

#[test]
fn reading_refuses_what_is_no_applied_type() {
    assert!(read_applied(&Vec::new()).is_none());
    assert!(read_applied(&strings(&["Foo", "<", ">"])).is_none());
    assert!(read_applied(&strings(&["Foo", "<", "T", ",", ">"])).is_none());
    assert!(read_applied(&strings(&["Foo", "(", "T", ")"])).is_none());
    assert!(read_applied(&strings(&["Foo", "<", "T", ",", "'a", ">"])).is_none());
    assert!(read_applied(&strings(&["Foo", "<", "T", ";", "U", ">"])).is_none());
    assert!(read_body(&strings(&["{", "type", "X", "=", "Foo", "}"])).is_none());
    let bare = read_applied(&strings(&["Foo"])).unwrap();
    assert_eq!(bare.name, "Foo");
    assert!(bare.scopes.is_empty() && bare.types.is_empty());
}

#[test]
fn splitting_takes_text_apart_at_spaces() {
    assert!(split_text("").is_empty());
    assert_eq!(split_text("Foo"), strings(&["Foo"]));
    assert_eq!(split_text("a  b"), strings(&["a", "", "b"]));
    assert_eq!(split_text("a "), strings(&["a"]));
    assert_eq!(split_text(" a"), strings(&["", "a"]));
}
