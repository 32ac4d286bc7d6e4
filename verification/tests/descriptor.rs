use linjs_derive::descriptor::{contains_name, Field, Kind, Shape, TypeDescriptor, TypeParam, Variant};
use linjs_derive::fresh::fresh_identifier;
use linjs_derive::lexical::{check_identifier, check_scope_label, check_text, ident_char};
use linjs_derive::model::{AppliedType, declare_params};

fn strings(items: &[&str]) -> Vec<String> {
    items.iter().map(|s| s.to_string()).collect()
}

fn sample() -> TypeDescriptor {
    TypeDescriptor {
        name: "Foo".to_string(),
        scope_params: strings(&["'a"]),
        type_params: vec![
            TypeParam { name: "T".to_string(), bounds: strings(&["Clone", "Send"]) },
            TypeParam { name: "U".to_string(), bounds: Vec::new() },
        ],
        kind: Kind::Product,
        variants: vec![Variant {
            name: "Foo".to_string(),
            shape: Shape::Named,
            fields: vec![Field { name: Some("x".to_string()), ty: "T".to_string() }],
        }],
        where_constraints: strings(&["U : Copy"]),
    }
}

#[test]
fn identifiers_and_labels() {
    assert!(check_identifier("Foo"));
    assert!(check_identifier("_x9"));
    assert!(check_identifier("Größe"));
    assert!(!check_identifier(""));
    assert!(!check_identifier("9x"));
    assert!(!check_identifier("a b"));
    assert!(!check_identifier("'a"));
    assert!(!check_identifier("a<b"));
    assert!(check_scope_label("'a"));
    assert!(check_scope_label("'static_"));
    assert!(!check_scope_label("'"));
    assert!(!check_scope_label("a"));
    assert!(!check_scope_label("'9"));
    assert!(!check_scope_label("''a"));
    assert!(check_text("x"));
    assert!(!check_text(""));
    assert!(ident_char('_') && ident_char('z') && ident_char('A') && ident_char('0'));
    assert!(ident_char('é'));
    assert!(!ident_char(' ') && !ident_char('\'') && !ident_char('<') && !ident_char('~'));
}

#[test]
fn a_well_formed_description() {
    let d = sample();
    assert!(d.is_well_formed());
    assert_eq!(d.type_names(), strings(&["T", "U"]));
    assert_eq!(d.declared(), strings(&["Foo", "'a", "T", "U"]));
    assert!(d.declares("Foo") && d.declares("'a") && d.declares("U"));
    assert!(!d.declares("x") && !d.declares("'b"));
    let applied = d.applied();
    assert_eq!(applied.name, "Foo");
    assert_eq!(applied.scopes, strings(&["'a"]));
    assert_eq!(applied.types, strings(&["T", "U"]));
    assert_eq!(applied.to_tokens().as_str(), "Foo < 'a , T , U >");
    assert_eq!(declare_params(&d.type_params), strings(&["T : Clone + Send", "U"]));
}

#[test]
fn applied_types_as_text() {
    let bare = AppliedType { name: "Foo".to_string(), scopes: Vec::new(), types: Vec::new() };
    assert_eq!(bare.to_tokens().as_str(), "Foo");
    let scoped = AppliedType { name: "Foo".to_string(), scopes: strings(&["'a"]), types: Vec::new() };
    assert_eq!(scoped.to_tokens().as_str(), "Foo < 'a >");
    let typed = AppliedType { name: "Foo".to_string(), scopes: Vec::new(), types: strings(&["T"]) };
    assert_eq!(typed.to_tokens().as_str(), "Foo < T >");
}

#[test]
fn what_makes_a_description_malformed() {
    let mut d = sample();
    d.name = "Foo!".to_string();
    assert!(!d.is_well_formed());
    let mut d = sample();
    d.scope_params = strings(&["'a", "'a"]);
    assert!(!d.is_well_formed());
    let mut d = sample();
    d.scope_params = strings(&["a"]);
    assert!(!d.is_well_formed());
    let mut d = sample();
    d.type_params[1].name = "T".to_string();
    assert!(!d.is_well_formed());
    let mut d = sample();
    d.type_params[0].bounds.push(String::new());
    assert!(!d.is_well_formed());
    let mut d = sample();
    d.where_constraints.push(String::new());
    assert!(!d.is_well_formed());
    let mut d = sample();
    d.variants.clear();
    assert!(!d.is_well_formed());
    d.kind = Kind::Sum;
    assert!(d.is_well_formed());
    let mut d = sample();
    d.variants[0].fields[0].name = None;
    assert!(!d.is_well_formed());
    d.variants[0].shape = Shape::Tuple;
    assert!(d.is_well_formed());
    d.variants[0].shape = Shape::Unit;
    assert!(!d.is_well_formed());
    let mut d = sample();
    d.variants[0].fields[0].ty = String::new();
    assert!(!d.is_well_formed());
    let mut d = sample();
    d.variants[0].name = String::new();
    assert!(!d.is_well_formed());
}

#[test]
fn fresh_identifiers_are_free() {
    let taken = strings(&["Foo", "'b", "Z"]);
    assert!(contains_name(&taken, "Z"));
    assert!(!contains_name(&taken, "z"));
    assert_eq!(fresh_identifier(&taken, "Y"), "Y");
    assert_eq!(fresh_identifier(&taken, "Z"), "Z____");
    assert_eq!(fresh_identifier(&taken, "'b"), "'b____");
    assert_eq!(fresh_identifier(&Vec::new(), "Z"), "Z");
    let crowded = strings(&["Z", "Z_", "Z__"]);
    let fresh = fresh_identifier(&crowded, "Z");
    assert_eq!(fresh, "Z____");
    assert!(!contains_name(&crowded, &fresh));
}
