use linjs_derive::descriptor::{Kind, Shape, TypeDescriptor, TypeParam, Variant};
use linjs_derive::error::{Capability, Violation};
use linjs_derive::transplantable::{impl_js_transplantable, transplant, transplant_afresh};

fn generic(name: &str, scopes: &[&str], types: &[&str]) -> TypeDescriptor {
    TypeDescriptor {
        name: name.to_string(),
        scope_params: scopes.iter().map(|s| s.to_string()).collect(),
        type_params: types
            .iter()
            .map(|t| TypeParam { name: t.to_string(), bounds: Vec::new() })
            .collect(),
        kind: Kind::Product,
        variants: vec![Variant { name: name.to_string(), shape: Shape::Unit, fields: Vec::new() }],
        where_constraints: Vec::new(),
    }
}

#[test]
fn transplantable_substitutes_the_heap_only() {
    let mut d = generic("Foo", &["'a", "'c"], &["C"]);
    d.type_params[0].bounds.push("Heap".to_string());
    d.where_constraints.push("C : 'a".to_string());
    let block = transplant(&d, "Z").unwrap();
    assert_eq!(block.header.subject.name, "Foo");
    assert_eq!(block.header.subject.scopes, vec!["'a".to_string(), "'c".to_string()]);
    assert_eq!(block.header.subject.types, vec!["C".to_string()]);
    assert_eq!(block.bound.name, "Foo");
    assert_eq!(block.bound.scopes, block.header.subject.scopes);
    assert_eq!(block.bound.types, vec!["Z".to_string()]);
    assert_eq!(block.header.constraints, vec!["C : 'a".to_string()]);
    let tokens = impl_js_transplantable(&d).unwrap();
    assert_eq!(
        tokens.as_str(),
        "# [ allow ( unsafe_code ) ] unsafe impl < 'a , 'c , C : Heap , Z > :: linjs :: JSTransplantable < Z > for Foo < 'a , 'c , C > where C : 'a { type Transplanted = Foo < 'a , 'c , Z > ; }"
    );
}

#[test]
fn transplantable_without_scope() {
    let d = generic("Foo", &[], &["C"]);
    let tokens = impl_js_transplantable(&d).unwrap();
    assert_eq!(
        tokens.as_str(),
        "# [ allow ( unsafe_code ) ] unsafe impl < C , Z > :: linjs :: JSTransplantable < Z > for Foo < C > { type Transplanted = Foo < Z > ; }"
    );
}

#[test]
fn transplantable_without_type_parameter_is_refused() {
    let d = generic("Foo", &["'a"], &[]);
    let e = impl_js_transplantable(&d).unwrap_err();
    assert_eq!(e.violation, Violation::Arity);
    assert_eq!(e.capability, Capability::Transplantable);
    assert_eq!(e.message(), "Foo: deriving JSTransplantable requires a single type parameter");
}

#[test]
fn transplantable_with_two_type_parameters_is_refused() {
    let d = generic("Foo", &[], &["C", "D"]);
    assert_eq!(impl_js_transplantable(&d).unwrap_err().violation, Violation::Arity);
    assert_eq!(transplant_afresh(&d).unwrap_err().violation, Violation::Arity);
}

#[test]
fn transplantable_with_the_reserved_name_is_refused() {
    let d = generic("Foo", &[], &["Z"]);
    let e = impl_js_transplantable(&d).unwrap_err();
    assert_eq!(e.violation, Violation::Collision);
    assert_eq!(
        e.message(),
        "Foo: deriving JSTransplantable requires the type parameter to not be named Z"
    );
    let named = generic("Z", &[], &["C"]);
    assert_eq!(impl_js_transplantable(&named).unwrap_err().violation, Violation::Collision);
}

#[test]
fn transplantable_with_a_fresh_heap_never_collides() {
    let d = generic("Foo", &["'a"], &["Z"]);
    let block = transplant_afresh(&d).unwrap();
    assert_eq!(block.bound.types, vec!["Z____".to_string()]);
    assert_eq!(block.bound.scopes, vec!["'a".to_string()]);
    let free = generic("Foo", &[], &["C"]);
    assert_eq!(transplant_afresh(&free).unwrap().bound.types, vec!["Z".to_string()]);
}

#[test]
fn transplantable_with_a_chosen_heap() {
    let d = generic("Foo", &[], &["C"]);
    assert_eq!(transplant(&d, "Other").unwrap().bound.types, vec!["Other".to_string()]);
    assert_eq!(transplant(&d, "'z").unwrap_err().violation, Violation::Malformed);
    assert_eq!(transplant(&d, "9").unwrap_err().violation, Violation::Malformed);
    assert_eq!(transplant(&d, "C").unwrap_err().violation, Violation::Collision);
}
