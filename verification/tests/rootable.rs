use linjs_derive::descriptor::{Kind, Shape, TypeDescriptor, TypeParam, Variant};
use linjs_derive::error::{Capability, Violation};
use linjs_derive::rootable::{aging, aging_afresh, impl_js_rootable};

fn unit_struct(name: &str, scopes: &[&str], types: &[(&str, &[&str])]) -> TypeDescriptor {
    TypeDescriptor {
        name: name.to_string(),
        scope_params: scopes.iter().map(|s| s.to_string()).collect(),
        type_params: types
            .iter()
            .map(|(t, bounds)| TypeParam {
                name: t.to_string(),
                bounds: bounds.iter().map(|b| b.to_string()).collect(),
            })
            .collect(),
        kind: Kind::Product,
        variants: vec![Variant { name: name.to_string(), shape: Shape::Unit, fields: Vec::new() }],
        where_constraints: Vec::new(),
    }
}

#[test]
fn rootable_without_scope_is_identity() {
    let d = unit_struct("Foo", &[], &[("T", &[])]);
    let block = aging(&d, "'b").unwrap();
    assert_eq!(block.bound.name, block.header.subject.name);
    assert_eq!(block.bound.scopes, block.header.subject.scopes);
    assert_eq!(block.bound.types, block.header.subject.types);
    assert_eq!(block.bound.name, "Foo");
    assert!(block.bound.scopes.is_empty());
    assert_eq!(block.bound.types, vec!["T".to_string()]);
    let tokens = impl_js_rootable(&d).unwrap();
    assert_eq!(
        tokens.as_str(),
        "# [ allow ( unsafe_code ) ] unsafe impl < 'a , T > :: linjs :: JSRootable < 'a > for Foo < T > { type Aged = Foo < T > ; }"
    );
}

#[test]
fn rootable_without_any_parameter() {
    let d = unit_struct("Foo", &[], &[]);
    let tokens = impl_js_rootable(&d).unwrap();
    assert_eq!(
        tokens.as_str(),
        "# [ allow ( unsafe_code ) ] unsafe impl < 'a > :: linjs :: JSRootable < 'a > for Foo { type Aged = Foo ; }"
    );
}

#[test]
fn rootable_with_one_scope_substitutes_the_scope_only() {
    let d = unit_struct("Foo", &["'a"], &[]);
    let block = aging(&d, "'b").unwrap();
    assert_eq!(block.header.subject.name, "Foo");
    assert_eq!(block.header.subject.scopes, vec!["'a".to_string()]);
    assert_eq!(block.bound.name, "Foo");
    assert_eq!(block.bound.scopes, vec!["'b".to_string()]);
    assert!(block.bound.types.is_empty());
    assert!(block.header.constraints.is_empty());
    let tokens = impl_js_rootable(&d).unwrap();
    assert_eq!(
        tokens.as_str(),
        "# [ allow ( unsafe_code ) ] unsafe impl < 'a , 'b > :: linjs :: JSRootable < 'b > for Foo < 'a > { type Aged = Foo < 'b > ; }"
    );
}

#[test]
fn rootable_constrains_every_type_parameter() {
    let mut d = unit_struct("Foo", &["'a"], &[("T", &["Clone", "Into < String >"]), ("U", &[])]);
    d.where_constraints.push("U : Copy".to_string());
    let tokens = impl_js_rootable(&d).unwrap();
    assert_eq!(
        tokens.as_str(),
        "# [ allow ( unsafe_code ) ] unsafe impl < 'a , 'b , T : Clone + Into < String > , U > :: linjs :: JSRootable < 'b > for Foo < 'a , T , U > where T : 'b , U : 'b , U : Copy { type Aged = Foo < 'b , T , U > ; }"
    );
}

#[test]
fn rootable_with_two_scopes_is_refused() {
    let d = unit_struct("Foo", &["'a", "'c"], &[]);
    let e = impl_js_rootable(&d).unwrap_err();
    assert_eq!(e.violation, Violation::Arity);
    assert_eq!(e.capability, Capability::Rootable);
    assert_eq!(e.offender, "Foo");
    assert_eq!(e.message(), "Foo: deriving JSRootable requires a single lifetime");
    assert!(aging_afresh(&d).is_err());
}

#[test]
fn rootable_with_the_reserved_scope_is_refused() {
    let d = unit_struct("Foo", &["'b"], &[]);
    let e = impl_js_rootable(&d).unwrap_err();
    assert_eq!(e.violation, Violation::Collision);
    assert_eq!(
        e.message(),
        "Foo: deriving JSRootable requires the lifetime to not be named 'b"
    );
}

#[test]
fn rootable_with_a_fresh_scope_never_collides() {
    let d = unit_struct("Foo", &["'b"], &[]);
    let block = aging_afresh(&d).unwrap();
    assert_eq!(block.bound.scopes, vec!["'b____".to_string()]);
    assert_eq!(block.header.scopes, vec!["'b".to_string(), "'b____".to_string()]);
    let free = unit_struct("Foo", &["'a"], &[]);
    assert_eq!(aging_afresh(&free).unwrap().bound.scopes, vec!["'b".to_string()]);
}

#[test]
fn rootable_with_a_chosen_scope() {
    let d = unit_struct("Foo", &["'b"], &[("T", &[])]);
    let block = aging(&d, "'root").unwrap();
    assert_eq!(
        block.to_tokens().as_str(),
        "# [ allow ( unsafe_code ) ] unsafe impl < 'b , 'root , T > :: linjs :: JSRootable < 'root > for Foo < 'b , T > where T : 'root { type Aged = Foo < 'root , T > ; }"
    );
    assert_eq!(aging(&d, "root").unwrap_err().violation, Violation::Malformed);
    assert_eq!(aging(&d, "'b").unwrap_err().violation, Violation::Collision);
}

#[test]
fn rootable_refuses_a_malformed_description() {
    let d = unit_struct("", &[], &[]);
    assert_eq!(impl_js_rootable(&d).unwrap_err().violation, Violation::Malformed);
    let d = unit_struct("Foo", &["a"], &[]);
    assert_eq!(impl_js_rootable(&d).unwrap_err().violation, Violation::Malformed);
    let d = unit_struct("Foo", &[], &[("T", &[]), ("T", &[])]);
    let e = impl_js_rootable(&d).unwrap_err();
    assert_eq!(e.violation, Violation::Malformed);
    assert_eq!(e.message(), "Foo: deriving JSRootable requires a well-formed type declaration");
}
