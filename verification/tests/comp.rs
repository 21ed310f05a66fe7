use gbaemu_core::comp::source::{Location, SourceTextId, Span, StringId, StringInterner};
use gbaemu_core::comp::types::TypeId;
use gbaemu_core::comp::variables::Variables;

fn here() -> Location {
    Location { span: Span { start: 0, len: 1 }, file: SourceTextId(0) }
}

#[test]
fn interning_twice_gives_the_same_id() {
    let mut interner = StringInterner::new();
    let a = interner.intern("alpha".to_string());
    let b = interner.intern("beta".to_string());
    let a2 = interner.intern("alpha".to_string());
    assert_eq!(a, a2);
    assert_ne!(a, b);
    assert_eq!(interner.get(a), "alpha");
    assert_eq!(interner.get(b), "beta");
    assert_eq!(b, StringId(1));
}

#[test]
fn registered_variable_is_found_by_name() {
    let mut variables = Variables::new();
    let name = StringId(3);
    let id = variables.register(here(), &[], name, TypeId(1), true).unwrap();
    let found = variables.find_by_name(name).unwrap();
    assert_eq!(found.id, id);
    assert!(variables.find_by_name(StringId(4)).is_none());
}

#[test]
fn unshadowable_variable_cannot_be_declared_twice() {
    let mut variables = Variables::new();
    let name = StringId(3);
    assert!(variables.register(here(), &[], name, TypeId(1), false).is_some());
    assert!(variables.register(here(), &[], name, TypeId(2), true).is_none());
    // another namespace does not clash
    assert!(variables.register(here(), &[StringId(9)], name, TypeId(2), true).is_some());
}

#[test]
fn opening_and_closing_a_scope() {
    let mut variables = Variables::new();
    let outer = StringId(1);
    let inner = StringId(2);
    let outer_id = variables.register(here(), &[], outer, TypeId(1), false).unwrap();
    let before = variables.active_scope;
    variables.start_scope();
    assert_eq!(variables.find_by_name(outer).unwrap().id, outer_id);
    let inner_id = variables.register(here(), &[], inner, TypeId(1), true).unwrap();
    // shadowing the outer variable inside the scope is allowed
    let shadow_id = variables.register(here(), &[], outer, TypeId(2), true).unwrap();
    assert_eq!(variables.find_by_name(outer).unwrap().id, shadow_id);
    assert_eq!(variables.find_by_name(inner).unwrap().id, inner_id);
    variables.end_scope();
    assert_eq!(variables.active_scope, before);
    assert_eq!(variables.find_by_name(outer).unwrap().id, outer_id);
    assert!(variables.find_by_name(inner).is_none());
}
