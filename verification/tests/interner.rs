use std::sync::Arc;

use repo_analyzer::interner::Interner;

#[test]
fn interns_same_value_to_same_arc() {
    let i = Interner::new();
    let a = i.intern("hello");
    let b = i.intern("hello");
    assert!(Arc::ptr_eq(&a, &b));
    assert_eq!(i.len(), 1);
}

#[test]
fn distinct_values_get_distinct_arcs() {
    let i = Interner::new();
    let a = i.intern("foo");
    let b = i.intern("bar");
    assert!(!Arc::ptr_eq(&a, &b));
    assert_eq!(i.len(), 2);
}

#[test]
fn deref_works() {
    let i = Interner::new();
    let a = i.intern("hello");
    assert_eq!(&*a, "hello");
}


#[test]
fn a_new_interner_is_empty() {
    let i = Interner::new();
    assert!(i.is_empty());
    let _ = i.intern("x");
    assert!(!i.is_empty());
}
