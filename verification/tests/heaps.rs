use oxischeme::environment::Environment;
use oxischeme::heap::Heap;
use oxischeme::value::{ActivationPtr, Cons, ConsPtr, Procedure, ProcedurePtr, StringPtr, Value};

#[test]
fn fresh_heap() {
    let heap = Heap::new();
    assert_eq!(heap.step_limit(), u64::MAX);
    assert_eq!(heap.depth_limit(), 256);
    assert_eq!(heap.global_activation(), ActivationPtr { index: 0 });
    assert_eq!(heap.environment().depth(), 1);
    assert_eq!(heap.environment().innermost_len(), 0);
    assert!(heap.has_activation(heap.global_activation()));
    assert!(!heap.has_activation(ActivationPtr { index: 1 }));
    assert!(!heap.contains(Value::Pair(ConsPtr { index: 0 })));
    assert!(!heap.contains(Value::Procedure(ProcedurePtr { index: 0 })));
    assert!(heap.contains(Value::new_integer(1)));
    assert!(heap.contains(heap.unspecified_symbol()));
}

#[test]
fn well_known_symbols_have_their_names() {
    let heap = Heap::new();
    let name = |v: Value| heap.string(v.to_symbol().unwrap()).clone();
    assert_eq!(name(heap.quote_symbol()), "quote");
    assert_eq!(name(heap.if_symbol()), "if");
    assert_eq!(name(heap.begin_symbol()), "begin");
    assert_eq!(name(heap.define_symbol()), "define");
    assert_eq!(name(heap.set_bang_symbol()), "set!");
    assert_eq!(name(heap.lambda_symbol()), "lambda");
    assert_eq!(name(heap.unspecified_symbol()), "unspecified");
}

#[test]
fn well_known_symbols_are_interned() {
    let mut heap = Heap::new();
    assert_eq!(heap.get_or_create_symbol("quote"), heap.quote_symbol());
    assert_eq!(heap.get_or_create_symbol("if"), heap.if_symbol());
    assert_eq!(heap.get_or_create_symbol("begin"), heap.begin_symbol());
    assert_eq!(heap.get_or_create_symbol("define"), heap.define_symbol());
    assert_eq!(heap.get_or_create_symbol("set!"), heap.set_bang_symbol());
    assert_eq!(heap.get_or_create_symbol("lambda"), heap.lambda_symbol());
}

#[test]
fn the_unspecified_value_is_no_interned_symbol() {
    let mut heap = Heap::new();
    assert_ne!(heap.get_or_create_symbol("unspecified"), heap.unspecified_symbol());
}

#[test]
fn interning_gives_one_symbol_per_name() {
    let mut heap = Heap::new();
    let a = heap.get_or_create_symbol("alpha");
    let b = heap.get_or_create_symbol("beta");
    let again = heap.get_or_create_symbol("alpha");
    assert_eq!(a, again);
    assert_ne!(a, b);
    assert_eq!(heap.string(a.to_symbol().unwrap()), "alpha");
    assert_eq!(heap.string(b.to_symbol().unwrap()), "beta");
}

#[test]
fn allocation_gives_empty_records() {
    let mut heap = Heap::new();
    let c = heap.allocate_cons();
    assert_eq!(heap.cons(c), Cons::default());
    let p = heap.allocate_procedure();
    assert_eq!(heap.procedure(p), Procedure::default());
    assert_eq!(*heap.code(p), None);
    let s = heap.allocate_string("text".to_string());
    assert_eq!(heap.string(s), "text");
    assert!(heap.has_string(s));
    assert!(!heap.has_string(StringPtr { index: s.index + 1 }));
}

#[test]
fn set_cons_takes_older_values_only() {
    let mut heap = Heap::new();
    let first = heap.allocate_cons();
    let second = heap.allocate_cons();
    assert!(heap.set_cons(second, Value::new_integer(1), Value::Pair(first)));
    assert_eq!(heap.cons(second), Cons { car: Value::new_integer(1), cdr: Value::Pair(first) });
    // a cell cannot hold itself, nor a younger cell, nor a cell that is not there
    assert!(!heap.set_cons(second, Value::Pair(second), Value::EmptyList));
    assert!(!heap.set_cons(first, Value::EmptyList, Value::Pair(second)));
    assert!(!heap.set_cons(first, Value::Pair(ConsPtr { index: 99 }), Value::EmptyList));
    assert!(!heap.set_cons(ConsPtr { index: 99 }, Value::EmptyList, Value::EmptyList));
    assert_eq!(heap.cons(second), Cons { car: Value::new_integer(1), cdr: Value::Pair(first) });
    assert_eq!(heap.cons(first), Cons::default());
}

#[test]
fn set_procedure_takes_good_handles_only() {
    let mut heap = Heap::new();
    let p = heap.allocate_procedure();
    let x = heap.get_or_create_symbol("x");
    let global = heap.global_activation();
    let record = Procedure { params: x, body: Value::new_integer(1), env: global };
    assert!(heap.set_procedure(p, record));
    assert_eq!(heap.procedure(p), record);
    let dangling = Procedure { params: Value::Pair(ConsPtr { index: 99 }), ..record };
    assert!(!heap.set_procedure(p, dangling));
    let nowhere = Procedure { env: ActivationPtr { index: 99 }, ..record };
    assert!(!heap.set_procedure(p, nowhere));
    assert!(!heap.set_procedure(ProcedurePtr { index: 99 }, record));
    assert_eq!(heap.procedure(p), record);
}

#[test]
fn activations_fetch_and_update() {
    let mut heap = Heap::new();
    let global = heap.global_activation();
    let unspecified = heap.unspecified_symbol();
    // a slot that was never assigned holds the unspecified value
    assert_eq!(heap.fetch(global, 0, 0), unspecified);
    heap.update(global, 0, 2, Value::new_integer(7));
    assert_eq!(heap.fetch(global, 0, 2), Value::new_integer(7));
    assert_eq!(heap.fetch(global, 0, 0), unspecified);
    assert_eq!(heap.fetch(global, 0, 1), unspecified);
    assert_eq!(heap.fetch(global, 0, 3), unspecified);
    heap.update(global, 0, 0, Value::new_integer(5));
    assert_eq!(heap.fetch(global, 0, 0), Value::new_integer(5));
    assert_eq!(heap.fetch(global, 0, 2), Value::new_integer(7));

    let inner = heap.allocate_activation(global, vec![Value::new_integer(1)]);
    assert_eq!(inner, ActivationPtr { index: 1 });
    assert_eq!(heap.fetch(inner, 0, 0), Value::new_integer(1));
    assert_eq!(heap.fetch(inner, 1, 0), Value::new_integer(5));
    heap.update(inner, 1, 0, Value::new_integer(6));
    assert_eq!(heap.fetch(global, 0, 0), Value::new_integer(6));
    assert_eq!(heap.fetch(inner, 0, 0), Value::new_integer(1));
    let innermost = heap.allocate_activation(inner, vec![]);
    assert_eq!(heap.fetch(innermost, 2, 2), Value::new_integer(7));
    assert_eq!(heap.fetch(innermost, 1, 0), Value::new_integer(1));
}

#[test]
fn limits_can_be_set() {
    let mut heap = Heap::new();
    heap.set_limits(10, 3);
    assert_eq!(heap.step_limit(), 10);
    assert_eq!(heap.depth_limit(), 3);
}

#[test]
fn scopes_through_the_heap() {
    let mut heap = Heap::new();
    let x = heap.get_or_create_symbol("x").to_symbol().unwrap();
    let y = heap.get_or_create_symbol("y").to_symbol().unwrap();
    assert_eq!(heap.lookup(x), None);
    assert_eq!(heap.define(x), Some((0, 0)));
    assert_eq!(heap.define(y), Some((0, 1)));
    assert_eq!(heap.lookup(x), Some((0, 0)));
    assert_eq!(heap.lookup(y), Some((0, 1)));
    assert!(heap.push_scope(&vec![y]));
    assert_eq!(heap.lookup(y), Some((0, 0)));
    assert_eq!(heap.lookup(x), Some((1, 0)));
    heap.pop_scope();
    assert_eq!(heap.lookup(y), Some((0, 1)));
    // the global scope stays
    heap.pop_scope();
    assert_eq!(heap.lookup(x), Some((0, 0)));
    assert_eq!(heap.environment().depth(), 1);
}

#[test]
fn names_are_looked_up_by_their_characters() {
    let mut heap = Heap::new();
    let interned = heap.get_or_create_symbol("x").to_symbol().unwrap();
    let other = heap.allocate_string("x".to_string());
    assert_ne!(interned, other);
    assert_eq!(heap.define(interned), Some((0, 0)));
    assert_eq!(heap.lookup(other), Some((0, 0)));
}

#[test]
fn environment_alone() {
    let mut env = Environment::new();
    assert_eq!(env.depth(), 1);
    assert_eq!(env.lookup(&"a".to_string()), None);
    assert_eq!(env.define("a".to_string()), Some((0, 0)));
    assert_eq!(env.define("b".to_string()), Some((0, 1)));
    // a name that is defined again gets a fresh slot, and that one is found
    assert_eq!(env.define("a".to_string()), Some((0, 2)));
    assert_eq!(env.lookup(&"a".to_string()), Some((0, 2)));
    assert_eq!(env.lookup(&"b".to_string()), Some((0, 1)));
    assert_eq!(env.innermost_len(), 3);
    assert!(env.push_scope(vec!["b".to_string(), "c".to_string()]));
    assert_eq!(env.depth(), 2);
    assert_eq!(env.lookup(&"a".to_string()), Some((1, 2)));
    assert_eq!(env.lookup(&"b".to_string()), Some((0, 0)));
    assert_eq!(env.lookup(&"c".to_string()), Some((0, 1)));
    assert_eq!(env.define("d".to_string()), Some((0, 2)));
    assert!(env.push_scope(vec![]));
    assert_eq!(env.lookup(&"d".to_string()), Some((1, 2)));
    assert_eq!(env.lookup(&"a".to_string()), Some((2, 2)));
    env.pop_scope();
    env.pop_scope();
    assert_eq!(env.depth(), 1);
    assert_eq!(env.lookup(&"c".to_string()), None);
    assert_eq!(env.lookup(&"d".to_string()), None);
    env.pop_scope();
    assert_eq!(env.depth(), 1);
    assert_eq!(env.lookup(&"a".to_string()), Some((0, 2)));
}
