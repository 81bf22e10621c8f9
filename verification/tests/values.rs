use oxischeme::heap::Heap;
use oxischeme::list::list;
use oxischeme::meaning::Error;
use oxischeme::value::{ActivationPtr, Cons, GcThing, Procedure, Value};

#[test]
fn constructors_make_the_variants() {
    assert_eq!(Value::new_integer(-7), Value::Integer(-7));
    assert_eq!(Value::new_boolean(true), Value::Boolean(true));
    assert_eq!(Value::new_character('x'), Value::Character('x'));
}

#[test]
fn equality_of_plain_values_is_by_value() {
    assert_eq!(Value::new_integer(3), Value::new_integer(3));
    assert_ne!(Value::new_integer(3), Value::new_integer(4));
    assert_ne!(Value::new_boolean(false), Value::EmptyList);
    assert_ne!(Value::new_integer(0), Value::new_boolean(false));
}

#[test]
fn equality_of_pairs_is_identity() {
    let mut heap = Heap::new();
    let one = Value::new_pair(&mut heap, Value::new_integer(1), Value::EmptyList);
    let other = Value::new_pair(&mut heap, Value::new_integer(1), Value::EmptyList);
    assert_eq!(one, one);
    assert_ne!(one, other);
}

#[test]
fn equality_of_strings_is_identity() {
    let mut heap = Heap::new();
    let one = Value::new_string(&mut heap, "abc".to_string());
    let other = Value::new_string(&mut heap, "abc".to_string());
    assert_ne!(one, other);
    let handle = match one {
        Value::String(p) => p,
        _ => panic!("not a string"),
    };
    assert_eq!(heap.string(handle), "abc");
}

#[test]
fn pairs_and_atoms() {
    let mut heap = Heap::new();
    let pair = Value::new_pair(&mut heap, Value::new_integer(1), Value::new_integer(2));
    assert!(pair.is_pair());
    assert!(!pair.is_atom());
    assert!(Value::EmptyList.is_atom());
    assert!(!Value::EmptyList.is_pair());
    assert!(Value::new_integer(1).is_atom());
}

#[test]
fn car_and_cdr() {
    let mut heap = Heap::new();
    let pair = Value::new_pair(&mut heap, Value::new_integer(1), Value::new_integer(2));
    assert_eq!(pair.car(&heap), Some(Value::new_integer(1)));
    assert_eq!(pair.cdr(&heap), Some(Value::new_integer(2)));
    assert_eq!(Value::EmptyList.car(&heap), None);
    assert_eq!(Value::new_integer(1).cdr(&heap), None);
}

#[test]
fn coercions() {
    let mut heap = Heap::new();
    let x = heap.get_or_create_symbol("x");
    let pair = Value::new_pair(&mut heap, x, Value::EmptyList);
    let global = heap.global_activation();
    let procedure = Value::new_procedure(&mut heap, Value::EmptyList, Value::EmptyList, global);
    assert!(x.to_symbol().is_some());
    assert!(x.to_pair().is_none());
    assert!(x.to_procedure().is_none());
    assert!(pair.to_pair().is_some());
    assert!(pair.to_symbol().is_none());
    assert!(procedure.to_procedure().is_some());
    assert!(procedure.to_pair().is_none());
    assert_eq!(Value::new_symbol(x.to_symbol().unwrap()), x);
}

#[test]
fn length_of_proper_lists() {
    let mut heap = Heap::new();
    assert_eq!(Value::EmptyList.len(&heap), Ok(0));
    let three = list(
        &mut heap,
        &[Value::new_integer(1), Value::new_integer(2), Value::new_integer(3)],
    );
    assert_eq!(three.len(&heap), Ok(3));
    let four = Value::new_pair(&mut heap, Value::new_integer(0), three);
    assert_eq!(four.len(&heap), Ok(4));
}

#[test]
fn length_of_improper_lists_fails() {
    let mut heap = Heap::new();
    let pair = Value::new_pair(&mut heap, Value::new_integer(1), Value::new_integer(2));
    assert_eq!(pair.len(&heap), Err(()));
    let longer = Value::new_pair(&mut heap, Value::new_integer(0), pair);
    assert_eq!(longer.len(&heap), Err(()));
    assert_eq!(Value::new_integer(5).len(&heap), Err(()));
    assert_eq!(Value::new_boolean(false).len(&heap), Err(()));
}

#[test]
fn list_keeps_the_order() {
    let mut heap = Heap::new();
    let values = [Value::new_integer(1), Value::new_integer(2), Value::new_integer(3)];
    let l = list(&mut heap, &values);
    assert_eq!(l.car(&heap), Some(values[0]));
    let rest = l.cdr(&heap).unwrap();
    assert_eq!(rest.car(&heap), Some(values[1]));
    let rest = rest.cdr(&heap).unwrap();
    assert_eq!(rest.car(&heap), Some(values[2]));
    assert_eq!(rest.cdr(&heap), Some(Value::EmptyList));
    assert_eq!(list(&mut heap, &[]), Value::EmptyList);
}

#[test]
fn compositions_of_car_and_cdr() {
    let mut heap = Heap::new();
    let values = [
        Value::new_integer(1),
        Value::new_integer(2),
        Value::new_integer(3),
        Value::new_integer(4),
    ];
    let l = list(&mut heap, &values);
    let cell = heap.cons(l.to_pair().unwrap());
    assert_eq!(cell.cadr(&heap), Ok(values[1]));
    assert_eq!(cell.caddr(&heap), Ok(values[2]));
    assert_eq!(cell.cadddr(&heap), Ok(values[3]));
    let cddr = cell.cddr(&heap).unwrap();
    assert_eq!(cddr.car(&heap), Some(values[2]));
    let cdddr = cell.cdddr(&heap).unwrap();
    assert_eq!(cdddr.car(&heap), Some(values[3]));
    assert_eq!(cdddr.cdr(&heap), Some(Value::EmptyList));
}

#[test]
fn compositions_of_car_and_cdr_fail_on_short_lists() {
    let mut heap = Heap::new();
    let one = list(&mut heap, &[Value::new_integer(1)]);
    let cell = heap.cons(one.to_pair().unwrap());
    assert_eq!(cell.cadr(&heap), Err(Error::BadCadr));
    assert_eq!(cell.cddr(&heap), Err(Error::BadCddr));
    assert_eq!(cell.caddr(&heap), Err(Error::BadCddr));
    assert_eq!(cell.cdddr(&heap), Err(Error::BadCddr));
    assert_eq!(cell.cadddr(&heap), Err(Error::BadCddr));
    let two = list(&mut heap, &[Value::new_integer(1), Value::new_integer(2)]);
    let cell = heap.cons(two.to_pair().unwrap());
    assert_eq!(cell.cadr(&heap), Ok(Value::new_integer(2)));
    assert_eq!(cell.cddr(&heap), Ok(Value::EmptyList));
    assert_eq!(cell.caddr(&heap), Err(Error::BadCaddr));
    assert_eq!(cell.cdddr(&heap), Err(Error::BadCdddr));
    assert_eq!(cell.cadddr(&heap), Err(Error::BadCdddr));
    let three = list(
        &mut heap,
        &[Value::new_integer(1), Value::new_integer(2), Value::new_integer(3)],
    );
    let cell = heap.cons(three.to_pair().unwrap());
    assert_eq!(cell.cadddr(&heap), Err(Error::BadCadddr));
}

#[test]
fn cons_accessors_and_default() {
    let mut cell = Cons::default();
    assert_eq!(cell.car(), Value::EmptyList);
    assert_eq!(cell.cdr(), Value::EmptyList);
    cell.set_car(Value::new_integer(1));
    cell.set_cdr(Value::new_integer(2));
    assert_eq!(cell.car(), Value::new_integer(1));
    assert_eq!(cell.cdr(), Value::new_integer(2));
}

#[test]
fn procedure_accessors_and_default() {
    let mut heap = Heap::new();
    let x = heap.get_or_create_symbol("x");
    let mut procedure = Procedure::default();
    assert_eq!(procedure.get_params(), Value::EmptyList);
    assert_eq!(procedure.get_body(), Value::EmptyList);
    assert_eq!(procedure.get_env(), heap.global_activation());
    procedure.set_params(x);
    procedure.set_body(Value::new_integer(1));
    procedure.set_env(ActivationPtr { index: 3 });
    assert_eq!(procedure.get_params(), x);
    assert_eq!(procedure.get_body(), Value::new_integer(1));
    assert_eq!(procedure.get_env(), ActivationPtr { index: 3 });
}

#[test]
fn trace_of_a_value() {
    let mut heap = Heap::new();
    let x = heap.get_or_create_symbol("x");
    let s = Value::new_string(&mut heap, "s".to_string());
    let pair = Value::new_pair(&mut heap, x, s);
    let global = heap.global_activation();
    let procedure = Value::new_procedure(&mut heap, Value::EmptyList, Value::EmptyList, global);
    assert_eq!(Value::EmptyList.trace(), vec![]);
    assert_eq!(Value::new_integer(1).trace(), vec![]);
    assert_eq!(Value::new_boolean(true).trace(), vec![]);
    assert_eq!(Value::new_character('c').trace(), vec![]);
    assert_eq!(x.trace(), vec![GcThing::String(x.to_symbol().unwrap())]);
    assert_eq!(pair.trace(), vec![GcThing::Cons(pair.to_pair().unwrap())]);
    assert_eq!(procedure.trace(), vec![GcThing::Procedure(procedure.to_procedure().unwrap())]);
    match s {
        Value::String(p) => assert_eq!(s.trace(), vec![GcThing::String(p)]),
        _ => panic!("not a string"),
    }
    assert_eq!(x.to_gc_thing(), Some(GcThing::String(x.to_symbol().unwrap())));
    assert_eq!(Value::EmptyList.to_gc_thing(), None);
    assert_eq!(
        pair.to_pair().unwrap().to_gc_thing(),
        Some(GcThing::Cons(pair.to_pair().unwrap()))
    );
    assert_eq!(
        procedure.to_procedure().unwrap().to_gc_thing(),
        Some(GcThing::Procedure(procedure.to_procedure().unwrap()))
    );
}

#[test]
fn trace_of_a_cons_cell() {
    let mut heap = Heap::new();
    let x = heap.get_or_create_symbol("x");
    let inner = Value::new_pair(&mut heap, Value::new_integer(1), Value::EmptyList);
    let both = Cons { car: x, cdr: inner };
    assert_eq!(
        both.trace(),
        vec![GcThing::String(x.to_symbol().unwrap()), GcThing::Cons(inner.to_pair().unwrap())]
    );
    let only_cdr = Cons { car: Value::new_integer(1), cdr: inner };
    assert_eq!(only_cdr.trace(), vec![GcThing::Cons(inner.to_pair().unwrap())]);
    let none = Cons { car: Value::new_integer(1), cdr: Value::EmptyList };
    assert_eq!(none.trace(), vec![]);
}

#[test]
fn trace_of_a_procedure() {
    let mut heap = Heap::new();
    let x = heap.get_or_create_symbol("x");
    let params = list(&mut heap, &[x]);
    let body = list(&mut heap, &[x]);
    let env = heap.global_activation();
    let full = Procedure { params, body, env };
    assert_eq!(
        full.trace(),
        vec![
            GcThing::Cons(params.to_pair().unwrap()),
            GcThing::Cons(body.to_pair().unwrap()),
            GcThing::Activation(env)
        ]
    );
    let bare = Procedure { params: Value::EmptyList, body: Value::new_integer(1), env };
    assert_eq!(bare.trace(), vec![GcThing::Activation(env)]);
}
