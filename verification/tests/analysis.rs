use oxischeme::analyze::{
    analyze, analyze_atom, analyze_operands, collect_params, is_auto_quoting,
    make_meaning_sequence,
};
use oxischeme::heap::Heap;
use oxischeme::list::list;
use oxischeme::meaning::{Error, Meaning, Operands};
use oxischeme::value::Value;

fn number(i: i64) -> Value {
    Value::new_integer(i)
}

fn quotation(i: i64) -> Box<Meaning> {
    Box::new(Meaning::Quotation(number(i)))
}

#[test]
fn auto_quoting_values() {
    let mut heap = Heap::new();
    let x = heap.get_or_create_symbol("x");
    let s = Value::new_string(&mut heap, "s".to_string());
    let pair = Value::new_pair(&mut heap, x, x);
    let global = heap.global_activation();
    let procedure = Value::new_procedure(&mut heap, Value::EmptyList, Value::EmptyList, global);
    assert!(is_auto_quoting(number(1)));
    assert!(is_auto_quoting(Value::new_boolean(false)));
    assert!(is_auto_quoting(Value::new_character('a')));
    assert!(is_auto_quoting(s));
    assert!(is_auto_quoting(procedure));
    assert!(!is_auto_quoting(Value::EmptyList));
    assert!(!is_auto_quoting(x));
    assert!(!is_auto_quoting(pair));
}

#[test]
fn atoms() {
    let mut heap = Heap::new();
    let x = heap.get_or_create_symbol("x");
    assert_eq!(analyze(&mut heap, number(4)), Ok(Meaning::Quotation(number(4))));
    assert_eq!(analyze_atom(&mut heap, number(4)), Ok(Meaning::Quotation(number(4))));
    assert_eq!(
        analyze(&mut heap, Value::new_boolean(true)),
        Ok(Meaning::Quotation(Value::new_boolean(true)))
    );
    assert_eq!(analyze(&mut heap, x), Err(Error::UnknownVariable(x.to_symbol().unwrap())));
    assert_eq!(analyze(&mut heap, Value::EmptyList), Err(Error::CannotEvaluate));
    heap.define(x.to_symbol().unwrap());
    assert_eq!(analyze(&mut heap, x), Ok(Meaning::Reference(0, 0)));
}

#[test]
fn quoted_forms() {
    let mut heap = Heap::new();
    let quote = heap.quote_symbol();
    let x = heap.get_or_create_symbol("x");
    let inner = list(&mut heap, &[x, number(1)]);
    let form = list(&mut heap, &[quote, inner]);
    assert_eq!(analyze(&mut heap, form), Ok(Meaning::Quotation(inner)));
    let form = list(&mut heap, &[quote, x]);
    assert_eq!(analyze(&mut heap, form), Ok(Meaning::Quotation(x)));
    let form = list(&mut heap, &[quote]);
    assert_eq!(analyze(&mut heap, form), Err(Error::MalformedQuote));
    let form = list(&mut heap, &[quote, x, x]);
    assert_eq!(analyze(&mut heap, form), Err(Error::MalformedQuote));
    let form = Value::new_pair(&mut heap, quote, x);
    assert_eq!(analyze(&mut heap, form), Err(Error::MalformedQuote));
}

#[test]
fn definitions() {
    let mut heap = Heap::new();
    let define = heap.define_symbol();
    let x = heap.get_or_create_symbol("x");
    let y = heap.get_or_create_symbol("y");
    let form = list(&mut heap, &[define, x, number(1)]);
    assert_eq!(analyze(&mut heap, form), Ok(Meaning::SetVariable(0, 0, quotation(1))));
    let form = list(&mut heap, &[define, y, x]);
    assert_eq!(
        analyze(&mut heap, form),
        Ok(Meaning::SetVariable(0, 1, Box::new(Meaning::Reference(0, 0))))
    );
    // a name that is defined again gets a fresh slot
    let form = list(&mut heap, &[define, x, number(2)]);
    assert_eq!(analyze(&mut heap, form), Ok(Meaning::SetVariable(0, 2, quotation(2))));
    assert_eq!(analyze(&mut heap, x), Ok(Meaning::Reference(0, 2)));
}

#[test]
fn definitions_that_are_malformed() {
    let mut heap = Heap::new();
    let define = heap.define_symbol();
    let x = heap.get_or_create_symbol("x");
    let z = heap.get_or_create_symbol("z");
    let form = list(&mut heap, &[define, x]);
    assert_eq!(analyze(&mut heap, form), Err(Error::MalformedDefinition));
    let form = list(&mut heap, &[define, x, number(1), number(2)]);
    assert_eq!(analyze(&mut heap, form), Err(Error::MalformedDefinition));
    let form = list(&mut heap, &[define, number(1), number(2)]);
    assert_eq!(analyze(&mut heap, form), Err(Error::DefineNonSymbol));
    // the value is analyzed before the name is defined
    let form = list(&mut heap, &[define, z, z]);
    assert_eq!(analyze(&mut heap, form), Err(Error::UnknownVariable(z.to_symbol().unwrap())));
    assert_eq!(heap.lookup(z.to_symbol().unwrap()), None);
    assert_eq!(heap.lookup(x.to_symbol().unwrap()), None);
}

#[test]
fn assignments() {
    let mut heap = Heap::new();
    let set_bang = heap.set_bang_symbol();
    let x = heap.get_or_create_symbol("x");
    let form = list(&mut heap, &[set_bang, x, number(1)]);
    assert_eq!(analyze(&mut heap, form), Err(Error::SetUndefined(x.to_symbol().unwrap())));
    heap.define(x.to_symbol().unwrap());
    assert_eq!(analyze(&mut heap, form), Ok(Meaning::SetVariable(0, 0, quotation(1))));
    let form = list(&mut heap, &[set_bang, x]);
    assert_eq!(analyze(&mut heap, form), Err(Error::MalformedSet));
    let form = list(&mut heap, &[set_bang, number(1), number(1)]);
    assert_eq!(analyze(&mut heap, form), Err(Error::SetNonSymbol));
    let y = heap.get_or_create_symbol("y");
    let form = list(&mut heap, &[set_bang, x, y]);
    assert_eq!(analyze(&mut heap, form), Err(Error::UnknownVariable(y.to_symbol().unwrap())));
}

#[test]
fn conditionals() {
    let mut heap = Heap::new();
    let if_symbol = heap.if_symbol();
    let form = list(&mut heap, &[if_symbol, number(1), number(2), number(3)]);
    assert_eq!(
        analyze(&mut heap, form),
        Ok(Meaning::Conditional(quotation(1), quotation(2), quotation(3)))
    );
    let form = list(&mut heap, &[if_symbol, number(1), number(2)]);
    assert_eq!(analyze(&mut heap, form), Err(Error::MalformedConditional));
    let form = list(&mut heap, &[if_symbol, number(1), number(2), number(3), number(4)]);
    assert_eq!(analyze(&mut heap, form), Err(Error::MalformedConditional));
    let x = heap.get_or_create_symbol("x");
    let form = list(&mut heap, &[if_symbol, number(1), x, number(3)]);
    assert_eq!(analyze(&mut heap, form), Err(Error::UnknownVariable(x.to_symbol().unwrap())));
}

#[test]
fn sequences() {
    let mut heap = Heap::new();
    let begin = heap.begin_symbol();
    let form = list(&mut heap, &[begin]);
    assert_eq!(analyze(&mut heap, form), Err(Error::MalformedSequence));
    // one form means what it means alone
    let form = list(&mut heap, &[begin, number(1)]);
    assert_eq!(analyze(&mut heap, form), Ok(Meaning::Quotation(number(1))));
    let form = list(&mut heap, &[begin, number(1), number(2), number(3)]);
    assert_eq!(
        analyze(&mut heap, form),
        Ok(Meaning::Sequence(
            quotation(1),
            Box::new(Meaning::Sequence(quotation(2), quotation(3)))
        ))
    );
    let tail = Value::new_pair(&mut heap, number(1), number(2));
    let form = Value::new_pair(&mut heap, begin, tail);
    assert_eq!(analyze(&mut heap, form), Err(Error::MalformedSequence));
    let forms = list(&mut heap, &[number(1), number(2)]);
    assert_eq!(
        make_meaning_sequence(&mut heap, forms),
        Ok(Meaning::Sequence(quotation(1), quotation(2)))
    );
    assert_eq!(make_meaning_sequence(&mut heap, Value::EmptyList), Err(Error::MalformedSequence));
}

#[test]
fn sequences_define_for_what_follows() {
    let mut heap = Heap::new();
    let begin = heap.begin_symbol();
    let define = heap.define_symbol();
    let x = heap.get_or_create_symbol("x");
    let definition = list(&mut heap, &[define, x, number(5)]);
    let form = list(&mut heap, &[begin, definition, x]);
    assert_eq!(
        analyze(&mut heap, form),
        Ok(Meaning::Sequence(
            Box::new(Meaning::SetVariable(0, 0, quotation(5))),
            Box::new(Meaning::Reference(0, 0))
        ))
    );
    // but not for what comes before
    let y = heap.get_or_create_symbol("y");
    let definition = list(&mut heap, &[define, y, number(5)]);
    let form = list(&mut heap, &[begin, y, definition]);
    assert_eq!(analyze(&mut heap, form), Err(Error::UnknownVariable(y.to_symbol().unwrap())));
}

#[test]
fn procedure_literals() {
    let mut heap = Heap::new();
    let lambda = heap.lambda_symbol();
    let a = heap.get_or_create_symbol("a");
    let b = heap.get_or_create_symbol("b");
    let g = heap.get_or_create_symbol("g");
    heap.define(g.to_symbol().unwrap());
    let params = list(&mut heap, &[a, b]);
    let form = list(&mut heap, &[lambda, params, g, b, a]);
    let body = form.cdr(&heap).unwrap().cdr(&heap).unwrap();
    assert_eq!(
        analyze(&mut heap, form),
        Ok(Meaning::Lambda {
            params,
            body,
            code: Box::new(Meaning::Sequence(
                Box::new(Meaning::Reference(1, 0)),
                Box::new(Meaning::Sequence(
                    Box::new(Meaning::Reference(0, 1)),
                    Box::new(Meaning::Reference(0, 0))
                ))
            ))
        })
    );
    // the parameters are gone after the literal
    assert_eq!(analyze(&mut heap, a), Err(Error::UnknownVariable(a.to_symbol().unwrap())));
    assert_eq!(heap.environment().depth(), 1);
}

#[test]
fn procedure_literals_with_a_rest_parameter() {
    let mut heap = Heap::new();
    let lambda = heap.lambda_symbol();
    let a = heap.get_or_create_symbol("a");
    let rest = heap.get_or_create_symbol("rest");
    let form = list(&mut heap, &[lambda, rest, rest]);
    let body = form.cdr(&heap).unwrap().cdr(&heap).unwrap();
    assert_eq!(
        analyze(&mut heap, form),
        Ok(Meaning::Lambda { params: rest, body, code: Box::new(Meaning::Reference(0, 0)) })
    );
    let params = Value::new_pair(&mut heap, a, rest);
    let form = list(&mut heap, &[lambda, params, rest]);
    let body = form.cdr(&heap).unwrap().cdr(&heap).unwrap();
    assert_eq!(
        analyze(&mut heap, form),
        Ok(Meaning::Lambda { params, body, code: Box::new(Meaning::Reference(0, 1)) })
    );
    assert_eq!(
        collect_params(&heap, params),
        Some(vec![a.to_symbol().unwrap(), rest.to_symbol().unwrap()])
    );
    assert_eq!(collect_params(&heap, Value::EmptyList), Some(vec![]));
    assert_eq!(collect_params(&heap, number(1)), None);
}

#[test]
fn procedure_literals_that_are_malformed() {
    let mut heap = Heap::new();
    let lambda = heap.lambda_symbol();
    let a = heap.get_or_create_symbol("a");
    let params = list(&mut heap, &[a]);
    let form = list(&mut heap, &[lambda, params]);
    assert_eq!(analyze(&mut heap, form), Err(Error::MalformedLambda));
    let form = list(&mut heap, &[lambda]);
    assert_eq!(analyze(&mut heap, form), Err(Error::MalformedLambda));
    let bad = list(&mut heap, &[a, number(1)]);
    let form = list(&mut heap, &[lambda, bad, a]);
    assert_eq!(analyze(&mut heap, form), Err(Error::BadParameterList));
    let form = list(&mut heap, &[lambda, number(1), a]);
    assert_eq!(analyze(&mut heap, form), Err(Error::BadParameterList));
    // an error in the body closes the scope of the parameters
    let unknown = heap.get_or_create_symbol("unknown");
    let form = list(&mut heap, &[lambda, params, unknown]);
    assert_eq!(
        analyze(&mut heap, form),
        Err(Error::UnknownVariable(unknown.to_symbol().unwrap()))
    );
    assert_eq!(heap.environment().depth(), 1);
    assert_eq!(heap.lookup(a.to_symbol().unwrap()), None);
}

#[test]
fn definitions_inside_a_procedure_literal() {
    let mut heap = Heap::new();
    let lambda = heap.lambda_symbol();
    let define = heap.define_symbol();
    let a = heap.get_or_create_symbol("a");
    let local = heap.get_or_create_symbol("local");
    let params = list(&mut heap, &[a]);
    let definition = list(&mut heap, &[define, local, a]);
    let form = list(&mut heap, &[lambda, params, definition, local]);
    let body = form.cdr(&heap).unwrap().cdr(&heap).unwrap();
    assert_eq!(
        analyze(&mut heap, form),
        Ok(Meaning::Lambda {
            params,
            body,
            code: Box::new(Meaning::Sequence(
                Box::new(Meaning::SetVariable(0, 1, Box::new(Meaning::Reference(0, 0)))),
                Box::new(Meaning::Reference(0, 1))
            ))
        })
    );
    assert_eq!(heap.lookup(local.to_symbol().unwrap()), None);
}

#[test]
fn invocations() {
    let mut heap = Heap::new();
    let f = heap.get_or_create_symbol("f");
    heap.define(f.to_symbol().unwrap());
    let form = list(&mut heap, &[f]);
    assert_eq!(
        analyze(&mut heap, form),
        Ok(Meaning::Invocation(Box::new(Meaning::Reference(0, 0)), Box::new(Operands::Empty)))
    );
    let form = list(&mut heap, &[f, number(1), number(2)]);
    assert_eq!(
        analyze(&mut heap, form),
        Ok(Meaning::Invocation(
            Box::new(Meaning::Reference(0, 0)),
            Box::new(Operands::More(
                quotation(1),
                Box::new(Operands::More(quotation(2), Box::new(Operands::Empty)))
            ))
        ))
    );
    let improper = Value::new_pair(&mut heap, f, number(1));
    assert_eq!(analyze(&mut heap, improper), Err(Error::MalformedInvocation));
    let unknown = heap.get_or_create_symbol("unknown");
    let form = list(&mut heap, &[unknown, number(1)]);
    assert_eq!(
        analyze(&mut heap, form),
        Err(Error::UnknownVariable(unknown.to_symbol().unwrap()))
    );
    let operands = list(&mut heap, &[number(1)]);
    assert_eq!(
        analyze_operands(&mut heap, operands),
        Ok(Operands::More(quotation(1), Box::new(Operands::Empty)))
    );
    assert_eq!(analyze_operands(&mut heap, number(1)), Err(Error::MalformedInvocation));
}

#[test]
fn a_failed_part_fails_the_whole() {
    let mut heap = Heap::new();
    let if_symbol = heap.if_symbol();
    let begin = heap.begin_symbol();
    let quote = heap.quote_symbol();
    let bad_quote = list(&mut heap, &[quote]);
    let inner = list(&mut heap, &[begin, number(1), bad_quote]);
    let form = list(&mut heap, &[if_symbol, number(1), inner, number(2)]);
    assert_eq!(analyze(&mut heap, form), Err(Error::MalformedQuote));
}

#[test]
fn meanings_are_built_from_their_parts() {
    let mut heap = Heap::new();
    let x = heap.get_or_create_symbol("x");
    assert_eq!(Meaning::new_quotation(x), Meaning::Quotation(x));
    assert_eq!(Meaning::new_reference(1, 2), Meaning::Reference(1, 2));
    assert_eq!(
        Meaning::new_set_variable(1, 2, Meaning::Quotation(x)),
        Meaning::SetVariable(1, 2, Box::new(Meaning::Quotation(x)))
    );
    assert_eq!(
        Meaning::new_conditional(
            Meaning::Quotation(number(1)),
            Meaning::Quotation(number(2)),
            Meaning::Quotation(number(3))
        ),
        Meaning::Conditional(quotation(1), quotation(2), quotation(3))
    );
    assert_eq!(
        Meaning::new_sequence(Meaning::Quotation(number(1)), Meaning::Quotation(number(2))),
        Meaning::Sequence(quotation(1), quotation(2))
    );
    assert_eq!(
        Meaning::new_lambda(x, x, Meaning::Quotation(number(1))),
        Meaning::Lambda { params: x, body: x, code: quotation(1) }
    );
    assert_eq!(
        Meaning::new_invocation(Meaning::Quotation(number(1)), Operands::Empty),
        Meaning::Invocation(quotation(1), Box::new(Operands::Empty))
    );
    let m = Meaning::Conditional(
        quotation(1),
        Box::new(Meaning::Invocation(
            Box::new(Meaning::Reference(0, 0)),
            Box::new(Operands::More(quotation(2), Box::new(Operands::Empty))),
        )),
        Box::new(Meaning::Lambda { params: x, body: x, code: quotation(3) }),
    );
    assert_eq!(m.clone(), m);
}

#[test]
fn errors_in_words() {
    let mut heap = Heap::new();
    let x = heap.get_or_create_symbol("counter").to_symbol().unwrap();
    assert_eq!(
        Error::UnknownVariable(x).message(&heap),
        "Static error: reference to unknown variable: counter"
    );
    assert_eq!(
        Error::SetUndefined(x).message(&heap),
        "Static error: cannot set! undefined variable: counter"
    );
    assert_eq!(
        Error::MalformedQuote.message(&heap),
        "Static error: Wrong number of parts in quoted form"
    );
    assert_eq!(Error::DefineNonSymbol.message(&heap), "Static error: can only define symbols");
    assert_eq!(
        Error::MalformedDefinition.message(&heap),
        "Static error: improperly formed definition"
    );
    assert_eq!(Error::SetNonSymbol.message(&heap), "Static error: can only set! symbols");
    assert_eq!(
        Error::MalformedSet.message(&heap),
        "Static error: improperly formed set! expression"
    );
    assert_eq!(
        Error::MalformedConditional.message(&heap),
        "Static error: improperly formed if expression"
    );
    assert_eq!(
        Error::MalformedSequence.message(&heap),
        "Static error: improperly formed sequence"
    );
    assert_eq!(Error::CannotEvaluate.message(&heap), "Static error: Cannot evaluate: ()");
    assert_eq!(Error::BadCadr.message(&heap), "bad cadr");
    assert_eq!(Error::BadCddr.message(&heap), "bad cddr");
    assert_eq!(
        Error::WrongArgumentCount.message(&heap),
        "Runtime error: wrong number of arguments"
    );
}

#[test]
fn errors_are_static_or_runtime() {
    let heap = Heap::new();
    let name = heap.quote_symbol().to_symbol().unwrap();
    let statics = [
        Error::UnknownVariable(name),
        Error::CannotEvaluate,
        Error::MalformedQuote,
        Error::MalformedDefinition,
        Error::DefineNonSymbol,
        Error::MalformedSet,
        Error::SetNonSymbol,
        Error::SetUndefined(name),
        Error::MalformedConditional,
        Error::MalformedSequence,
        Error::MalformedLambda,
        Error::BadParameterList,
        Error::MalformedInvocation,
        Error::EnvironmentFull,
    ];
    for e in statics {
        assert!(e.is_static_error());
        assert!(!e.is_runtime_error());
    }
    let runtimes = [
        Error::NotAProcedure,
        Error::WrongArgumentCount,
        Error::NoProcedureBody,
        Error::StepLimit,
        Error::DepthLimit,
    ];
    for e in runtimes {
        assert!(e.is_runtime_error());
        assert!(!e.is_static_error());
    }
    assert!(!Error::BadCadr.is_static_error());
    assert!(!Error::BadCadr.is_runtime_error());
}
