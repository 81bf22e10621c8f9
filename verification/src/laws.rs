//! What holds of analysis and evaluation whatever the form and the heap
//! are.

use vstd::prelude::*;
use crate::analyze::{
    analyze_conditional_spec, analyze_definition_spec, analyze_quoted_spec, analyze_sequence_spec, analyze_set_spec,
    analyze_spec, make_meaning_sequence_spec, Analysis,
};
use crate::environment::{lemma_lookup_defined, scopes_define, scopes_lookup, ScopeNames};
use crate::eval::{
    apply_spec, evaluate_spec, nested_spec, operands_spec, param_shape, run_spec, step_spec, Run,
};
use crate::heap::{
    begin_value, define_value, if_value, quote_value, set_bang_value, unspecified_value,
    HeapView,
};
use crate::meaning::{Error, Meaning, Operands, Trampoline};
use crate::value::{ActivationPtr, ConsPtr, GcThing, ProcedurePtr, StringPtr, Value};

verus! {

/// A value that is neither a pair, nor a symbol, nor the empty list
/// evaluates to itself, and the heap stays as it is, wherever the heap
/// allows a step.
pub proof fn law_self_evaluating(h: HeapView, v: Value)
    requires
        h.wf(),
        h.valid_value(v),
        v.self_evaluating(),
        h.step_limit >= 1,
    ensures
        evaluate_spec(h, v) == (Run { heap: h, result: Ok(v) }),
{
    assert(h.frame().wf_cons());
    assert(h.frame().valid_value(v));
    assert(h.with_scopes(h.scopes) == h);
    let m = Meaning::Quotation(v);
    assert(analyze_spec(h.frame(), h.scopes, v).result == Ok::<Meaning, Error>(m));
    assert(analyze_spec(h.frame(), h.scopes, v).scopes == h.scopes);
    let global = ActivationPtr { index: 0 };
    let step = step_spec(m, h, global, (h.step_limit - 1) as nat, h.depth_limit);
    assert(step.result == Ok::<Trampoline, Error>(Trampoline::Value(v)));
    assert(run_spec(m, h, global, h.step_limit, h.depth_limit) == (Run { heap: h, result: Ok(v) }));
}

/// `(quote x)` evaluates to `x` itself, whatever `x` is, and the heap stays
/// as it is: nothing in `x` is evaluated.
pub proof fn law_quote(h: HeapView, form: Value, x: Value)
    requires
        h.wf(),
        h.valid_value(form),
        h.elements(form) == Some(seq![quote_value(), x]),
        h.step_limit >= 1,
    ensures
        evaluate_spec(h, form) == (Run { heap: h, result: Ok(x) }),
{
    h.lemma_elements_frame(form);
    h.lemma_elements_parts(form);
    assert(h.frame().wf_cons());
    assert(h.frame().valid_value(form));
    assert(h.with_scopes(h.scopes) == h);
    assert(h.frame().cons[form->Pair_0.index as int].car == quote_value());
    let m = Meaning::Quotation(x);
    assert(analyze_quoted_spec(h.frame(), h.scopes, form).result == Ok::<Meaning, Error>(m));
    assert(analyze_spec(h.frame(), h.scopes, form) == analyze_quoted_spec(
        h.frame(),
        h.scopes,
        form,
    ));
    let global = ActivationPtr { index: 0 };
    let step = step_spec(m, h, global, (h.step_limit - 1) as nat, h.depth_limit);
    assert(step.result == Ok::<Trampoline, Error>(Trampoline::Value(x)));
    assert(run_spec(m, h, global, h.step_limit, h.depth_limit) == (Run { heap: h, result: Ok(x) }));
}

/// `(set! name value)` on a name that no scope defines, once the value is
/// analyzed, is a static error: that of the value where its analysis
/// fails, and the error of the undefined name otherwise. Nothing is run.
pub proof fn law_set_undefined(h: HeapView, form: Value, name: StringPtr, value: Value)
    requires
        h.wf(),
        h.valid_value(form),
        h.elements(form) == Some(seq![set_bang_value(), Value::Symbol(name), value]),
        scopes_lookup(
            analyze_spec(h.frame(), h.scopes, value).scopes,
            h.strings[name.index as int],
        ) is None,
    ensures
        evaluate_spec(h, form).result == (match analyze_spec(h.frame(), h.scopes, value).result {
            Ok(_) => Err::<Value, Error>(Error::SetUndefined(name)),
            Err(e) => Err::<Value, Error>(e),
        }),
        Error::SetUndefined(name).is_static(),
        evaluate_spec(h, form).heap == h.with_scopes(
            analyze_spec(h.frame(), h.scopes, value).scopes,
        ),
{
    h.lemma_elements_frame(form);
    h.lemma_elements_parts(form);
    h.frame().lemma_elements_ranks(form);
    assert(h.frame().wf_cons());
    assert(h.frame().valid_value(form));
    assert(h.frame().cons[form->Pair_0.index as int].car == set_bang_value());
    assert(analyze_spec(h.frame(), h.scopes, form) == analyze_set_spec(h.frame(), h.scopes, form));
    let s = h.frame().elements(form).unwrap();
    assert(s[1] == Value::Symbol(name));
    assert(s[2] == value);
}

/// What `(define name v)` means where `v` evaluates to itself: `v` stored
/// in a fresh slot of the innermost scope, which the name has from then on.
pub proof fn lemma_define_self_evaluating(
    h: HeapView,
    scopes: Seq<ScopeNames>,
    form: Value,
    name: StringPtr,
    v: Value,
)
    requires
        h.wf_cons(),
        h.valid_value(form),
        h.elements(form) == Some(seq![define_value(), Value::Symbol(name), v]),
        v.self_evaluating(),
        scopes.len() > 0,
        scopes.last().len() < u32::MAX,
    ensures
        analyze_spec(h, scopes, form) == (Analysis {
            result: Ok(
                Meaning::SetVariable(
                    0,
                    scopes.last().len() as u32,
                    Box::new(Meaning::Quotation(v)),
                ),
            ),
            scopes: scopes_define(scopes, h.strings[name.index as int]),
        }),
{
    h.lemma_elements_parts(form);
    h.lemma_elements_ranks(form);
    let s = h.elements(form).unwrap();
    assert(s[1] == Value::Symbol(name));
    assert(s[2] == v);
    assert(h.cons[form->Pair_0.index as int].car == define_value());
    assert(analyze_spec(h, scopes, form) == analyze_definition_spec(h, scopes, form));
    assert(analyze_spec(h, scopes, v) == (Analysis {
        result: Ok(Meaning::Quotation(v)),
        scopes,
    }));
}

/// Storing a value that evaluates to itself in a variable of the
/// activation takes two steps and one level of depth: the variable has the
/// value afterwards, nothing else changed, and the unspecified value is
/// given.
pub proof fn lemma_run_set_quotation(
    h: HeapView,
    act: ActivationPtr,
    slot: u32,
    v: Value,
    fuel: nat,
    depth: nat,
)
    requires
        fuel >= 2,
        depth >= 1,
    ensures
        run_spec(
            Meaning::SetVariable(0, slot, Box::new(Meaning::Quotation(v))),
            h,
            act,
            fuel,
            depth,
        ) == (Run { heap: h.update(act, 0, slot as nat, v), result: Ok(unspecified_value()) }),
{
    let set = Meaning::SetVariable(0, slot, Box::new(Meaning::Quotation(v)));
    let quotation = Meaning::Quotation(v);
    let inner_step = step_spec(quotation, h, act, (fuel - 2) as nat, (depth - 1) as nat);
    assert(inner_step.result == Ok::<Trampoline, Error>(Trampoline::Value(v)));
    let inner = run_spec(quotation, h, act, (fuel - 1) as nat, (depth - 1) as nat);
    assert(inner == (Run { heap: h, result: Ok(v) }));
    assert(nested_spec(quotation, h, act, (fuel - 1) as nat, depth) == inner);
    let step = step_spec(set, h, act, (fuel - 1) as nat, depth);
    assert(step.result == Ok::<Trampoline, Error>(Trampoline::Value(unspecified_value())));
}

/// `(begin (define name v) name)` evaluates to `v`, whatever the name and
/// whatever value `v` that evaluates to itself, where the scope has room
/// for the name and the limits allow three steps and two levels.
pub proof fn law_define_then_reference(
    h: HeapView,
    form: Value,
    definition: Value,
    name: StringPtr,
    v: Value,
)
    requires
        h.wf(),
        h.valid_value(form),
        h.elements(form) == Some(seq![begin_value(), definition, Value::Symbol(name)]),
        h.elements(definition) == Some(seq![define_value(), Value::Symbol(name), v]),
        v.self_evaluating(),
        h.scopes.last().len() < u32::MAX,
        h.step_limit >= 3,
        h.depth_limit >= 2,
    ensures
        evaluate_spec(h, form).result == Ok::<Value, Error>(v),
{
    let f = h.frame();
    let global = ActivationPtr { index: 0 };
    let slot = h.scopes.last().len() as u32;
    let text = h.strings[name.index as int];
    let scopes = scopes_define(h.scopes, text);
    h.lemma_elements_frame(form);
    assert(f.wf_cons());
    f.lemma_tail(form, 1);
    f.lemma_tail(form, 2);
    f.lemma_elements_parts(form);
    let rest = f.cdr(form).unwrap();
    f.lemma_elements_parts(rest);
    let last = f.cdr(rest).unwrap();
    f.lemma_elements_parts(last);
    assert(f.car(rest) == Some(definition));
    assert(f.car(last) == Some(Value::Symbol(name)));
    assert(f.cdr(last) == Some(Value::EmptyList));
    f.lemma_elements_stable(h, definition);
    lemma_define_self_evaluating(f, h.scopes, definition, name, v);
    lemma_lookup_defined(h.scopes, text);
    let set = Meaning::SetVariable(0, slot, Box::new(Meaning::Quotation(v)));
    let reference = Meaning::Reference(0, slot);
    assert(analyze_spec(f, scopes, Value::Symbol(name)) == (Analysis {
        result: Ok(reference),
        scopes,
    }));
    assert(make_meaning_sequence_spec(f, scopes, last) == (Analysis {
        result: Ok(reference),
        scopes,
    }));
    let sequence = Meaning::Sequence(Box::new(set), Box::new(reference));
    assert(make_meaning_sequence_spec(f, h.scopes, rest) == (Analysis {
        result: Ok(sequence),
        scopes,
    }));
    assert(f.cons[form->Pair_0.index as int].car == begin_value());
    assert(analyze_spec(f, h.scopes, form) == analyze_sequence_spec(f, h.scopes, form));
    assert(analyze_spec(f, h.scopes, form) == (Analysis { result: Ok(sequence), scopes }));
    let start = h.with_scopes(scopes);
    let fuel = h.step_limit;
    let depth = h.depth_limit;
    lemma_run_set_quotation(start, global, slot, v, (fuel - 1) as nat, (depth - 1) as nat);
    let stored = start.update(global, 0, slot as nat, v);
    law_sequence_order(set, reference, start, global, fuel, depth);
    assert(start.wf_activations());
    start.lemma_fetch_updated(global, 0, slot as nat, v);
    let step = step_spec(reference, stored, global, (fuel - 2) as nat, depth);
    assert(step.result == Ok::<Trampoline, Error>(Trampoline::Value(v)));
    assert(run_spec(reference, stored, global, (fuel - 1) as nat, depth).result == Ok::<
        Value,
        Error,
    >(v));
}

/// What `(set! name v)` means where `v` evaluates to itself and a scope
/// defines the name: `v` stored at the address of the name.
pub proof fn lemma_set_self_evaluating(
    h: HeapView,
    scopes: Seq<ScopeNames>,
    form: Value,
    name: StringPtr,
    v: Value,
)
    requires
        h.wf_cons(),
        h.valid_value(form),
        h.elements(form) == Some(seq![set_bang_value(), Value::Symbol(name), v]),
        v.self_evaluating(),
        scopes_lookup(scopes, h.strings[name.index as int]) is Some,
    ensures
        analyze_spec(h, scopes, form) == (Analysis {
            result: Ok(
                Meaning::SetVariable(
                    scopes_lookup(scopes, h.strings[name.index as int]).unwrap().0 as u32,
                    scopes_lookup(scopes, h.strings[name.index as int]).unwrap().1 as u32,
                    Box::new(Meaning::Quotation(v)),
                ),
            ),
            scopes,
        }),
{
    h.lemma_elements_parts(form);
    h.lemma_elements_ranks(form);
    let s = h.elements(form).unwrap();
    assert(s[1] == Value::Symbol(name));
    assert(s[2] == v);
    assert(h.cons[form->Pair_0.index as int].car == set_bang_value());
    assert(analyze_spec(h, scopes, form) == analyze_set_spec(h, scopes, form));
    assert(analyze_spec(h, scopes, v) == (Analysis {
        result: Ok(Meaning::Quotation(v)),
        scopes,
    }));
}

/// `(begin (define name v) (set! name w) name)` evaluates to `w`, whatever
/// the name and whatever values `v` and `w` that evaluate to themselves,
/// where the scope has room for the name and the limits allow four steps
/// and two levels.
pub proof fn law_define_set_reference(
    h: HeapView,
    form: Value,
    definition: Value,
    assignment: Value,
    name: StringPtr,
    v: Value,
    w: Value,
)
    requires
        h.wf(),
        h.valid_value(form),
        h.elements(form) == Some(seq![begin_value(), definition, assignment, Value::Symbol(name)]),
        h.elements(definition) == Some(seq![define_value(), Value::Symbol(name), v]),
        h.elements(assignment) == Some(seq![set_bang_value(), Value::Symbol(name), w]),
        v.self_evaluating(),
        w.self_evaluating(),
        h.scopes.last().len() < u32::MAX,
        h.step_limit >= 4,
        h.depth_limit >= 2,
    ensures
        evaluate_spec(h, form).result == Ok::<Value, Error>(w),
{
    let f = h.frame();
    let global = ActivationPtr { index: 0 };
    let slot = h.scopes.last().len() as u32;
    let text = h.strings[name.index as int];
    let scopes = scopes_define(h.scopes, text);
    h.lemma_elements_frame(form);
    assert(f.wf_cons());
    f.lemma_elements_ranks(form);
    f.lemma_elements_parts(form);
    let rest = f.cdr(form).unwrap();
    f.lemma_elements_parts(rest);
    let more = f.cdr(rest).unwrap();
    f.lemma_elements_parts(more);
    let last = f.cdr(more).unwrap();
    f.lemma_elements_parts(last);
    assert(f.car(rest) == Some(definition));
    assert(f.car(more) == Some(assignment));
    assert(f.car(last) == Some(Value::Symbol(name)));
    assert(f.cdr(last) == Some(Value::EmptyList));
    f.lemma_elements_stable(h, definition);
    f.lemma_elements_stable(h, assignment);
    lemma_define_self_evaluating(f, h.scopes, definition, name, v);
    lemma_lookup_defined(h.scopes, text);
    lemma_set_self_evaluating(f, scopes, assignment, name, w);
    let set_v = Meaning::SetVariable(0, slot, Box::new(Meaning::Quotation(v)));
    let set_w = Meaning::SetVariable(0, slot, Box::new(Meaning::Quotation(w)));
    let reference = Meaning::Reference(0, slot);
    assert(analyze_spec(f, scopes, Value::Symbol(name)) == (Analysis {
        result: Ok(reference),
        scopes,
    }));
    assert(make_meaning_sequence_spec(f, scopes, last) == (Analysis {
        result: Ok(reference),
        scopes,
    }));
    let inner = Meaning::Sequence(Box::new(set_w), Box::new(reference));
    assert(make_meaning_sequence_spec(f, scopes, more) == (Analysis { result: Ok(inner), scopes }));
    let outer = Meaning::Sequence(Box::new(set_v), Box::new(inner));
    assert(make_meaning_sequence_spec(f, h.scopes, rest) == (Analysis {
        result: Ok(outer),
        scopes,
    }));
    assert(f.cons[form->Pair_0.index as int].car == begin_value());
    assert(analyze_spec(f, h.scopes, form) == analyze_sequence_spec(f, h.scopes, form));
    assert(analyze_spec(f, h.scopes, form) == (Analysis { result: Ok(outer), scopes }));
    let start = h.with_scopes(scopes);
    let fuel = h.step_limit;
    let depth = h.depth_limit;
    lemma_run_set_quotation(start, global, slot, v, (fuel - 1) as nat, (depth - 1) as nat);
    let first = start.update(global, 0, slot as nat, v);
    law_sequence_order(set_v, inner, start, global, fuel, depth);
    lemma_run_set_quotation(first, global, slot, w, (fuel - 2) as nat, (depth - 1) as nat);
    let second = first.update(global, 0, slot as nat, w);
    law_sequence_order(set_w, reference, first, global, (fuel - 1) as nat, depth);
    assert(start.wf_chains());
    start.lemma_update_chains(global, 0, slot as nat, v);
    first.lemma_fetch_updated(global, 0, slot as nat, w);
    let step = step_spec(reference, second, global, (fuel - 3) as nat, depth);
    assert(step.result == Ok::<Trampoline, Error>(Trampoline::Value(w)));
    assert(run_spec(reference, second, global, (fuel - 2) as nat, depth).result == Ok::<
        Value,
        Error,
    >(w));
}

/// `(if c t e)`, where the three evaluate to themselves, evaluates to `e`
/// where `c` is the boolean false and to `t` on any other `c`: zero and the
/// empty string count as true. The heap stays as it is. The limits must
/// allow two steps and one level.
pub proof fn law_if_self_evaluating(h: HeapView, form: Value, c: Value, t: Value, e: Value)
    requires
        h.wf(),
        h.valid_value(form),
        h.elements(form) == Some(seq![if_value(), c, t, e]),
        c.self_evaluating(),
        t.self_evaluating(),
        e.self_evaluating(),
        h.step_limit >= 2,
        h.depth_limit >= 1,
    ensures
        evaluate_spec(h, form) == (Run {
            heap: h,
            result: Ok(
                if c == Value::Boolean(false) {
                    e
                } else {
                    t
                },
            ),
        }),
{
    let f = h.frame();
    let global = ActivationPtr { index: 0 };
    h.lemma_elements_frame(form);
    assert(f.wf_cons());
    f.lemma_elements_ranks(form);
    f.lemma_elements_parts(form);
    let s = f.elements(form).unwrap();
    assert(s[1] == c && s[2] == t && s[3] == e);
    assert(f.cons[form->Pair_0.index as int].car == if_value());
    assert(analyze_spec(f, h.scopes, form) == analyze_conditional_spec(f, h.scopes, form));
    assert(analyze_spec(f, h.scopes, c).result == Ok::<Meaning, Error>(Meaning::Quotation(c)));
    assert(analyze_spec(f, h.scopes, t).result == Ok::<Meaning, Error>(Meaning::Quotation(t)));
    assert(analyze_spec(f, h.scopes, e).result == Ok::<Meaning, Error>(Meaning::Quotation(e)));
    let conditional = Meaning::Conditional(
        Box::new(Meaning::Quotation(c)),
        Box::new(Meaning::Quotation(t)),
        Box::new(Meaning::Quotation(e)),
    );
    assert(analyze_spec(f, h.scopes, form) == (Analysis {
        result: Ok(conditional),
        scopes: h.scopes,
    }));
    assert(h.with_scopes(h.scopes) == h);
    let fuel = h.step_limit;
    let depth = h.depth_limit;
    lemma_run_quotation(c, h, global, (fuel - 1) as nat, (depth - 1) as nat);
    lemma_run_quotation(t, h, global, (fuel - 1) as nat, depth);
    lemma_run_quotation(e, h, global, (fuel - 1) as nat, depth);
    law_conditional(
        Meaning::Quotation(c),
        Meaning::Quotation(t),
        Meaning::Quotation(e),
        h,
        global,
        fuel,
        depth,
    );
}

/// Running a quotation takes one step and gives its value.
pub proof fn lemma_run_quotation(v: Value, h: HeapView, act: ActivationPtr, fuel: nat, depth: nat)
    requires
        fuel >= 1,
    ensures
        run_spec(Meaning::Quotation(v), h, act, fuel, depth) == (Run { heap: h, result: Ok(v) }),
{
    let step = step_spec(Meaning::Quotation(v), h, act, (fuel - 1) as nat, depth);
    assert(step.result == Ok::<Trampoline, Error>(Trampoline::Value(v)));
}

/// What a chain of values that evaluate to themselves means as a
/// sequence: each its own quotation, the first followed by the others.
pub open spec fn quotations(values: Seq<Value>) -> Meaning
    decreases values.len(),
{
    if values.len() <= 1 {
        Meaning::Quotation(values[0])
    } else {
        Meaning::Sequence(
            Box::new(Meaning::Quotation(values[0])),
            Box::new(quotations(values.drop_first())),
        )
    }
}

/// A chain of values that evaluate to themselves is analyzed to their
/// quotations in sequence, and the scopes stay as they are.
pub proof fn lemma_sequence_of_values(h: HeapView, scopes: Seq<ScopeNames>, forms: Value)
    requires
        h.wf_cons(),
        h.valid_value(forms),
        h.elements(forms) is Some,
        h.elements(forms).unwrap().len() >= 1,
        forall|i: int|
            0 <= i < h.elements(forms).unwrap().len() ==> (
            #[trigger] h.elements(forms).unwrap()[i]).self_evaluating(),
    ensures
        make_meaning_sequence_spec(h, scopes, forms) == (Analysis {
            result: Ok(quotations(h.elements(forms).unwrap())),
            scopes,
        }),
    decreases forms.rank(),
{
    let values = h.elements(forms).unwrap();
    h.lemma_elements_parts(forms);
    h.lemma_elements_ranks(forms);
    let cell = h.cons[forms->Pair_0.index as int];
    assert(cell.car == values[0]);
    assert(analyze_spec(h, scopes, cell.car) == (Analysis {
        result: Ok(Meaning::Quotation(values[0])),
        scopes,
    }));
    if values.len() > 1 {
        let rest = values.drop_first();
        assert(h.elements(cell.cdr) == Some(rest));
        assert forall|i: int| 0 <= i < rest.len() implies (#[trigger] rest[i]).self_evaluating() by {
            assert(rest[i] == values[i + 1]);
        }
        h.lemma_pair_parts(forms->Pair_0);
        lemma_sequence_of_values(h, scopes, cell.cdr);
    } else {
        assert(h.elements(cell.cdr) == Some(values.drop_first()));
        assert(values.drop_first().len() == 0);
    }
}

/// Running quotations in sequence gives the last value and leaves the heap
/// as it is, where the limits allow a step for each and one level.
pub proof fn lemma_run_quotations(
    values: Seq<Value>,
    h: HeapView,
    act: ActivationPtr,
    fuel: nat,
    depth: nat,
)
    requires
        values.len() >= 1,
        fuel >= values.len(),
        depth >= 1,
    ensures
        run_spec(quotations(values), h, act, fuel, depth) == (Run {
            heap: h,
            result: Ok(values.last()),
        }),
    decreases values.len(),
{
    if values.len() <= 1 {
        lemma_run_quotation(values[0], h, act, fuel, depth);
    } else {
        let rest = values.drop_first();
        lemma_run_quotation(values[0], h, act, (fuel - 1) as nat, (depth - 1) as nat);
        lemma_run_quotations(rest, h, act, (fuel - 1) as nat, depth);
        law_sequence_order(Meaning::Quotation(values[0]), quotations(rest), h, act, fuel, depth);
        assert(rest.last() == values.last());
    }
}

/// `(begin v ...)`, where every `v` evaluates to itself, evaluates to the
/// last one, and the heap stays as it is. The limits must allow a step for
/// each `v` and one level.
pub proof fn law_begin_gives_last(h: HeapView, form: Value, values: Seq<Value>)
    requires
        h.wf(),
        h.valid_value(form),
        h.elements(form) == Some(seq![begin_value()] + values),
        values.len() >= 1,
        forall|i: int| 0 <= i < values.len() ==> (#[trigger] values[i]).self_evaluating(),
        h.step_limit >= values.len(),
        h.depth_limit >= 1,
    ensures
        evaluate_spec(h, form) == (Run { heap: h, result: Ok(values.last()) }),
{
    let f = h.frame();
    let global = ActivationPtr { index: 0 };
    h.lemma_elements_frame(form);
    assert(f.wf_cons());
    f.lemma_elements_parts(form);
    let rest = f.cdr(form).unwrap();
    assert((seq![begin_value()] + values).drop_first() =~= values);
    assert((seq![begin_value()] + values)[0] == begin_value());
    assert(f.cons[form->Pair_0.index as int].car == begin_value());
    assert(analyze_spec(f, h.scopes, form) == analyze_sequence_spec(f, h.scopes, form));
    lemma_sequence_of_values(f, h.scopes, rest);
    assert(h.with_scopes(h.scopes) == h);
    lemma_run_quotations(values, h, global, h.step_limit, h.depth_limit);
}

/// A sequence runs its first meaning once, on the heap as it is, then its
/// second meaning once, on the heap as the first left it, and gives what
/// the second gives. The second runs at the depth of the sequence itself.
pub proof fn law_sequence_order(
    first: Meaning,
    second: Meaning,
    h: HeapView,
    act: ActivationPtr,
    fuel: nat,
    depth: nat,
)
    requires
        fuel >= 1,
        depth >= 1,
    ensures
        ({
            let sequence = Meaning::Sequence(Box::new(first), Box::new(second));
            let one = run_spec(first, h, act, (fuel - 1) as nat, (depth - 1) as nat);
            run_spec(sequence, h, act, fuel, depth) == (match one.result {
                Ok(_) => run_spec(second, one.heap, act, (fuel - 1) as nat, depth),
                Err(e) => Run { heap: one.heap, result: Err(e) },
            })
        }),
{
    let sequence = Meaning::Sequence(Box::new(first), Box::new(second));
    let step = step_spec(sequence, h, act, (fuel - 1) as nat, depth);
    let one = nested_spec(first, h, act, (fuel - 1) as nat, depth);
    assert(one == run_spec(first, h, act, (fuel - 1) as nat, (depth - 1) as nat));
}

/// The forms of a `begin` are analyzed first to last, each in the scopes
/// as the one before left them, and mean the first form's meaning followed
/// by that of the others.
pub proof fn law_begin_order(h: HeapView, scopes: Seq<ScopeNames>, form: Value, rest: Value)
    requires
        h.wf_cons(),
        h.valid_value(form),
        h.car(form) == Some(begin_value()),
        h.cdr(form) == Some(rest),
        rest is Pair,
        h.cdr(rest).unwrap() != Value::EmptyList,
    ensures
        ({
            let first = analyze_spec(h, scopes, h.car(rest).unwrap());
            let others = make_meaning_sequence_spec(h, first.scopes, h.cdr(rest).unwrap());
            analyze_spec(h, scopes, form) == (match first.result {
                Ok(m) => match others.result {
                    Ok(r) => Analysis {
                        result: Ok(Meaning::Sequence(Box::new(m), Box::new(r))),
                        scopes: others.scopes,
                    },
                    Err(_) => others,
                },
                Err(_) => first,
            })
        }),
{
    h.lemma_pair_parts(form->Pair_0);
    h.lemma_pair_parts(rest->Pair_0);
    assert(analyze_spec(h, scopes, form) == analyze_sequence_spec(h, scopes, form));
    assert(analyze_sequence_spec(h, scopes, form) == make_meaning_sequence_spec(h, scopes, rest));
}

/// A conditional goes on with the alternative where its condition gave the
/// boolean false, and with the consequent on any other value: zero and the
/// empty list count as true. What it goes on with runs at the depth of the
/// conditional itself.
pub proof fn law_conditional(
    condition: Meaning,
    consequent: Meaning,
    alternative: Meaning,
    h: HeapView,
    act: ActivationPtr,
    fuel: nat,
    depth: nat,
)
    requires
        fuel >= 1,
        depth >= 1,
    ensures
        ({
            let conditional = Meaning::Conditional(
                Box::new(condition),
                Box::new(consequent),
                Box::new(alternative),
            );
            let test = run_spec(condition, h, act, (fuel - 1) as nat, (depth - 1) as nat);
            run_spec(conditional, h, act, fuel, depth) == (match test.result {
                Ok(v) => if v == Value::Boolean(false) {
                    run_spec(alternative, test.heap, act, (fuel - 1) as nat, depth)
                } else {
                    run_spec(consequent, test.heap, act, (fuel - 1) as nat, depth)
                },
                Err(e) => Run { heap: test.heap, result: Err(e) },
            })
        }),
{
    let conditional = Meaning::Conditional(
        Box::new(condition),
        Box::new(consequent),
        Box::new(alternative),
    );
    let step = step_spec(conditional, h, act, (fuel - 1) as nat, depth);
    let test = nested_spec(condition, h, act, (fuel - 1) as nat, depth);
    assert(test == run_spec(condition, h, act, (fuel - 1) as nat, (depth - 1) as nat));
}

/// A call runs the body of the procedure at the depth of the invocation
/// itself: where the step of an invocation gives a meaning to go on with,
/// running the invocation is running that meaning in the activation of the
/// call, one unit of fuel later and no level deeper. So a chain of tail
/// calls, however long, nests no deeper than its first call.
pub proof fn law_tail_call(
    operator: Meaning,
    operands: Operands,
    h: HeapView,
    act: ActivationPtr,
    fuel: nat,
    depth: nat,
)
    requires
        fuel >= 1,
    ensures
        ({
            let invocation = Meaning::Invocation(Box::new(operator), Box::new(operands));
            let step = step_spec(invocation, h, act, (fuel - 1) as nat, depth);
            run_spec(invocation, h, act, fuel, depth) == (match step.result {
                Ok(Trampoline::Thunk(code)) => run_spec(
                    code,
                    step.heap,
                    step.act,
                    (fuel - 1) as nat,
                    depth,
                ),
                Ok(Trampoline::Value(v)) => Run { heap: step.heap, result: Ok(v) },
                Err(e) => Run { heap: step.heap, result: Err(e) },
            })
        }),
{
}

/// Invoking what is no procedure is a runtime error: where the operator
/// gives a value that is no procedure, the step of the invocation gives
/// that error. No operand is run, and the heap is as the operator left it.
pub proof fn law_not_a_procedure(
    operator: Meaning,
    operands: Operands,
    h: HeapView,
    act: ActivationPtr,
    fuel: nat,
    depth: nat,
)
    requires
        nested_spec(operator, h, act, fuel, depth).result is Ok,
        !(nested_spec(operator, h, act, fuel, depth).result->Ok_0 is Procedure),
    ensures
        step_spec(
            Meaning::Invocation(Box::new(operator), Box::new(operands)),
            h,
            act,
            fuel,
            depth,
        ).result == Err::<Trampoline, Error>(Error::NotAProcedure),
        step_spec(
            Meaning::Invocation(Box::new(operator), Box::new(operands)),
            h,
            act,
            fuel,
            depth,
        ).heap == nested_spec(operator, h, act, fuel, depth).heap,
        Error::NotAProcedure.is_runtime(),
{
}

/// Calling a procedure with the wrong number of operands is a runtime
/// error: too few for the parameters that are named, or, without a symbol
/// for the rest, too many. The heap stays as it is.
pub proof fn law_wrong_argument_count(
    h: HeapView,
    p: ProcedurePtr,
    args: Seq<Value>,
    act: ActivationPtr,
)
    requires
        h.codes[p.index as int] is Some,
        match param_shape(h, h.procedures[p.index as int].params) {
            Some((n, rest)) => args.len() < n || (!rest && args.len() > n),
            None => true,
        },
    ensures
        apply_spec(h, p, args, act).result == Err::<Trampoline, Error>(Error::WrongArgumentCount),
        apply_spec(h, p, args, act).heap == h,
        Error::WrongArgumentCount.is_runtime(),
{
}

/// An improper list has no elements, and so no length: a chain of pairs
/// that ends in anything but the empty list.
pub proof fn law_improper_list(h: HeapView, v: Value)
    requires
        h.wf_cons(),
        h.valid_value(v),
        !(h.last_cdr(v) is EmptyList),
    ensures
        h.elements(v) is None,
    decreases v.rank(),
{
    match v {
        Value::Pair(c) => {
            h.lemma_pair_parts(c);
            law_improper_list(h, h.cons[c.index as int].cdr);
        },
        _ => {},
    }
}

/// A proper list has elements: a chain of pairs that ends in the empty
/// list.
pub proof fn law_proper_list(h: HeapView, v: Value)
    requires
        h.wf_cons(),
        h.valid_value(v),
        h.last_cdr(v) is EmptyList,
    ensures
        h.elements(v) is Some,
    decreases v.rank(),
{
    match v {
        Value::Pair(c) => {
            h.lemma_pair_parts(c);
            law_proper_list(h, h.cons[c.index as int].cdr);
        },
        _ => {},
    }
}


/// Whether a result is that of an evaluation cut short by a limit.
pub open spec fn cut_short<T>(r: Result<T, Error>) -> bool {
    r matches Err(e) && (e == Error::StepLimit || e == Error::DepthLimit)
}

/// The limits only cut evaluation short: what a run gives under some
/// limits, unless it is cut short, it gives under any limits that are no
/// smaller, and it leaves the same heap.
pub proof fn law_run_limits(
    m: Meaning,
    h: HeapView,
    act: ActivationPtr,
    fuel: nat,
    depth: nat,
    more_fuel: nat,
    more_depth: nat,
)
    requires
        fuel <= more_fuel,
        depth <= more_depth,
        !cut_short(run_spec(m, h, act, fuel, depth).result),
    ensures
        run_spec(m, h, act, more_fuel, more_depth) == run_spec(m, h, act, fuel, depth),
    decreases fuel, 0nat, 0nat,
{
    if fuel > 0 {
        let s = step_spec(m, h, act, (fuel - 1) as nat, depth);
        law_step_limits(
            m,
            h,
            act,
            (fuel - 1) as nat,
            depth,
            (more_fuel - 1) as nat,
            more_depth,
        );
        match s.result {
            Ok(Trampoline::Thunk(next)) => {
                law_run_limits(
                    next,
                    s.heap,
                    s.act,
                    (fuel - 1) as nat,
                    depth,
                    (more_fuel - 1) as nat,
                    more_depth,
                );
            },
            _ => {},
        }
    }
}

/// The same for a run inside a step.
pub proof fn law_nested_limits(
    m: Meaning,
    h: HeapView,
    act: ActivationPtr,
    fuel: nat,
    depth: nat,
    more_fuel: nat,
    more_depth: nat,
)
    requires
        fuel <= more_fuel,
        depth <= more_depth,
        !cut_short(nested_spec(m, h, act, fuel, depth).result),
    ensures
        nested_spec(m, h, act, more_fuel, more_depth) == nested_spec(m, h, act, fuel, depth),
    decreases fuel, 1nat, 0nat,
{
    if depth > 0 {
        law_run_limits(
            m,
            h,
            act,
            fuel,
            (depth - 1) as nat,
            more_fuel,
            (more_depth - 1) as nat,
        );
    }
}

/// The same for the operands of an invocation.
pub proof fn law_operands_limits(
    ops: Operands,
    h: HeapView,
    act: ActivationPtr,
    fuel: nat,
    depth: nat,
    more_fuel: nat,
    more_depth: nat,
)
    requires
        fuel <= more_fuel,
        depth <= more_depth,
        !cut_short(operands_spec(ops, h, act, fuel, depth).result),
    ensures
        operands_spec(ops, h, act, more_fuel, more_depth) == operands_spec(
            ops,
            h,
            act,
            fuel,
            depth,
        ),
    decreases fuel, 2nat, ops.count(),
{
    match ops {
        Operands::Empty => {},
        Operands::More(m, rest) => {
            let first = nested_spec(*m, h, act, fuel, depth);
            law_nested_limits(*m, h, act, fuel, depth, more_fuel, more_depth);
            if first.result is Ok {
                law_operands_limits(*rest, first.heap, act, fuel, depth, more_fuel, more_depth);
            }
        },
    }
}

/// The same for one step.
pub proof fn law_step_limits(
    m: Meaning,
    h: HeapView,
    act: ActivationPtr,
    fuel: nat,
    depth: nat,
    more_fuel: nat,
    more_depth: nat,
)
    requires
        fuel <= more_fuel,
        depth <= more_depth,
        !cut_short(step_spec(m, h, act, fuel, depth).result),
    ensures
        step_spec(m, h, act, more_fuel, more_depth) == step_spec(m, h, act, fuel, depth),
    decreases fuel, 3nat, 0nat,
{
    match m {
        Meaning::Quotation(_) => {},
        Meaning::Reference(_, _) => {},
        Meaning::SetVariable(_, _, value) => {
            law_nested_limits(*value, h, act, fuel, depth, more_fuel, more_depth);
        },
        Meaning::Conditional(condition, _, _) => {
            law_nested_limits(*condition, h, act, fuel, depth, more_fuel, more_depth);
        },
        Meaning::Sequence(first, _) => {
            law_nested_limits(*first, h, act, fuel, depth, more_fuel, more_depth);
        },
        Meaning::Lambda { .. } => {},
        Meaning::Invocation(operator, operands) => {
            let f = nested_spec(*operator, h, act, fuel, depth);
            law_nested_limits(*operator, h, act, fuel, depth, more_fuel, more_depth);
            match f.result {
                Ok(Value::Procedure(p)) => {
                    law_operands_limits(
                        *operands,
                        f.heap,
                        act,
                        fuel,
                        depth,
                        more_fuel,
                        more_depth,
                    );
                },
                _ => {},
            }
        },
    }
}

/// A handle that is good stays good: whatever a heap grows to, a value of
/// the heap is a value of the grown heap, an activation is an activation of
/// it at the same distance from the global one, and a list has the
/// elements that it had, where no cons cell changed. So a handle needs no
/// care to survive an allocation.
pub proof fn law_handles_survive(before: HeapView, after: HeapView, v: Value, a: ActivationPtr)
    requires
        before.grown_to(after),
        before.cons_prefix_of(after),
        before.valid_value(v),
        before.valid_activation(a),
    ensures
        after.valid_value(v),
        after.valid_activation(a),
        after.chain_len(a) == before.chain_len(a),
        after.elements(v) == before.elements(v),
{
    before.lemma_chain_len_stable(after, a);
    before.lemma_elements_stable(after, v);
}

impl HeapView {
    /// The handle leads to a record of this heap.
    pub open spec fn holds(self, t: GcThing) -> bool {
        match t {
            GcThing::Cons(c) => c.index < self.cons.len(),
            GcThing::String(s) => s.index < self.strings.len(),
            GcThing::Procedure(p) => p.index < self.procedures.len(),
            GcThing::Activation(a) => a.index < self.activations.len(),
        }
    }
}

/// Tracing a value of the heap gives at most one handle, and it leads to a
/// record of the heap.
pub proof fn law_value_trace(h: HeapView, v: Value)
    requires
        h.valid_value(v),
    ensures
        v.trace_set().len() <= 1,
        forall|k: int| 0 <= k < v.trace_set().len() ==> h.holds(#[trigger] v.trace_set()[k]),
        v.trace_set().len() == 1 <==> (v is Pair || v is String || v is Symbol || v is Procedure),
{
}

/// Tracing a cons cell of a heap that is in order gives at most two
/// handles, and they lead to records of the heap.
pub proof fn law_cons_trace(h: HeapView, c: ConsPtr)
    requires
        h.inv(),
        c.index < h.cons.len(),
    ensures
        h.cons[c.index as int].trace_set().len() <= 2,
        forall|k: int|
            0 <= k < h.cons[c.index as int].trace_set().len() ==> h.holds(
                #[trigger] h.cons[c.index as int].trace_set()[k],
            ),
{
    h.lemma_pair_parts(c);
    let cell = h.cons[c.index as int];
    law_value_trace(h, cell.car);
    law_value_trace(h, cell.cdr);
}

/// Tracing a procedure of a heap that is in order gives at most three
/// handles, the last of them the activation that the procedure was made
/// in, and they lead to records of the heap.
pub proof fn law_procedure_trace(h: HeapView, p: ProcedurePtr)
    requires
        h.inv(),
        p.index < h.procedures.len(),
    ensures
        1 <= h.procedures[p.index as int].trace_set().len() <= 3,
        h.procedures[p.index as int].trace_set().last() == GcThing::Activation(
            h.procedures[p.index as int].env,
        ),
        forall|k: int|
            0 <= k < h.procedures[p.index as int].trace_set().len() ==> h.holds(
                #[trigger] h.procedures[p.index as int].trace_set()[k],
            ),
{
    let record = h.procedures[p.index as int];
    law_value_trace(h, record.params);
    law_value_trace(h, record.body);
}

} // verus!
