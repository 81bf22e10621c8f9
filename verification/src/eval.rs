//! Evaluation: running a meaning in an activation. One step runs one
//! meaning and gives a value or the meaning to go on with; a driver takes
//! steps until there is a value. What stands in tail position is handed back
//! to the driver, so a chain of tail calls runs in one frame of it.

use vstd::prelude::*;
use crate::analyze::{analyze, analyze_spec};
use crate::heap::{unspecified_value, Heap, HeapView};
use crate::list::list;
use crate::meaning::{Error, Meaning, Operands, Trampoline};
use crate::value::{ActivationPtr, Procedure, ProcedurePtr, Value};

verus! {

/// What one step gives: the heap after it, the activation to go on in, and
/// the value, the meaning to go on with, or the error.
pub struct Step {
    pub heap: HeapView,
    pub act: ActivationPtr,
    pub result: Result<Trampoline, Error>,
}

/// What running a meaning gives: the heap after it, and the value or the
/// error.
pub struct Run {
    pub heap: HeapView,
    pub result: Result<Value, Error>,
}

/// What running the operands of an invocation gives: the heap after it,
/// and their values, first to last, or the error.
pub struct OperandsRun {
    pub heap: HeapView,
    pub result: Result<Seq<Value>, Error>,
}

/// The slots of a new activation, and the heap with the list that one of
/// them may need.
pub struct Binding {
    pub heap: HeapView,
    pub slots: Seq<Value>,
}

/// How many parameters a parameter list names one by one, and whether it
/// ends in a symbol for the rest: a chain of pairs that ends in the empty
/// list or in a symbol.
pub open spec fn param_shape(h: HeapView, params: Value) -> Option<(nat, bool)>
    decreases params.rank(),
{
    match params {
        Value::EmptyList => Some((0nat, false)),
        Value::Symbol(_) => Some((0nat, true)),
        Value::Pair(c) => {
            let cell = h.cons[c.index as int];
            if c.index < h.cons.len() && cell.cdr.rank() < params.rank() {
                match param_shape(h, cell.cdr) {
                    Some((n, rest)) => Some((n + 1, rest)),
                    None => None,
                }
            } else {
                None
            }
        },
        _ => None,
    }
}

/// The slots that the operands fill. Each parameter that is named takes
/// one operand, in order. With a symbol for the rest there may be more
/// operands than names: they go, as a fresh list, into the slot after the
/// named ones. Without it there are as many operands as names.
pub open spec fn bind_spec(h: HeapView, params: Value, args: Seq<Value>) -> Option<Binding> {
    match param_shape(h, params) {
        Some((n, rest)) => if rest {
            if args.len() >= n {
                let surplus = args.subrange(n as int, args.len() as int);
                Some(
                    Binding {
                        heap: h.with_list(surplus),
                        slots: args.subrange(0, n as int).push(h.list_value(surplus)),
                    },
                )
            } else {
                None
            }
        } else {
            if args.len() == n {
                Some(Binding { heap: h, slots: args })
            } else {
                None
            }
        },
        None => None,
    }
}

/// The call of a procedure with the values of the operands: a new
/// activation inside the one that the procedure was made in, with the
/// operands in its slots, and the meaning of the procedure's body to go on
/// with in it.
pub open spec fn apply_spec(
    h: HeapView,
    p: ProcedurePtr,
    args: Seq<Value>,
    act: ActivationPtr,
) -> Step {
    match h.codes[p.index as int] {
        Some(code) => match bind_spec(h, h.procedures[p.index as int].params, args) {
            Some(b) => Step {
                heap: b.heap.push_activation(h.procedures[p.index as int].env, b.slots),
                act: ActivationPtr { index: h.activations.len() as usize },
                result: Ok(Trampoline::Thunk(code)),
            },
            None => Step { heap: h, act, result: Err(Error::WrongArgumentCount) },
        },
        None => Step { heap: h, act, result: Err(Error::NoProcedureBody) },
    }
}

/// Running a meaning: steps are taken until one gives a value or an error.
/// Each step takes one unit of fuel; without fuel there is no step.
pub open spec fn run_spec(m: Meaning, h: HeapView, act: ActivationPtr, fuel: nat, depth: nat) -> Run
    decreases fuel, 0nat, 0nat,
{
    if fuel == 0 {
        Run { heap: h, result: Err(Error::StepLimit) }
    } else {
        let s = step_spec(m, h, act, (fuel - 1) as nat, depth);
        match s.result {
            Ok(Trampoline::Value(v)) => Run { heap: s.heap, result: Ok(v) },
            Ok(Trampoline::Thunk(next)) => run_spec(next, s.heap, s.act, (fuel - 1) as nat, depth),
            Err(e) => Run { heap: s.heap, result: Err(e) },
        }
    }
}

/// Running a meaning inside a step: one level deeper, where the depth
/// allows one, with the fuel that the step has.
pub open spec fn nested_spec(
    m: Meaning,
    h: HeapView,
    act: ActivationPtr,
    fuel: nat,
    depth: nat,
) -> Run
    decreases fuel, 1nat, 0nat,
{
    if depth == 0 {
        Run { heap: h, result: Err(Error::DepthLimit) }
    } else {
        run_spec(m, h, act, fuel, (depth - 1) as nat)
    }
}

/// Running the operands of an invocation, first to last.
pub open spec fn operands_spec(
    ops: Operands,
    h: HeapView,
    act: ActivationPtr,
    fuel: nat,
    depth: nat,
) -> OperandsRun
    decreases fuel, 2nat, ops.count(),
{
    match ops {
        Operands::Empty => OperandsRun { heap: h, result: Ok(Seq::empty()) },
        Operands::More(m, rest) => {
            let first = nested_spec(*m, h, act, fuel, depth);
            match first.result {
                Ok(v) => {
                    let others = operands_spec(*rest, first.heap, act, fuel, depth);
                    match others.result {
                        Ok(vs) => OperandsRun { heap: others.heap, result: Ok(seq![v] + vs) },
                        Err(_) => others,
                    }
                },
                Err(e) => OperandsRun { heap: first.heap, result: Err(e) },
            }
        },
    }
}

/// One step.
///
/// A quotation gives its value and a reference the value of its variable.
/// An assignment runs the value's meaning, stores what it gives and gives
/// the unspecified value. A conditional runs the condition and goes on with
/// the alternative where that gave the boolean false, with the consequent
/// on any other value. A sequence runs the first meaning and goes on with
/// the second. A procedure literal gives a new procedure, made in the
/// activation of the step. An invocation runs the operator, which must give
/// a procedure, then the operands, and goes on with the call.
pub open spec fn step_spec(m: Meaning, h: HeapView, act: ActivationPtr, fuel: nat, depth: nat) -> Step
    decreases fuel, 3nat, 0nat,
{
    match m {
        Meaning::Quotation(v) => Step { heap: h, act, result: Ok(Trampoline::Value(v)) },
        Meaning::Reference(i, j) => Step {
            heap: h,
            act,
            result: Ok(Trampoline::Value(h.fetch(act, i as nat, j as nat))),
        },
        Meaning::SetVariable(i, j, value) => {
            let r = nested_spec(*value, h, act, fuel, depth);
            match r.result {
                Ok(v) => Step {
                    heap: r.heap.update(act, i as nat, j as nat, v),
                    act,
                    result: Ok(Trampoline::Value(unspecified_value())),
                },
                Err(e) => Step { heap: r.heap, act, result: Err(e) },
            }
        },
        Meaning::Conditional(condition, consequent, alternative) => {
            let r = nested_spec(*condition, h, act, fuel, depth);
            match r.result {
                Ok(v) => Step {
                    heap: r.heap,
                    act,
                    result: Ok(
                        Trampoline::Thunk(
                            if v == Value::Boolean(false) {
                                *alternative
                            } else {
                                *consequent
                            },
                        ),
                    ),
                },
                Err(e) => Step { heap: r.heap, act, result: Err(e) },
            }
        },
        Meaning::Sequence(first, second) => {
            let r = nested_spec(*first, h, act, fuel, depth);
            match r.result {
                Ok(_) => Step { heap: r.heap, act, result: Ok(Trampoline::Thunk(*second)) },
                Err(e) => Step { heap: r.heap, act, result: Err(e) },
            }
        },
        Meaning::Lambda { params, body, code } => Step {
            heap: h.push_procedure(Procedure { params, body, env: act }, Some(*code)),
            act,
            result: Ok(
                Trampoline::Value(
                    Value::Procedure(ProcedurePtr { index: h.procedures.len() as usize }),
                ),
            ),
        },
        Meaning::Invocation(operator, operands) => {
            let f = nested_spec(*operator, h, act, fuel, depth);
            match f.result {
                Ok(Value::Procedure(p)) => {
                    let args = operands_spec(*operands, f.heap, act, fuel, depth);
                    match args.result {
                        Ok(values) => apply_spec(args.heap, p, values, act),
                        Err(e) => Step { heap: args.heap, act, result: Err(e) },
                    }
                },
                Ok(_) => Step { heap: f.heap, act, result: Err(Error::NotAProcedure) },
                Err(e) => Step { heap: f.heap, act, result: Err(e) },
            }
        },
    }
}

/// What evaluating a form in the global activation gives: the static error
/// of its analysis, or what running its meaning gives under the heap's
/// limits.
pub open spec fn evaluate_spec(h: HeapView, form: Value) -> Run {
    let analysis = analyze_spec(h.frame(), h.scopes, form);
    match analysis.result {
        Ok(m) => run_spec(
            m,
            h.with_scopes(analysis.scopes),
            ActivationPtr { index: 0 },
            h.step_limit,
            h.depth_limit,
        ),
        Err(e) => Run { heap: h.with_scopes(analysis.scopes), result: Err(e) },
    }
}

/// What evaluating forms one after the other gives, having got the value
/// `last` so far: the value of the last form, or the first error, after
/// which no form is evaluated.
pub open spec fn evaluate_all_spec(h: HeapView, forms: Seq<Value>, last: Value) -> Run
    decreases forms.len(),
{
    if forms.len() == 0 {
        Run { heap: h, result: Ok(last) }
    } else {
        let first = evaluate_spec(h, forms[0]);
        match first.result {
            Ok(v) => evaluate_all_spec(first.heap, forms.drop_first(), v),
            Err(_) => first,
        }
    }
}

impl HeapView {
    /// Evaluation took the heap from `self` to `after`: no record went
    /// away, no cons cell, string or procedure changed, no activation
    /// changed its place, and the scopes and limits are as they were.
    pub open spec fn evolved_to(self, after: HeapView) -> bool {
        &&& self.grown_to(after)
        &&& self.cons_prefix_of(after)
        &&& self.strings == after.strings
        &&& self.symbols == after.symbols
        &&& self.scopes == after.scopes
        &&& self.step_limit == after.step_limit
        &&& self.depth_limit == after.depth_limit
    }

    /// One evolution after another is an evolution.
    pub proof fn lemma_evolved_trans(self, mid: HeapView, after: HeapView)
        requires
            self.evolved_to(mid),
            mid.evolved_to(after),
        ensures
            self.evolved_to(after),
    {
        assert forall|i: int| 0 <= i < self.activations.len() implies (
        #[trigger] self.activations[i]).parent == after.activations[i].parent by {
            assert(self.activations[i].parent == mid.activations[i].parent);
        }
        assert forall|i: int| 0 <= i < self.procedures.len() implies (#[trigger] self.procedures[i])
            == after.procedures[i] by {
            assert(self.procedures[i] == mid.procedures[i]);
        }
        assert forall|i: int| 0 <= i < self.codes.len() implies (#[trigger] self.codes[i])
            == after.codes[i] by {
            assert(self.codes[i] == mid.codes[i]);
        }
        assert forall|i: int| 0 <= i < self.cons.len() implies (#[trigger] self.cons[i])
            == after.cons[i] by {
            assert(self.cons[i] == mid.cons[i]);
        }
    }

    /// A meaning that could run in an activation of a heap can run in it
    /// after the heap evolved.
    pub proof fn lemma_runnable_evolves(self, after: HeapView, m: Meaning, act: ActivationPtr)
        requires
            self.evolved_to(after),
            self.valid_activation(act),
            self.valid_meaning(m),
            m.closed(self.chain_len(act)),
        ensures
            after.valid_activation(act),
            after.valid_meaning(m),
            m.closed(after.chain_len(act)),
            after.chain_len(act) == self.chain_len(act),
    {
        self.lemma_valid_meaning_grows(after, m);
        self.lemma_chain_len_stable(after, act);
    }
}

/// A run went as stated: the heap after it and the result are the stated
/// ones, the heap is in order and evolved from the one before, a value is
/// a value of the heap, and an error is a runtime error.
pub open spec fn run_holds(
    before: HeapView,
    after: HeapView,
    stated: Run,
    r: Result<Value, Error>,
) -> bool {
    &&& after == stated.heap
    &&& r == stated.result
    &&& after.inv()
    &&& before.evolved_to(after)
    &&& match r {
        Ok(v) => after.valid_value(v),
        Err(e) => e.is_runtime(),
    }
}

/// A step went as stated: the heap after it, the activation to go on in
/// and the result are the stated ones, the heap is in order and evolved
/// from the one before, a value is a value of the heap, a meaning to go on
/// with can run in the activation, and an error is a runtime error.
pub open spec fn step_holds(
    before: HeapView,
    after: HeapView,
    act: ActivationPtr,
    stated: Step,
    r: Result<Trampoline, Error>,
) -> bool {
    &&& after == stated.heap
    &&& act == stated.act
    &&& r == stated.result
    &&& after.inv()
    &&& before.evolved_to(after)
    &&& after.valid_activation(act)
    &&& match r {
        Ok(Trampoline::Value(v)) => after.valid_value(v),
        Ok(Trampoline::Thunk(m)) => after.valid_meaning(m) && m.closed(after.chain_len(act)),
        Err(e) => e.is_runtime(),
    }
}


/// The meaning can run in the activation: the heap is in order, the
/// activation is one of its activations, the meaning holds only values of
/// the heap, and every address in it leads to an activation on the way from
/// this one to the global one.
pub open spec fn runnable(h: HeapView, m: Meaning, act: ActivationPtr) -> bool {
    &&& h.inv()
    &&& h.valid_activation(act)
    &&& h.valid_meaning(m)
    &&& m.closed(h.chain_len(act))
}

/// The shape of a parameter list, if it is one.
pub fn param_shape_of(heap: &Heap, params: Value) -> (r: Option<(usize, bool)>)
    requires
        heap@.inv(),
        heap@.valid_value(params),
    ensures
        match param_shape(heap@, params) {
            Some((n, rest)) => r == Some((n as usize, rest)) && n <= usize::MAX,
            None => r is None,
        },
{
    let mut cur = params;
    let mut n: usize = 0;
    loop
        invariant
            heap@.inv(),
            heap@.valid_value(cur),
            params.rank() <= usize::MAX,
            n + cur.rank() <= params.rank(),
            param_shape(heap@, params) == match param_shape(heap@, cur) {
                Some((k, rest)) => Some(((k + n) as nat, rest)),
                None => None,
            },
        decreases cur.rank(),
    {
        match cur {
            Value::EmptyList => {
                return Some((n, false));
            },
            Value::Symbol(_) => {
                return Some((n, true));
            },
            Value::Pair(c) => {
                proof {
                    heap@.lemma_pair_parts(c);
                }
                cur = heap.cons(c).cdr();
                n = n + 1;
            },
            _ => {
                return None;
            },
        }
    }
}

/// Fit the values of the operands to the parameter list: give the slots of
/// the new activation, or nothing where the count is wrong.
pub fn bind(heap: &mut Heap, params: Value, args: Vec<Value>) -> (r: Option<Vec<Value>>)
    requires
        old(heap)@.inv(),
        old(heap)@.valid_value(params),
        forall|i: int| 0 <= i < args@.len() ==> old(heap)@.valid_value(#[trigger] args@[i]),
    ensures
        final(heap)@.inv(),
        old(heap)@.evolved_to(final(heap)@),
        match bind_spec(old(heap)@, params, args@) {
            Some(b) => r is Some && r.unwrap()@ == b.slots && final(heap)@ == b.heap,
            None => r is None && final(heap)@ == old(heap)@,
        },
        r is Some ==> forall|i: int|
            0 <= i < r.unwrap()@.len() ==> final(heap)@.valid_value(#[trigger] r.unwrap()@[i]),
{
    let (n, rest) = match param_shape_of(heap, params) {
        Some(shape) => shape,
        None => {
            return None;
        },
    };
    if !rest {
        if args.len() == n {
            Some(args)
        } else {
            None
        }
    } else {
        if args.len() < n {
            return None;
        }
        let mut slots = args;
        let surplus = slots.split_off(n);
        let tail = list(heap, surplus.as_slice());
        proof {
            assert(old(heap)@.cons_prefix_of(heap@));
        }
        slots.push(tail);
        Some(slots)
    }
}

/// Call the procedure with the values of the operands: make the activation
/// of the call, set `act` to it, and give the meaning of the procedure's
/// body to go on with.
pub fn apply(heap: &mut Heap, p: ProcedurePtr, args: Vec<Value>, act: &mut ActivationPtr) -> (r:
    Result<Trampoline, Error>)
    requires
        old(heap)@.inv(),
        old(heap)@.valid_activation(*old(act)),
        p.index < old(heap)@.procedures.len(),
        forall|i: int| 0 <= i < args@.len() ==> old(heap)@.valid_value(#[trigger] args@[i]),
    ensures
        step_holds(
            old(heap)@,
            final(heap)@,
            *final(act),
            apply_spec(old(heap)@, p, args@, *old(act)),
            r,
        ),
{
    let record = heap.procedure(p);
    let code = match heap.code(p) {
        Some(m) => m.clone(),
        None => {
            return Err(Error::NoProcedureBody);
        },
    };
    let slots = match bind(heap, record.params, args) {
        Some(slots) => slots,
        None => {
            return Err(Error::WrongArgumentCount);
        },
    };
    let ghost mid = heap@;
    proof {
        old(heap)@.lemma_valid_meaning_grows(mid, code);
        old(heap)@.lemma_chain_len_stable(mid, record.env);
    }
    *act = heap.allocate_activation(record.env, slots);
    proof {
        mid.lemma_valid_meaning_grows(heap@, code);
        assert(mid.evolved_to(heap@));
        old(heap)@.lemma_evolved_trans(mid, heap@);
    }
    Ok(Trampoline::Thunk(code))
}

/// Run the meaning inside a step: one level deeper, where the depth allows
/// one.
pub fn evaluate_nested(
    m: &Meaning,
    heap: &mut Heap,
    act: ActivationPtr,
    fuel: u64,
    depth: usize,
) -> (r: Result<Value, Error>)
    requires
        runnable(old(heap)@, *m, act),
    ensures
        run_holds(
            old(heap)@,
            final(heap)@,
            nested_spec(*m, old(heap)@, act, fuel as nat, depth as nat),
            r,
        ),
    decreases fuel, 1nat, 0nat,
{
    if depth == 0 {
        return Err(Error::DepthLimit);
    }
    m.run(heap, act, fuel, depth - 1)
}

/// The step of a quotation: its value.
pub fn meaning_quotation_function(value: Value) -> (r: Result<Trampoline, Error>)
    ensures
        r == Ok::<Trampoline, Error>(Trampoline::Value(value)),
{
    Ok(Trampoline::Value(value))
}

/// The step of a reference: the value of the variable at the address.
pub fn meaning_reference_function(heap: &Heap, i: u32, j: u32, act: ActivationPtr) -> (r: Result<
    Trampoline,
    Error,
>)
    requires
        heap@.inv(),
        heap@.valid_activation(act),
        i < heap@.chain_len(act),
    ensures
        r == Ok::<Trampoline, Error>(Trampoline::Value(heap@.fetch(act, i as nat, j as nat))),
        heap@.valid_value(heap@.fetch(act, i as nat, j as nat)),
{
    Ok(Trampoline::Value(heap.fetch(act, i, j)))
}

/// The step of an assignment: run the value's meaning, store what it
/// gives, and give the unspecified value.
pub fn meaning_set_variable(
    heap: &mut Heap,
    i: u32,
    j: u32,
    definition_value_meaning: &Meaning,
    act: ActivationPtr,
    fuel: u64,
    depth: usize,
) -> (r: Result<Trampoline, Error>)
    requires
        runnable(old(heap)@, *definition_value_meaning, act),
        i < old(heap)@.chain_len(act),
    ensures
        step_holds(
            old(heap)@,
            final(heap)@,
            act,
            step_spec(
                Meaning::SetVariable(i, j, Box::new(*definition_value_meaning)),
                old(heap)@,
                act,
                fuel as nat,
                depth as nat,
            ),
            r,
        ),
    decreases fuel, 3nat, 0nat,
{
    let val = match evaluate_nested(definition_value_meaning, heap, act, fuel, depth) {
        Ok(v) => v,
        Err(e) => {
            return Err(e);
        },
    };
    let ghost mid = heap@;
    proof {
        old(heap)@.lemma_chain_len_stable(mid, act);
    }
    heap.update(act, i, j, val);
    proof {
        mid.lemma_ancestor(act, i as nat);
        assert(mid.evolved_to(heap@));
        old(heap)@.lemma_evolved_trans(mid, heap@);
    }
    Ok(Trampoline::Value(heap.unspecified_symbol()))
}

/// The step of a conditional: run the condition, and go on with the
/// alternative where it gave the boolean false, with the consequent
/// otherwise.
pub fn meaning_conditional(
    heap: &mut Heap,
    condition: &Meaning,
    consequent: &Meaning,
    alternative: &Meaning,
    act: ActivationPtr,
    fuel: u64,
    depth: usize,
) -> (r: Result<Trampoline, Error>)
    requires
        runnable(old(heap)@, *condition, act),
        runnable(old(heap)@, *consequent, act),
        runnable(old(heap)@, *alternative, act),
    ensures
        step_holds(
            old(heap)@,
            final(heap)@,
            act,
            step_spec(
                Meaning::Conditional(
                    Box::new(*condition),
                    Box::new(*consequent),
                    Box::new(*alternative),
                ),
                old(heap)@,
                act,
                fuel as nat,
                depth as nat,
            ),
            r,
        ),
    decreases fuel, 3nat, 0nat,
{
    let val = match evaluate_nested(condition, heap, act, fuel, depth) {
        Ok(v) => v,
        Err(e) => {
            return Err(e);
        },
    };
    proof {
        old(heap)@.lemma_runnable_evolves(heap@, *consequent, act);
        old(heap)@.lemma_runnable_evolves(heap@, *alternative, act);
    }
    Ok(
        Trampoline::Thunk(
            if val == Value::new_boolean(false) {
                alternative.clone()
            } else {
                consequent.clone()
            },
        ),
    )
}

/// The step of a sequence: run the first meaning, and go on with the
/// second.
pub fn meaning_sequence(
    heap: &mut Heap,
    first: &Meaning,
    second: &Meaning,
    act: ActivationPtr,
    fuel: u64,
    depth: usize,
) -> (r: Result<Trampoline, Error>)
    requires
        runnable(old(heap)@, *first, act),
        runnable(old(heap)@, *second, act),
    ensures
        step_holds(
            old(heap)@,
            final(heap)@,
            act,
            step_spec(
                Meaning::Sequence(Box::new(*first), Box::new(*second)),
                old(heap)@,
                act,
                fuel as nat,
                depth as nat,
            ),
            r,
        ),
    decreases fuel, 3nat, 0nat,
{
    match evaluate_nested(first, heap, act, fuel, depth) {
        Ok(_) => {},
        Err(e) => {
            return Err(e);
        },
    }
    proof {
        old(heap)@.lemma_runnable_evolves(heap@, *second, act);
    }
    Ok(Trampoline::Thunk(second.clone()))
}

/// The step of a procedure literal: a new procedure, made in the
/// activation of the step.
pub fn meaning_lambda(
    heap: &mut Heap,
    params: Value,
    body: Value,
    code: &Meaning,
    act: ActivationPtr,
) -> (r: Result<Trampoline, Error>)
    requires
        old(heap)@.inv(),
        old(heap)@.valid_activation(act),
        old(heap)@.valid_value(params),
        old(heap)@.valid_value(body),
        old(heap)@.valid_meaning(*code),
        code.closed(old(heap)@.chain_len(act) + 1),
    ensures
        step_holds(
            old(heap)@,
            final(heap)@,
            act,
            Step {
                heap: old(heap)@.push_procedure(Procedure { params, body, env: act }, Some(*code)),
                act,
                result: Ok(
                    Trampoline::Value(
                        Value::Procedure(
                            ProcedurePtr { index: old(heap)@.procedures.len() as usize },
                        ),
                    ),
                ),
            },
            r,
        ),
{
    let p = heap.allocate_closure(params, body, act, code.clone());
    Ok(Trampoline::Value(Value::Procedure(p)))
}

/// The step of an invocation: run the operator, which must give a
/// procedure, run the operands, and go on with the call.
pub fn meaning_invocation(
    heap: &mut Heap,
    operator: &Meaning,
    operands: &Operands,
    act: &mut ActivationPtr,
    fuel: u64,
    depth: usize,
) -> (r: Result<Trampoline, Error>)
    requires
        runnable(old(heap)@, *operator, *old(act)),
        operands.closed(old(heap)@.chain_len(*old(act))),
        operands.within(
            old(heap)@.cons.len(),
            old(heap)@.strings.len(),
            old(heap)@.procedures.len(),
        ),
    ensures
        step_holds(
            old(heap)@,
            final(heap)@,
            *final(act),
            step_spec(
                Meaning::Invocation(Box::new(*operator), Box::new(*operands)),
                old(heap)@,
                *old(act),
                fuel as nat,
                depth as nat,
            ),
            r,
        ),
    decreases fuel, 3nat, 0nat,
{
    let here = *act;
    let f = match evaluate_nested(operator, heap, here, fuel, depth) {
        Ok(v) => v,
        Err(e) => {
            return Err(e);
        },
    };
    let p = match f.to_procedure() {
        Some(p) => p,
        None => {
            return Err(Error::NotAProcedure);
        },
    };
    let ghost mid = heap@;
    proof {
        old(heap)@.lemma_chain_len_stable(mid, here);
        operands.lemma_within_grows(
            old(heap)@.cons.len(),
            old(heap)@.strings.len(),
            old(heap)@.procedures.len(),
            mid.cons.len(),
            mid.strings.len(),
            mid.procedures.len(),
        );
    }
    let args = match operands.evaluate(heap, here, fuel, depth) {
        Ok(values) => values,
        Err(e) => {
            proof {
                old(heap)@.lemma_evolved_trans(mid, heap@);
            }
            return Err(e);
        },
    };
    let ghost late = heap@;
    proof {
        old(heap)@.lemma_evolved_trans(mid, late);
    }
    let r = apply(heap, p, args, act);
    proof {
        old(heap)@.lemma_evolved_trans(late, heap@);
    }
    r
}

impl Operands {
    /// Run the operands, first to last, and give their values.
    pub fn evaluate(&self, heap: &mut Heap, act: ActivationPtr, fuel: u64, depth: usize) -> (r:
        Result<Vec<Value>, Error>)
        requires
            old(heap)@.inv(),
            old(heap)@.valid_activation(act),
            self.closed(old(heap)@.chain_len(act)),
            self.within(
                old(heap)@.cons.len(),
                old(heap)@.strings.len(),
                old(heap)@.procedures.len(),
            ),
        ensures
            final(heap)@ == operands_spec(*self, old(heap)@, act, fuel as nat, depth as nat).heap,
            final(heap)@.inv(),
            old(heap)@.evolved_to(final(heap)@),
            match operands_spec(*self, old(heap)@, act, fuel as nat, depth as nat).result {
                Ok(values) => r is Ok && r.unwrap()@ == values && forall|i: int|
                    0 <= i < values.len() ==> final(heap)@.valid_value(#[trigger] values[i]),
                Err(e) => r == Err::<Vec<Value>, Error>(e) && e.is_runtime(),
            },
        decreases fuel, 2nat, self.count(),
    {
        let ghost start = heap@;
        let mut values: Vec<Value> = Vec::new();
        let mut cur: &Operands = self;
        proof {
            assert(values@ + operands_spec(*self, start, act, fuel as nat, depth as nat).result->Ok_0
                =~= operands_spec(*self, start, act, fuel as nat, depth as nat).result->Ok_0);
        }
        loop
            invariant
                start == old(heap)@,
                start.evolved_to(heap@),
                heap@.inv(),
                heap@.valid_activation(act),
                self.count() >= cur.count(),
                cur.closed(heap@.chain_len(act)),
                cur.within(heap@.cons.len(), heap@.strings.len(), heap@.procedures.len()),
                forall|i: int| 0 <= i < values@.len() ==> heap@.valid_value(#[trigger] values@[i]),
                operands_spec(*self, start, act, fuel as nat, depth as nat).heap == operands_spec(
                    *cur,
                    heap@,
                    act,
                    fuel as nat,
                    depth as nat,
                ).heap,
                operands_spec(*self, start, act, fuel as nat, depth as nat).result == (
                match operands_spec(*cur, heap@, act, fuel as nat, depth as nat).result {
                    Ok(vs) => Ok::<Seq<Value>, Error>(values@ + vs),
                    Err(e) => Err::<Seq<Value>, Error>(e),
                }),
            decreases cur.count(),
        {
            match cur {
                Operands::Empty => {
                    proof {
                        assert(values@ + Seq::<Value>::empty() =~= values@);
                    }
                    return Ok(values);
                },
                Operands::More(m, rest) => {
                    let ghost before = heap@;
                    let ghost done = values@;
                    let v = match evaluate_nested(m, heap, act, fuel, depth) {
                        Ok(v) => v,
                        Err(e) => {
                            proof {
                                start.lemma_evolved_trans(before, heap@);
                            }
                            return Err(e);
                        },
                    };
                    proof {
                        start.lemma_evolved_trans(before, heap@);
                        before.lemma_chain_len_stable(heap@, act);
                        rest.lemma_within_grows(
                            before.cons.len(),
                            before.strings.len(),
                            before.procedures.len(),
                            heap@.cons.len(),
                            heap@.strings.len(),
                            heap@.procedures.len(),
                        );
                    }
                    values.push(v);
                    proof {
                        let others = operands_spec(**rest, heap@, act, fuel as nat, depth as nat);
                        if let Ok(vs) = others.result {
                            assert(done + (seq![v] + vs) =~= values@ + vs);
                        }
                    }
                    cur = &**rest;
                },
            }
        }
    }
}

impl Meaning {
    /// Take one step under the given limits: run this meaning, and give a
    /// value or the meaning to go on with. Where the meaning to go on with
    /// runs in another activation, `act` is set to it.
    pub fn step(&self, heap: &mut Heap, act: &mut ActivationPtr, fuel: u64, depth: usize) -> (r:
        Result<Trampoline, Error>)
        requires
            runnable(old(heap)@, *self, *old(act)),
        ensures
            step_holds(
                old(heap)@,
                final(heap)@,
                *final(act),
                step_spec(*self, old(heap)@, *old(act), fuel as nat, depth as nat),
                r,
            ),
        decreases fuel, 4nat, 0nat,
    {
        match self {
            Meaning::Quotation(v) => meaning_quotation_function(*v),
            Meaning::Reference(i, j) => meaning_reference_function(heap, *i, *j, *act),
            Meaning::SetVariable(i, j, value) => meaning_set_variable(
                heap,
                *i,
                *j,
                value,
                *act,
                fuel,
                depth,
            ),
            Meaning::Conditional(condition, consequent, alternative) => meaning_conditional(
                heap,
                condition,
                consequent,
                alternative,
                *act,
                fuel,
                depth,
            ),
            Meaning::Sequence(first, second) => meaning_sequence(
                heap,
                first,
                second,
                *act,
                fuel,
                depth,
            ),
            Meaning::Lambda { params, body, code } => meaning_lambda(
                heap,
                *params,
                *body,
                code,
                *act,
            ),
            Meaning::Invocation(operator, operands) => meaning_invocation(
                heap,
                operator,
                operands,
                act,
                fuel,
                depth,
            ),
        }
    }

    /// Run this meaning in the activation under the given limits: take
    /// steps until one gives a value or an error.
    pub fn run(&self, heap: &mut Heap, act: ActivationPtr, fuel: u64, depth: usize) -> (r: Result<
        Value,
        Error,
    >)
        requires
            runnable(old(heap)@, *self, act),
        ensures
            run_holds(
                old(heap)@,
                final(heap)@,
                run_spec(*self, old(heap)@, act, fuel as nat, depth as nat),
                r,
            ),
        decreases fuel, 0nat, 0nat,
    {
        if fuel == 0 {
            return Err(Error::StepLimit);
        }
        let ghost start = heap@;
        let mut left: u64 = fuel - 1;
        let mut cur = act;
        let mut trampoline = match self.step(heap, &mut cur, left, depth) {
            Ok(t) => t,
            Err(e) => {
                return Err(e);
            },
        };
        loop
            invariant
                left < fuel,
                start == old(heap)@,
                start.evolved_to(heap@),
                heap@.inv(),
                heap@.valid_activation(cur),
                match trampoline {
                    Trampoline::Value(v) => heap@.valid_value(v),
                    Trampoline::Thunk(m) => heap@.valid_meaning(m) && m.closed(heap@.chain_len(cur)),
                },
                run_spec(*self, start, act, fuel as nat, depth as nat) == (match trampoline {
                    Trampoline::Value(v) => Run { heap: heap@, result: Ok(v) },
                    Trampoline::Thunk(m) => run_spec(m, heap@, cur, left as nat, depth as nat),
                }),
            decreases left,
        {
            match trampoline {
                Trampoline::Value(v) => {
                    return Ok(v);
                },
                Trampoline::Thunk(m) => {
                    if left == 0 {
                        return Err(Error::StepLimit);
                    }
                    left = left - 1;
                    let ghost mid = heap@;
                    trampoline = match m.step(heap, &mut cur, left, depth) {
                        Ok(t) => t,
                        Err(e) => {
                            proof {
                                start.lemma_evolved_trans(mid, heap@);
                            }
                            return Err(e);
                        },
                    };
                    proof {
                        start.lemma_evolved_trans(mid, heap@);
                    }
                },
            }
        }
    }

    /// Take one step under the heap's limits.
    pub fn evaluate_to_thunk(&self, heap: &mut Heap, act: &mut ActivationPtr) -> (r: Result<
        Trampoline,
        Error,
    >)
        requires
            runnable(old(heap)@, *self, *old(act)),
        ensures
            step_holds(
                old(heap)@,
                final(heap)@,
                *final(act),
                step_spec(
                    *self,
                    old(heap)@,
                    *old(act),
                    old(heap)@.step_limit,
                    old(heap)@.depth_limit,
                ),
                r,
            ),
    {
        let fuel = heap.step_limit();
        let depth = heap.depth_limit();
        self.step(heap, act, fuel, depth)
    }

    /// Run this meaning in the activation under the heap's limits.
    pub fn evaluate(&self, heap: &mut Heap, act: ActivationPtr) -> (r: Result<Value, Error>)
        requires
            runnable(old(heap)@, *self, act),
        ensures
            run_holds(
                old(heap)@,
                final(heap)@,
                run_spec(*self, old(heap)@, act, old(heap)@.step_limit, old(heap)@.depth_limit),
                r,
            ),
    {
        let fuel = heap.step_limit();
        let depth = heap.depth_limit();
        self.run(heap, act, fuel, depth)
    }
}

/// Evaluate the given form in the global environment: analyze it, then run
/// its meaning in the global activation.
pub fn evaluate(heap: &mut Heap, form: Value) -> (r: Result<Value, Error>)
    requires
        old(heap)@.wf(),
        old(heap)@.valid_value(form),
    ensures
        final(heap)@ == evaluate_spec(old(heap)@, form).heap,
        r == evaluate_spec(old(heap)@, form).result,
        final(heap)@.wf(),
        old(heap)@.grown_to(final(heap)@),
        old(heap)@.cons_prefix_of(final(heap)@),
        r is Ok ==> final(heap)@.valid_value(r->Ok_0),
        r is Err ==> (r->Err_0.is_static() || r->Err_0.is_runtime()),
{
    let meaning = match analyze(heap, form) {
        Ok(m) => m,
        Err(e) => {
            return Err(e);
        },
    };
    let act = heap.global_activation();
    meaning.evaluate(heap, act)
}

/// Evaluate the forms one after the other and return the value of the last
/// one, or the empty list where there is none. The first error ends it.
pub fn evaluate_all(heap: &mut Heap, forms: &[Value]) -> (r: Result<Value, Error>)
    requires
        old(heap)@.wf(),
        forall|i: int| 0 <= i < forms@.len() ==> old(heap)@.valid_value(#[trigger] forms@[i]),
    ensures
        final(heap)@ == evaluate_all_spec(old(heap)@, forms@, Value::EmptyList).heap,
        r == evaluate_all_spec(old(heap)@, forms@, Value::EmptyList).result,
        final(heap)@.wf(),
        r is Ok ==> final(heap)@.valid_value(r->Ok_0),
{
    let mut result = Value::EmptyList;
    let mut i: usize = 0;
    proof {
        assert(forms@.subrange(0, forms@.len() as int) =~= forms@);
    }
    while i < forms.len()
        invariant
            i <= forms@.len(),
            heap@.wf(),
            heap@.valid_value(result),
            forall|k: int| 0 <= k < forms@.len() ==> heap@.valid_value(#[trigger] forms@[k]),
            evaluate_all_spec(old(heap)@, forms@, Value::EmptyList) == evaluate_all_spec(
                heap@,
                forms@.subrange(i as int, forms@.len() as int),
                result,
            ),
        decreases forms.len() - i,
    {
        let ghost rest = forms@.subrange(i as int, forms@.len() as int);
        proof {
            assert(rest[0] == forms@[i as int]);
            assert(rest.drop_first() =~= forms@.subrange(i as int + 1, forms@.len() as int));
        }
        result = match evaluate(heap, forms[i]) {
            Ok(v) => v,
            Err(e) => {
                return Err(e);
            },
        };
        i = i + 1;
    }
    Ok(result)
}

} // verus!
