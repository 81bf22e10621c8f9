//! Analysis: one pass that turns a form into its meaning and resolves every
//! variable to its lexical address.

use vstd::prelude::*;
use crate::environment::{scopes_define, scopes_lookup, ScopeNames};
use crate::heap::{
    begin_value, define_value, if_value, lambda_value, quote_value, set_bang_value, Heap, HeapView,
};
use crate::meaning::{Error, Meaning, Operands};
use crate::value::{StringPtr, Value};

verus! {

/// What analysis gives: the meaning or the error, and the scopes as
/// analysis leaves them.
pub struct Analysis {
    pub result: Result<Meaning, Error>,
    pub scopes: Seq<ScopeNames>,
}

/// What the analysis of operands gives.
pub struct OperandsAnalysis {
    pub result: Result<Operands, Error>,
    pub scopes: Seq<ScopeNames>,
}

/// An analysis that failed.
pub open spec fn failed(e: Error, scopes: Seq<ScopeNames>) -> Analysis {
    Analysis { result: Err(e), scopes }
}

/// The symbols of a parameter list, in the order of their slots: a list of
/// symbols, which may end in a symbol in place of the empty list. That
/// last symbol stands for the list of the operands that are left.
pub open spec fn param_symbols(h: HeapView, params: Value) -> Option<Seq<StringPtr>>
    decreases params.rank(),
{
    match params {
        Value::EmptyList => Some(Seq::empty()),
        Value::Symbol(s) => Some(seq![s]),
        Value::Pair(c) => {
            let cell = h.cons[c.index as int];
            if c.index < h.cons.len() && cell.cdr.rank() < params.rank() {
                match cell.car {
                    Value::Symbol(s) => match param_symbols(h, cell.cdr) {
                        Some(rest) => Some(seq![s] + rest),
                        None => None,
                    },
                    _ => None,
                }
            } else {
                None
            }
        },
        _ => None,
    }
}

/// What a form means in the scopes.
///
/// A pair is a special form where its head is the symbol of one, and an
/// invocation otherwise. A symbol is a reference to the variable of its
/// name. Any other value but the empty list means itself.
pub open spec fn analyze_spec(h: HeapView, scopes: Seq<ScopeNames>, form: Value) -> Analysis
    decreases form.rank(), 1nat,
    when h.wf_cons() && h.valid_value(form)
{
    match form {
        Value::Pair(c) => {
            let head = h.cons[c.index as int].car;
            if head == quote_value() {
                analyze_quoted_spec(h, scopes, form)
            } else if head == define_value() {
                analyze_definition_spec(h, scopes, form)
            } else if head == set_bang_value() {
                analyze_set_spec(h, scopes, form)
            } else if head == lambda_value() {
                analyze_lambda_spec(h, scopes, form)
            } else if head == if_value() {
                analyze_conditional_spec(h, scopes, form)
            } else if head == begin_value() {
                analyze_sequence_spec(h, scopes, form)
            } else {
                analyze_invocation_spec(h, scopes, form)
            }
        },
        _ => analyze_atom_spec(h, scopes, form),
    }
}

/// What an atom means: itself where it is self-evaluating, the variable of
/// its name where it is a symbol that a scope defines.
pub open spec fn analyze_atom_spec(h: HeapView, scopes: Seq<ScopeNames>, form: Value) -> Analysis {
    match form {
        Value::Symbol(s) => match scopes_lookup(scopes, h.strings[s.index as int]) {
            Some((d, j)) => Analysis { result: Ok(Meaning::Reference(d as u32, j as u32)), scopes },
            None => failed(Error::UnknownVariable(s), scopes),
        },
        Value::EmptyList => failed(Error::CannotEvaluate, scopes),
        Value::Pair(_) => failed(Error::CannotEvaluate, scopes),
        _ => Analysis { result: Ok(Meaning::Quotation(form)), scopes },
    }
}

/// What `(quote x)` means: `x` itself.
pub open spec fn analyze_quoted_spec(h: HeapView, scopes: Seq<ScopeNames>, form: Value) -> Analysis {
    match h.elements(form) {
        Some(s) => if s.len() == 2 {
            Analysis { result: Ok(Meaning::Quotation(s[1])), scopes }
        } else {
            failed(Error::MalformedQuote, scopes)
        },
        None => failed(Error::MalformedQuote, scopes),
    }
}

/// What `(define name value)` means: the value's meaning, stored in a fresh
/// slot of the innermost scope. The value is analyzed before the name gets
/// its slot.
pub open spec fn analyze_definition_spec(
    h: HeapView,
    scopes: Seq<ScopeNames>,
    form: Value,
) -> Analysis
    decreases form.rank(), 0nat,
    when h.wf_cons() && h.valid_value(form)
{
    match h.elements(form) {
        Some(s) => if s.len() == 3 {
            match s[1] {
                Value::Symbol(name) => {
                    proof {
                        h.lemma_elements_ranks(form);
                    }
                    let value = analyze_spec(h, scopes, s[2]);
                    match value.result {
                        Ok(m) => if value.scopes.last().len() < u32::MAX {
                            Analysis {
                                result: Ok(
                                    Meaning::SetVariable(
                                        0,
                                        value.scopes.last().len() as u32,
                                        Box::new(m),
                                    ),
                                ),
                                scopes: scopes_define(value.scopes, h.strings[name.index as int]),
                            }
                        } else {
                            failed(Error::EnvironmentFull, value.scopes)
                        },
                        Err(_) => value,
                    }
                },
                _ => failed(Error::DefineNonSymbol, scopes),
            }
        } else {
            failed(Error::MalformedDefinition, scopes)
        },
        None => failed(Error::MalformedDefinition, scopes),
    }
}

/// What `(set! name value)` means: the value's meaning, stored at the
/// address that the name has after the value was analyzed.
pub open spec fn analyze_set_spec(h: HeapView, scopes: Seq<ScopeNames>, form: Value) -> Analysis
    decreases form.rank(), 0nat,
    when h.wf_cons() && h.valid_value(form)
{
    match h.elements(form) {
        Some(s) => if s.len() == 3 {
            match s[1] {
                Value::Symbol(name) => {
                    proof {
                        h.lemma_elements_ranks(form);
                    }
                    let value = analyze_spec(h, scopes, s[2]);
                    match value.result {
                        Ok(m) => match scopes_lookup(value.scopes, h.strings[name.index as int]) {
                            Some((d, j)) => Analysis {
                                result: Ok(Meaning::SetVariable(d as u32, j as u32, Box::new(m))),
                                scopes: value.scopes,
                            },
                            None => failed(Error::SetUndefined(name), value.scopes),
                        },
                        Err(_) => value,
                    }
                },
                _ => failed(Error::SetNonSymbol, scopes),
            }
        } else {
            failed(Error::MalformedSet, scopes)
        },
        None => failed(Error::MalformedSet, scopes),
    }
}

/// What `(if condition consequent alternative)` means.
pub open spec fn analyze_conditional_spec(
    h: HeapView,
    scopes: Seq<ScopeNames>,
    form: Value,
) -> Analysis
    decreases form.rank(), 0nat,
    when h.wf_cons() && h.valid_value(form)
{
    match h.elements(form) {
        Some(s) => if s.len() == 4 {
            proof {
                h.lemma_elements_ranks(form);
            }
            let condition = analyze_spec(h, scopes, s[1]);
            match condition.result {
                Ok(c) => {
                    let consequent = analyze_spec(h, condition.scopes, s[2]);
                    match consequent.result {
                        Ok(t) => {
                            let alternative = analyze_spec(h, consequent.scopes, s[3]);
                            match alternative.result {
                                Ok(e) => Analysis {
                                    result: Ok(
                                        Meaning::Conditional(Box::new(c), Box::new(t), Box::new(e)),
                                    ),
                                    scopes: alternative.scopes,
                                },
                                Err(_) => alternative,
                            }
                        },
                        Err(_) => consequent,
                    }
                },
                Err(_) => condition,
            }
        } else {
            failed(Error::MalformedConditional, scopes)
        },
        None => failed(Error::MalformedConditional, scopes),
    }
}

/// What a chain of forms means as a sequence: the meaning of the one form,
/// or the first form's meaning followed by the sequence of the others.
pub open spec fn make_meaning_sequence_spec(
    h: HeapView,
    scopes: Seq<ScopeNames>,
    forms: Value,
) -> Analysis
    decreases forms.rank(), 0nat,
    when h.wf_cons() && h.valid_value(forms)
{
    match forms {
        Value::Pair(c) => {
            let cell = h.cons[c.index as int];
            let first = analyze_spec(h, scopes, cell.car);
            match first.result {
                Ok(m) => if cell.cdr == Value::EmptyList {
                    first
                } else {
                    let rest = make_meaning_sequence_spec(h, first.scopes, cell.cdr);
                    match rest.result {
                        Ok(r) => Analysis {
                            result: Ok(Meaning::Sequence(Box::new(m), Box::new(r))),
                            scopes: rest.scopes,
                        },
                        Err(_) => rest,
                    }
                },
                Err(_) => first,
            }
        },
        _ => failed(Error::MalformedSequence, scopes),
    }
}

/// What `(begin form ...)` means: the sequence of the forms.
pub open spec fn analyze_sequence_spec(h: HeapView, scopes: Seq<ScopeNames>, form: Value) -> Analysis
    decreases form.rank(), 0nat,
    when h.wf_cons() && h.valid_value(form)
{
    match form {
        Value::Pair(c) => make_meaning_sequence_spec(h, scopes, h.cons[c.index as int].cdr),
        _ => failed(Error::MalformedSequence, scopes),
    }
}

/// What `(lambda params form ...)` means: a procedure literal, whose body
/// is the sequence of the forms, analyzed in a new scope that holds the
/// parameters in their order.
pub open spec fn analyze_lambda_spec(h: HeapView, scopes: Seq<ScopeNames>, form: Value) -> Analysis
    decreases form.rank(), 0nat,
    when h.wf_cons() && h.valid_value(form)
{
    match h.elements(form) {
        Some(s) => if s.len() >= 3 {
            match param_symbols(h, s[1]) {
                Some(symbols) => if scopes.len() < u32::MAX && symbols.len() <= u32::MAX {
                    proof {
                        h.lemma_elements_parts(form);
                        h.lemma_elements_parts(h.cdr(form).unwrap());
                    }
                    let forms = h.cdr(h.cdr(form).unwrap()).unwrap();
                    let body = make_meaning_sequence_spec(
                        h,
                        scopes.push(h.names_of(symbols)),
                        forms,
                    );
                    match body.result {
                        Ok(m) => Analysis {
                            result: Ok(
                                Meaning::Lambda { params: s[1], body: forms, code: Box::new(m) },
                            ),
                            scopes: body.scopes.drop_last(),
                        },
                        Err(e) => failed(e, body.scopes.drop_last()),
                    }
                } else {
                    failed(Error::EnvironmentFull, scopes)
                },
                None => failed(Error::BadParameterList, scopes),
            }
        } else {
            failed(Error::MalformedLambda, scopes)
        },
        None => failed(Error::MalformedLambda, scopes),
    }
}

/// What a chain of forms means as operands, first to last.
pub open spec fn analyze_operands_spec(
    h: HeapView,
    scopes: Seq<ScopeNames>,
    forms: Value,
) -> OperandsAnalysis
    decreases forms.rank(), 0nat,
    when h.wf_cons() && h.valid_value(forms)
{
    match forms {
        Value::EmptyList => OperandsAnalysis { result: Ok(Operands::Empty), scopes },
        Value::Pair(c) => {
            let cell = h.cons[c.index as int];
            let first = analyze_spec(h, scopes, cell.car);
            match first.result {
                Ok(m) => {
                    let rest = analyze_operands_spec(h, first.scopes, cell.cdr);
                    match rest.result {
                        Ok(r) => OperandsAnalysis {
                            result: Ok(Operands::More(Box::new(m), Box::new(r))),
                            scopes: rest.scopes,
                        },
                        Err(_) => rest,
                    }
                },
                Err(e) => OperandsAnalysis { result: Err(e), scopes: first.scopes },
            }
        },
        _ => OperandsAnalysis { result: Err(Error::MalformedInvocation), scopes },
    }
}

/// What any other proper list means: an invocation. Its head is the
/// operator and the other elements are the operands, analyzed in this
/// order.
pub open spec fn analyze_invocation_spec(
    h: HeapView,
    scopes: Seq<ScopeNames>,
    form: Value,
) -> Analysis
    decreases form.rank(), 0nat,
    when h.wf_cons() && h.valid_value(form)
{
    match form {
        Value::Pair(c) => if h.elements(form) is Some {
            let cell = h.cons[c.index as int];
            let operator = analyze_spec(h, scopes, cell.car);
            match operator.result {
                Ok(f) => {
                    let operands = analyze_operands_spec(h, operator.scopes, cell.cdr);
                    match operands.result {
                        Ok(ops) => Analysis {
                            result: Ok(Meaning::Invocation(Box::new(f), Box::new(ops))),
                            scopes: operands.scopes,
                        },
                        Err(e) => failed(e, operands.scopes),
                    }
                },
                Err(_) => operator,
            }
        } else {
            failed(Error::MalformedInvocation, scopes)
        },
        _ => failed(Error::MalformedInvocation, scopes),
    }
}


/// An analysis went as stated: it gave the stated result, it changed
/// nothing but the scopes, which are as stated and as many as before, and
/// a meaning that it gave resolves every address in these scopes and holds
/// only values of the heap. What it reports is a static error.
pub open spec fn analysis_holds(
    before: HeapView,
    after: HeapView,
    stated: Analysis,
    r: Result<Meaning, Error>,
) -> bool {
    &&& r == stated.result
    &&& after == before.with_scopes(stated.scopes)
    &&& after.inv()
    &&& after.scopes.len() == before.scopes.len()
    &&& match r {
        Ok(m) => m.closed(after.scopes.len()) && after.valid_meaning(m),
        Err(e) => e.is_static(),
    }
}

/// The same for the analysis of operands.
pub open spec fn operands_analysis_holds(
    before: HeapView,
    after: HeapView,
    stated: OperandsAnalysis,
    r: Result<Operands, Error>,
) -> bool {
    &&& r == stated.result
    &&& after == before.with_scopes(stated.scopes)
    &&& after.inv()
    &&& after.scopes.len() == before.scopes.len()
    &&& match r {
        Ok(ops) => ops.closed(after.scopes.len()) && ops.within(
            after.cons.len(),
            after.strings.len(),
            after.procedures.len(),
        ),
        Err(e) => e.is_static(),
    }
}

impl Meaning {
    /// The meaning of a value that stands for itself.
    pub fn new_quotation(form: Value) -> (m: Meaning)
        ensures
            m == Meaning::Quotation(form),
    {
        Meaning::Quotation(form)
    }

    /// The meaning of a reference to the variable at the address.
    pub fn new_reference(i: u32, j: u32) -> (m: Meaning)
        ensures
            m == Meaning::Reference(i, j),
    {
        Meaning::Reference(i, j)
    }

    /// The meaning of storing a value in the variable at the address.
    pub fn new_set_variable(i: u32, j: u32, val: Meaning) -> (m: Meaning)
        ensures
            m == Meaning::SetVariable(i, j, Box::new(val)),
    {
        Meaning::SetVariable(i, j, Box::new(val))
    }

    /// The meaning of a choice between two meanings.
    pub fn new_conditional(condition: Meaning, consequent: Meaning, alternative: Meaning) -> (m:
        Meaning)
        ensures
            m == Meaning::Conditional(
                Box::new(condition),
                Box::new(consequent),
                Box::new(alternative),
            ),
    {
        Meaning::Conditional(Box::new(condition), Box::new(consequent), Box::new(alternative))
    }

    /// The meaning of one meaning after another.
    pub fn new_sequence(first: Meaning, second: Meaning) -> (m: Meaning)
        ensures
            m == Meaning::Sequence(Box::new(first), Box::new(second)),
    {
        Meaning::Sequence(Box::new(first), Box::new(second))
    }

    /// The meaning of a procedure literal.
    pub fn new_lambda(params: Value, body: Value, code: Meaning) -> (m: Meaning)
        ensures
            m == (Meaning::Lambda { params, body, code: Box::new(code) }),
    {
        Meaning::Lambda { params, body, code: Box::new(code) }
    }

    /// The meaning of an invocation.
    pub fn new_invocation(operator: Meaning, operands: Operands) -> (m: Meaning)
        ensures
            m == Meaning::Invocation(Box::new(operator), Box::new(operands)),
    {
        Meaning::Invocation(Box::new(operator), Box::new(operands))
    }
}

/// Analyze a form: give its meaning, with every variable resolved in the
/// scopes of the heap's environment, or the static error in it.
pub fn analyze(heap: &mut Heap, form: Value) -> (r: Result<Meaning, Error>)
    requires
        old(heap)@.inv(),
        old(heap)@.valid_value(form),
    ensures
        analysis_holds(
            old(heap)@,
            final(heap)@,
            analyze_spec(old(heap)@.frame(), old(heap)@.scopes, form),
            r,
        ),
    decreases form.rank(), 1nat,
{
    if form.is_atom() {
        return analyze_atom(heap, form);
    }
    let pair = match form.to_pair() {
        Some(c) => heap.cons(c),
        None => {
            return Err(Error::CannotEvaluate);
        },
    };
    let head = pair.car();
    if head == heap.quote_symbol() {
        analyze_quoted(heap, form)
    } else if head == heap.define_symbol() {
        analyze_definition(heap, form)
    } else if head == heap.set_bang_symbol() {
        analyze_set(heap, form)
    } else if head == heap.lambda_symbol() {
        analyze_lambda(heap, form)
    } else if head == heap.if_symbol() {
        analyze_conditional(heap, form)
    } else if head == heap.begin_symbol() {
        analyze_sequence(heap, form)
    } else {
        analyze_invocation(heap, form)
    }
}

/// Return true if the form doesn't need to be evaluated because it is
/// "autoquoting" or "self evaluating", false otherwise.
pub fn is_auto_quoting(form: Value) -> (b: bool)
    ensures
        b == form.self_evaluating(),
{
    match form {
        Value::EmptyList => false,
        Value::Pair(_) => false,
        Value::Symbol(_) => false,
        _ => true,
    }
}

/// Analyze a form that is no pair.
pub fn analyze_atom(heap: &mut Heap, form: Value) -> (r: Result<Meaning, Error>)
    requires
        old(heap)@.inv(),
        old(heap)@.valid_value(form),
    ensures
        analysis_holds(
            old(heap)@,
            final(heap)@,
            analyze_atom_spec(old(heap)@.frame(), old(heap)@.scopes, form),
            r,
        ),
{
    if is_auto_quoting(form) {
        return Ok(Meaning::new_quotation(form));
    }
    if let Some(sym) = form.to_symbol() {
        if let Some((i, j)) = heap.lookup(sym) {
            return Ok(Meaning::new_reference(i, j));
        }
        return Err(Error::UnknownVariable(sym));
    }
    Err(Error::CannotEvaluate)
}

/// Analyze a form whose head is `quote`.
pub fn analyze_quoted(heap: &mut Heap, form: Value) -> (r: Result<Meaning, Error>)
    requires
        old(heap)@.inv(),
        old(heap)@.valid_value(form),
    ensures
        analysis_holds(
            old(heap)@,
            final(heap)@,
            analyze_quoted_spec(old(heap)@.frame(), old(heap)@.scopes, form),
            r,
        ),
{
    proof {
        heap@.lemma_elements_frame(form);
    }
    if let Ok(2) = form.len(heap) {
        let pair = heap.cons(form.to_pair().unwrap());
        proof {
            reveal_with_fuel(HeapView::tail, 3);
            heap@.frame().lemma_tail(form, 1);
        }
        match pair.cadr(heap) {
            Ok(quoted) => {
                return Ok(Meaning::new_quotation(quoted));
            },
            Err(_) => {
                return Err(Error::MalformedQuote);
            },
        }
    }
    Err(Error::MalformedQuote)
}

/// Analyze a form whose head is `define`.
pub fn analyze_definition(heap: &mut Heap, form: Value) -> (r: Result<Meaning, Error>)
    requires
        old(heap)@.inv(),
        old(heap)@.valid_value(form),
    ensures
        analysis_holds(
            old(heap)@,
            final(heap)@,
            analyze_definition_spec(old(heap)@.frame(), old(heap)@.scopes, form),
            r,
        ),
    decreases form.rank(), 0nat,
{
    proof {
        heap@.lemma_elements_frame(form);
    }
    if let Ok(3) = form.len(heap) {
        let pair = heap.cons(form.to_pair().unwrap());
        proof {
            reveal_with_fuel(HeapView::tail, 4);
            heap@.frame().lemma_tail(form, 1);
            heap@.frame().lemma_tail(form, 2);
        }
        let sym = match pair.cadr(heap) {
            Ok(v) => v,
            Err(_) => {
                return Err(Error::MalformedDefinition);
            },
        };
        if let Some(name) = sym.to_symbol() {
            let def_value_form = match pair.caddr(heap) {
                Ok(v) => v,
                Err(_) => {
                    return Err(Error::MalformedDefinition);
                },
            };
            let def_value_meaning = match analyze(heap, def_value_form) {
                Ok(m) => m,
                Err(e) => {
                    return Err(e);
                },
            };
            return match heap.define(name) {
                Some((i, j)) => Ok(Meaning::new_set_variable(i, j, def_value_meaning)),
                None => Err(Error::EnvironmentFull),
            };
        }
        return Err(Error::DefineNonSymbol);
    }
    Err(Error::MalformedDefinition)
}

/// Analyze a form whose head is `set!`.
pub fn analyze_set(heap: &mut Heap, form: Value) -> (r: Result<Meaning, Error>)
    requires
        old(heap)@.inv(),
        old(heap)@.valid_value(form),
    ensures
        analysis_holds(
            old(heap)@,
            final(heap)@,
            analyze_set_spec(old(heap)@.frame(), old(heap)@.scopes, form),
            r,
        ),
    decreases form.rank(), 0nat,
{
    proof {
        heap@.lemma_elements_frame(form);
    }
    if let Ok(3) = form.len(heap) {
        let pair = heap.cons(form.to_pair().unwrap());
        proof {
            reveal_with_fuel(HeapView::tail, 4);
            heap@.frame().lemma_tail(form, 1);
            heap@.frame().lemma_tail(form, 2);
        }
        let sym = match pair.cadr(heap) {
            Ok(v) => v,
            Err(_) => {
                return Err(Error::MalformedSet);
            },
        };
        if let Some(name) = sym.to_symbol() {
            let set_value_form = match pair.caddr(heap) {
                Ok(v) => v,
                Err(_) => {
                    return Err(Error::MalformedSet);
                },
            };
            let set_value_meaning = match analyze(heap, set_value_form) {
                Ok(m) => m,
                Err(e) => {
                    return Err(e);
                },
            };
            if let Some((i, j)) = heap.lookup(name) {
                return Ok(Meaning::new_set_variable(i, j, set_value_meaning));
            }
            return Err(Error::SetUndefined(name));
        }
        return Err(Error::SetNonSymbol);
    }
    Err(Error::MalformedSet)
}

/// The symbols of a parameter list, if it is one.
pub fn collect_params(heap: &Heap, params: Value) -> (r: Option<Vec<StringPtr>>)
    requires
        heap@.inv(),
        heap@.valid_value(params),
    ensures
        match param_symbols(heap@.frame(), params) {
            Some(symbols) => r is Some && r.unwrap()@ == symbols && forall|i: int|
                0 <= i < symbols.len() ==> (#[trigger] symbols[i]).index < heap@.strings.len(),
            None => r is None,
        },
{
    let ghost h = heap@.frame();
    let mut symbols: Vec<StringPtr> = Vec::new();
    let mut cur = params;
    loop
        invariant
            heap@.inv(),
            h == heap@.frame(),
            heap@.valid_value(cur),
            forall|i: int| 0 <= i < symbols@.len() ==> (#[trigger] symbols@[i]).index
                < heap@.strings.len(),
            param_symbols(h, params) == match param_symbols(h, cur) {
                Some(rest) => Some(symbols@ + rest),
                None => None,
            },
        decreases cur.rank(),
    {
        match cur {
            Value::EmptyList => {
                assert(symbols@ + Seq::<StringPtr>::empty() =~= symbols@);
                return Some(symbols);
            },
            Value::Symbol(s) => {
                symbols.push(s);
                return Some(symbols);
            },
            Value::Pair(c) => {
                let cell = heap.cons(c);
                proof {
                    heap@.lemma_pair_parts(c);
                }
                match cell.car {
                    Value::Symbol(s) => {
                        let ghost before = symbols@;
                        symbols.push(s);
                        proof {
                            if let Some(rest) = param_symbols(h, cell.cdr) {
                                assert(before + (seq![s] + rest) =~= symbols@ + rest);
                            }
                        }
                        cur = cell.cdr;
                    },
                    _ => {
                        return None;
                    },
                }
            },
            _ => {
                return None;
            },
        }
    }
}

/// Analyze a form whose head is `lambda`.
pub fn analyze_lambda(heap: &mut Heap, form: Value) -> (r: Result<Meaning, Error>)
    requires
        old(heap)@.inv(),
        old(heap)@.valid_value(form),
    ensures
        analysis_holds(
            old(heap)@,
            final(heap)@,
            analyze_lambda_spec(old(heap)@.frame(), old(heap)@.scopes, form),
            r,
        ),
    decreases form.rank(), 0nat,
{
    proof {
        heap@.lemma_elements_frame(form);
    }
    match form.len(heap) {
        Ok(n) => {
            if n < 3 {
                return Err(Error::MalformedLambda);
            }
        },
        Err(_) => {
            return Err(Error::MalformedLambda);
        },
    }
    let pair = heap.cons(form.to_pair().unwrap());
    proof {
        reveal_with_fuel(HeapView::tail, 4);
        heap@.frame().lemma_tail(form, 1);
        heap@.frame().lemma_tail(form, 2);
        heap@.frame().lemma_elements_parts(form);
        heap@.frame().lemma_elements_parts(heap@.cdr(form).unwrap());
    }
    let params = match pair.cadr(heap) {
        Ok(v) => v,
        Err(_) => {
            return Err(Error::MalformedLambda);
        },
    };
    let symbols = match collect_params(heap, params) {
        Some(symbols) => symbols,
        None => {
            return Err(Error::BadParameterList);
        },
    };
    let forms = match pair.cddr(heap) {
        Ok(v) => v,
        Err(_) => {
            return Err(Error::MalformedLambda);
        },
    };
    if !heap.push_scope(&symbols) {
        return Err(Error::EnvironmentFull);
    }
    let body = make_meaning_sequence(heap, forms);
    heap.pop_scope();
    match body {
        Ok(m) => Ok(Meaning::new_lambda(params, forms, m)),
        Err(e) => Err(e),
    }
}

/// Analyze a form whose head is `if`.
pub fn analyze_conditional(heap: &mut Heap, form: Value) -> (r: Result<Meaning, Error>)
    requires
        old(heap)@.inv(),
        old(heap)@.valid_value(form),
    ensures
        analysis_holds(
            old(heap)@,
            final(heap)@,
            analyze_conditional_spec(old(heap)@.frame(), old(heap)@.scopes, form),
            r,
        ),
    decreases form.rank(), 0nat,
{
    proof {
        heap@.lemma_elements_frame(form);
    }
    if let Ok(4) = form.len(heap) {
        let pair = heap.cons(form.to_pair().unwrap());
        proof {
            reveal_with_fuel(HeapView::tail, 5);
            heap@.frame().lemma_tail(form, 1);
            heap@.frame().lemma_tail(form, 2);
            heap@.frame().lemma_tail(form, 3);
        }
        let condition_form = match pair.cadr(heap) {
            Ok(v) => v,
            Err(_) => {
                return Err(Error::MalformedConditional);
            },
        };
        let consequent_form = match pair.caddr(heap) {
            Ok(v) => v,
            Err(_) => {
                return Err(Error::MalformedConditional);
            },
        };
        let alternative_form = match pair.cadddr(heap) {
            Ok(v) => v,
            Err(_) => {
                return Err(Error::MalformedConditional);
            },
        };
        let condition_meaning = match analyze(heap, condition_form) {
            Ok(m) => m,
            Err(e) => {
                return Err(e);
            },
        };
        let consequent_meaning = match analyze(heap, consequent_form) {
            Ok(m) => m,
            Err(e) => {
                return Err(e);
            },
        };
        let alternative_meaning = match analyze(heap, alternative_form) {
            Ok(m) => m,
            Err(e) => {
                return Err(e);
            },
        };
        return Ok(
            Meaning::new_conditional(condition_meaning, consequent_meaning, alternative_meaning),
        );
    }
    Err(Error::MalformedConditional)
}

/// Analyze a chain of forms as a sequence.
pub fn make_meaning_sequence(heap: &mut Heap, forms: Value) -> (r: Result<Meaning, Error>)
    requires
        old(heap)@.inv(),
        old(heap)@.valid_value(forms),
    ensures
        analysis_holds(
            old(heap)@,
            final(heap)@,
            make_meaning_sequence_spec(old(heap)@.frame(), old(heap)@.scopes, forms),
            r,
        ),
    decreases forms.rank(), 0nat,
{
    if let Some(c) = forms.to_pair() {
        let cons = heap.cons(c);
        proof {
            heap@.lemma_pair_parts(c);
        }
        let first = match analyze(heap, cons.car()) {
            Ok(m) => m,
            Err(e) => {
                return Err(e);
            },
        };
        if cons.cdr() == Value::EmptyList {
            return Ok(first);
        } else {
            let rest = match make_meaning_sequence(heap, cons.cdr()) {
                Ok(m) => m,
                Err(e) => {
                    return Err(e);
                },
            };
            return Ok(Meaning::new_sequence(first, rest));
        }
    }
    Err(Error::MalformedSequence)
}

/// Analyze a form whose head is `begin`.
pub fn analyze_sequence(heap: &mut Heap, form: Value) -> (r: Result<Meaning, Error>)
    requires
        old(heap)@.inv(),
        old(heap)@.valid_value(form),
    ensures
        analysis_holds(
            old(heap)@,
            final(heap)@,
            analyze_sequence_spec(old(heap)@.frame(), old(heap)@.scopes, form),
            r,
        ),
    decreases form.rank(), 0nat,
{
    proof {
        if let Value::Pair(c) = form {
            heap@.lemma_pair_parts(c);
        }
    }
    let forms = match form.cdr(heap) {
        Some(v) => v,
        None => {
            return Err(Error::MalformedSequence);
        },
    };
    make_meaning_sequence(heap, forms)
}

/// Analyze a chain of forms as the operands of an invocation.
pub fn analyze_operands(heap: &mut Heap, forms: Value) -> (r: Result<Operands, Error>)
    requires
        old(heap)@.inv(),
        old(heap)@.valid_value(forms),
    ensures
        operands_analysis_holds(
            old(heap)@,
            final(heap)@,
            analyze_operands_spec(old(heap)@.frame(), old(heap)@.scopes, forms),
            r,
        ),
    decreases forms.rank(), 0nat,
{
    match forms {
        Value::EmptyList => Ok(Operands::Empty),
        Value::Pair(c) => {
            let cons = heap.cons(c);
            proof {
                heap@.lemma_pair_parts(c);
            }
            let first = match analyze(heap, cons.car()) {
                Ok(m) => m,
                Err(e) => {
                    return Err(e);
                },
            };
            let rest = match analyze_operands(heap, cons.cdr()) {
                Ok(ops) => ops,
                Err(e) => {
                    return Err(e);
                },
            };
            Ok(Operands::More(Box::new(first), Box::new(rest)))
        },
        _ => Err(Error::MalformedInvocation),
    }
}

/// Analyze a form whose head is no special form's symbol.
pub fn analyze_invocation(heap: &mut Heap, form: Value) -> (r: Result<Meaning, Error>)
    requires
        old(heap)@.inv(),
        old(heap)@.valid_value(form),
    ensures
        analysis_holds(
            old(heap)@,
            final(heap)@,
            analyze_invocation_spec(old(heap)@.frame(), old(heap)@.scopes, form),
            r,
        ),
    decreases form.rank(), 0nat,
{
    proof {
        heap@.lemma_elements_frame(form);
    }
    if form.len(heap).is_err() {
        return Err(Error::MalformedInvocation);
    }
    let cons = match form.to_pair() {
        Some(c) => {
            proof {
                heap@.lemma_pair_parts(c);
            }
            heap.cons(c)
        },
        None => {
            return Err(Error::MalformedInvocation);
        },
    };
    let operator = match analyze(heap, cons.car()) {
        Ok(m) => m,
        Err(e) => {
            return Err(e);
        },
    };
    let operands = match analyze_operands(heap, cons.cdr()) {
        Ok(ops) => ops,
        Err(e) => {
            return Err(e);
        },
    };
    Ok(Meaning::new_invocation(operator, operands))
}

} // verus!
