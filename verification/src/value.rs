//! Scheme values, the records they lead to, and the handles that tracing
//! reports to a collector.

use vstd::prelude::*;

verus! {

/// A handle to a cons cell on the heap.
#[derive(Clone, Copy, Debug, PartialEq, Eq, Structural, Hash)]
pub struct ConsPtr {
    pub index: usize,
}

/// A handle to a string on the heap.
#[derive(Clone, Copy, Debug, PartialEq, Eq, Structural, Hash)]
pub struct StringPtr {
    pub index: usize,
}

/// A handle to a procedure on the heap.
#[derive(Clone, Copy, Debug, PartialEq, Eq, Structural, Hash)]
pub struct ProcedurePtr {
    pub index: usize,
}

/// A handle to an activation on the heap.
#[derive(Clone, Copy, Debug, PartialEq, Eq, Structural, Hash)]
pub struct ActivationPtr {
    pub index: usize,
}

/// `Value` represents a scheme value of any type.
///
/// Equality on the variants that hold a handle is identity of the handle,
/// never a comparison of what the handle leads to.
#[derive(Clone, Copy, Debug, PartialEq, Eq, Structural, Hash)]
pub enum Value {
    /// The empty list: `()`.
    EmptyList,
    /// A pair: a handle to a cons cell.
    Pair(ConsPtr),
    /// A string: a handle to its characters.
    String(StringPtr),
    /// A symbol: a handle to the string that is its name.
    Symbol(StringPtr),
    /// A 64 bit integer.
    Integer(i64),
    /// A boolean.
    Boolean(bool),
    /// A character.
    Character(char),
    /// A procedure: a handle to its record.
    Procedure(ProcedurePtr),
}

/// One heap record as a collector sees it: the kind of record and its handle.
#[derive(Clone, Copy, Debug, PartialEq, Eq, Structural, Hash)]
pub enum GcThing {
    Cons(ConsPtr),
    String(StringPtr),
    Procedure(ProcedurePtr),
    Activation(ActivationPtr),
}

impl Value {
    /// The record that this value leads to directly, if it leads to one.
    pub open spec fn gc_thing(self) -> Option<GcThing> {
        match self {
            Value::String(s) => Some(GcThing::String(s)),
            Value::Symbol(s) => Some(GcThing::String(s)),
            Value::Pair(c) => Some(GcThing::Cons(c)),
            Value::Procedure(p) => Some(GcThing::Procedure(p)),
            _ => None,
        }
    }

    /// The records reachable from this value in one step: itself, where it
    /// holds a handle.
    pub open spec fn trace_set(self) -> Seq<GcThing> {
        match self.gc_thing() {
            Some(t) => seq![t],
            None => seq![],
        }
    }

    /// The value's handle, if it holds one, is below the given counts of
    /// cons cells, strings and procedures.
    pub open spec fn within(self, cons: nat, strings: nat, procedures: nat) -> bool {
        match self {
            Value::Pair(c) => c.index < cons,
            Value::String(s) => s.index < strings,
            Value::Symbol(s) => s.index < strings,
            Value::Procedure(p) => p.index < procedures,
            _ => true,
        }
    }

    /// A form that evaluates to itself: neither a pair, nor a symbol, nor
    /// the empty list.
    pub open spec fn self_evaluating(self) -> bool {
        !(self is Pair) && !(self is Symbol) && !(self is EmptyList)
    }

    /// Create a new integer value.
    pub fn new_integer(i: i64) -> (v: Value)
        ensures
            v == Value::Integer(i),
    {
        Value::Integer(i)
    }

    /// Create a new boolean value.
    pub fn new_boolean(b: bool) -> (v: Value)
        ensures
            v == Value::Boolean(b),
    {
        Value::Boolean(b)
    }

    /// Create a new character value.
    pub fn new_character(c: char) -> (v: Value)
        ensures
            v == Value::Character(c),
    {
        Value::Character(c)
    }

    /// Create a new symbol value whose name is the given string.
    pub fn new_symbol(name: StringPtr) -> (v: Value)
        ensures
            v == Value::Symbol(name),
    {
        Value::Symbol(name)
    }

    /// Return true if this value is a pair, false otherwise.
    pub fn is_pair(&self) -> (b: bool)
        ensures
            b == (*self is Pair),
    {
        match *self {
            Value::Pair(_) => true,
            _ => false,
        }
    }

    /// Return true if this value is an atom, false otherwise.
    pub fn is_atom(&self) -> (b: bool)
        ensures
            b == !(*self is Pair),
    {
        !self.is_pair()
    }

    /// Coerce this symbol value to the handle of its name.
    pub fn to_symbol(&self) -> (r: Option<StringPtr>)
        ensures
            r == (match *self {
                Value::Symbol(s) => Some(s),
                _ => None,
            }),
    {
        match *self {
            Value::Symbol(sym) => Some(sym),
            _ => None,
        }
    }

    /// Coerce this pair value to the handle of its cons cell.
    pub fn to_pair(&self) -> (r: Option<ConsPtr>)
        ensures
            r == (match *self {
                Value::Pair(c) => Some(c),
                _ => None,
            }),
    {
        match *self {
            Value::Pair(cons) => Some(cons),
            _ => None,
        }
    }

    /// Coerce this procedure value to the handle of its record.
    pub fn to_procedure(&self) -> (r: Option<ProcedurePtr>)
        ensures
            r == (match *self {
                Value::Procedure(p) => Some(p),
                _ => None,
            }),
    {
        match *self {
            Value::Procedure(p) => Some(p),
            _ => None,
        }
    }

    /// The record that a collector must keep alive for this value.
    pub fn to_gc_thing(&self) -> (r: Option<GcThing>)
        ensures
            r == self.gc_thing(),
    {
        match *self {
            Value::String(s) => Some(GcThing::String(s)),
            Value::Symbol(s) => Some(GcThing::String(s)),
            Value::Pair(c) => Some(GcThing::Cons(c)),
            Value::Procedure(p) => Some(GcThing::Procedure(p)),
            _ => None,
        }
    }

    /// The handles reachable from this value in one step.
    pub fn trace(&self) -> (r: Vec<GcThing>)
        ensures
            r@ == self.trace_set(),
            r@.len() <= 1,
    {
        let mut results: Vec<GcThing> = Vec::new();
        if let Some(t) = self.to_gc_thing() {
            results.push(t);
        }
        assert(results@ =~= self.trace_set());
        results
    }
}

/// A cons cell is a pair of `car` and `cdr` values. A list is one or more
/// cons cells chained through the `cdr`. A list is proper if the last `cdr`
/// is the empty list, and improper otherwise.
#[derive(Clone, Copy, Debug, PartialEq, Eq, Structural, Hash)]
pub struct Cons {
    pub car: Value,
    pub cdr: Value,
}

impl Default for Cons {
    /// A cell that holds the empty list twice: what a fresh allocation holds.
    fn default() -> (c: Cons)
        ensures
            c == (Cons { car: Value::EmptyList, cdr: Value::EmptyList }),
    {
        Cons { car: Value::EmptyList, cdr: Value::EmptyList }
    }
}

impl Cons {
    /// The records reachable from this cell in one step: those of the car
    /// and of the cdr, in this order.
    pub open spec fn trace_set(self) -> Seq<GcThing> {
        self.car.trace_set() + self.cdr.trace_set()
    }

    /// Get the car of this cons cell.
    pub fn car(&self) -> (v: Value)
        ensures
            v == self.car,
    {
        self.car
    }

    /// Get the cdr of this cons cell.
    pub fn cdr(&self) -> (v: Value)
        ensures
            v == self.cdr,
    {
        self.cdr
    }

    /// Set the car of this cons cell.
    pub fn set_car(&mut self, car: Value)
        ensures
            *final(self) == (Cons { car: car, cdr: old(self).cdr }),
    {
        self.car = car;
    }

    /// Set the cdr of this cons cell.
    pub fn set_cdr(&mut self, cdr: Value)
        ensures
            *final(self) == (Cons { car: old(self).car, cdr: cdr }),
    {
        self.cdr = cdr;
    }

    /// The handles reachable from this cell in one step.
    pub fn trace(&self) -> (r: Vec<GcThing>)
        ensures
            r@ == self.trace_set(),
            r@.len() <= 2,
    {
        let mut results: Vec<GcThing> = Vec::new();
        if let Some(car) = self.car.to_gc_thing() {
            results.push(car);
        }
        if let Some(cdr) = self.cdr.to_gc_thing() {
            results.push(cdr);
        }
        assert(results@ =~= self.trace_set());
        results
    }
}

/// Procedures are represented by their parameter list, their body, and the
/// activation in which they were made.
#[derive(Clone, Copy, Debug, PartialEq, Eq, Structural, Hash)]
pub struct Procedure {
    pub params: Value,
    pub body: Value,
    pub env: ActivationPtr,
}

impl Default for Procedure {
    /// A procedure without parameters or body, made in the global
    /// activation: what a fresh allocation holds.
    fn default() -> (p: Procedure)
        ensures
            p == (Procedure {
                params: Value::EmptyList,
                body: Value::EmptyList,
                env: ActivationPtr { index: 0 },
            }),
    {
        Procedure {
            params: Value::EmptyList,
            body: Value::EmptyList,
            env: ActivationPtr { index: 0 },
        }
    }
}

impl Procedure {
    /// The records reachable from this procedure in one step: those of the
    /// parameters and of the body, then the activation it was made in.
    pub open spec fn trace_set(self) -> Seq<GcThing> {
        self.params.trace_set() + self.body.trace_set() + seq![GcThing::Activation(self.env)]
    }

    /// Get this procedure's parameters.
    pub fn get_params(&self) -> (v: Value)
        ensures
            v == self.params,
    {
        self.params
    }

    /// Get this procedure's body.
    pub fn get_body(&self) -> (v: Value)
        ensures
            v == self.body,
    {
        self.body
    }

    /// Get this procedure's environment.
    pub fn get_env(&self) -> (a: ActivationPtr)
        ensures
            a == self.env,
    {
        self.env
    }

    /// Set this procedure's parameters.
    pub fn set_params(&mut self, params: Value)
        ensures
            *final(self) == (Procedure { params: params, ..*old(self) }),
    {
        self.params = params;
    }

    /// Set this procedure's body.
    pub fn set_body(&mut self, body: Value)
        ensures
            *final(self) == (Procedure { body: body, ..*old(self) }),
    {
        self.body = body;
    }

    /// Set this procedure's environment.
    pub fn set_env(&mut self, env: ActivationPtr)
        ensures
            *final(self) == (Procedure { env: env, ..*old(self) }),
    {
        self.env = env;
    }

    /// The handles reachable from this procedure in one step.
    pub fn trace(&self) -> (r: Vec<GcThing>)
        ensures
            r@ == self.trace_set(),
            1 <= r@.len() <= 3,
    {
        let mut results: Vec<GcThing> = Vec::new();
        if let Some(params) = self.params.to_gc_thing() {
            results.push(params);
        }
        if let Some(body) = self.body.to_gc_thing() {
            results.push(body);
        }
        results.push(GcThing::Activation(self.env));
        assert(results@ =~= self.trace_set());
        results
    }
}

impl ConsPtr {
    /// The record that a collector must keep alive for this handle.
    pub fn to_gc_thing(&self) -> (r: Option<GcThing>)
        ensures
            r == Some(GcThing::Cons(*self)),
    {
        Some(GcThing::Cons(*self))
    }
}

impl ProcedurePtr {
    /// The record that a collector must keep alive for this handle.
    pub fn to_gc_thing(&self) -> (r: Option<GcThing>)
        ensures
            r == Some(GcThing::Procedure(*self)),
    {
        Some(GcThing::Procedure(*self))
    }
}

} // verus!
