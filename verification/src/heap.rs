//! The heap: an arena that owns every cons cell, string, procedure and
//! activation, and hands out handles to them. Records are never moved or
//! freed here, so a handle stays good once it is.

use vstd::prelude::*;
use crate::environment::{scopes_define, scopes_lookup, Environment, ScopeNames};
use crate::meaning::Meaning;
use crate::value::{ActivationPtr, Cons, ConsPtr, Procedure, ProcedurePtr, StringPtr, Value};

verus! {

/// How many strings a fresh heap holds: the names of the special forms and
/// of the unspecified value.
pub const WELL_KNOWN_STRINGS: usize = 7;

/// An activation as the contracts see it: the activation around it, and the
/// values of its variables by slot.
pub struct ActivationView {
    pub parent: Option<ActivationPtr>,
    pub slots: Seq<Value>,
}

/// The heap as the contracts see it.
pub struct HeapView {
    /// The cons cells, by handle.
    pub cons: Seq<Cons>,
    /// The strings, by handle.
    pub strings: Seq<Seq<char>>,
    /// The strings that are the names of interned symbols.
    pub symbols: Seq<StringPtr>,
    /// The procedures, by handle.
    pub procedures: Seq<Procedure>,
    /// What the body of each procedure means, by the procedure's handle.
    pub codes: Seq<Option<Meaning>>,
    /// The activations, by handle. The first is the global activation.
    pub activations: Seq<ActivationView>,
    /// The scopes of the lexical environment, innermost last.
    pub scopes: Seq<ScopeNames>,
    /// The fuel that an evaluation starts with. Each step takes one unit of
    /// fuel from its run, and a run inside a step starts with what the step
    /// had left: so no run takes more steps than this.
    pub step_limit: nat,
    /// The depth that an evaluation starts with: how deep runs may nest
    /// inside steps.
    pub depth_limit: nat,
}

/// The symbol `quote`.
pub open spec fn quote_value() -> Value {
    Value::Symbol(StringPtr { index: 0 })
}

/// The symbol `if`.
pub open spec fn if_value() -> Value {
    Value::Symbol(StringPtr { index: 1 })
}

/// The symbol `begin`.
pub open spec fn begin_value() -> Value {
    Value::Symbol(StringPtr { index: 2 })
}

/// The symbol `define`.
pub open spec fn define_value() -> Value {
    Value::Symbol(StringPtr { index: 3 })
}

/// The symbol `set!`.
pub open spec fn set_bang_value() -> Value {
    Value::Symbol(StringPtr { index: 4 })
}

/// The symbol `lambda`.
pub open spec fn lambda_value() -> Value {
    Value::Symbol(StringPtr { index: 5 })
}

/// The value of what has no value to give: an assignment, a variable that
/// was never assigned.
pub open spec fn unspecified_value() -> Value {
    Value::Symbol(StringPtr { index: 6 })
}

impl HeapView {
    /// The value's handle, if it holds one, leads to a record of this heap.
    pub open spec fn valid_value(self, v: Value) -> bool {
        v.within(self.cons.len(), self.strings.len(), self.procedures.len())
    }

    /// The handle leads to an activation of this heap.
    pub open spec fn valid_activation(self, a: ActivationPtr) -> bool {
        a.index < self.activations.len()
    }

    /// The meaning's values lead to records of this heap.
    pub open spec fn valid_meaning(self, m: Meaning) -> bool {
        m.within(self.cons.len(), self.strings.len(), self.procedures.len())
    }

    /// How many activations lie on the way from this one to the global
    /// activation, both included.
    pub open spec fn chain_len(self, a: ActivationPtr) -> nat
        decreases a.index,
    {
        if a.index < self.activations.len() {
            match self.activations[a.index as int].parent {
                Some(p) => if p.index < a.index {
                    1 + self.chain_len(p)
                } else {
                    1
                },
                None => 1,
            }
        } else {
            0
        }
    }

    /// The activation that lies `up` activations around this one.
    pub open spec fn ancestor(self, a: ActivationPtr, up: nat) -> ActivationPtr
        decreases up,
    {
        if up == 0 {
            a
        } else {
            match self.activations[a.index as int].parent {
                Some(p) => self.ancestor(p, (up - 1) as nat),
                None => a,
            }
        }
    }

    /// The value of the variable at the address, seen from the activation.
    /// A slot that was never assigned holds the unspecified value.
    pub open spec fn fetch(self, a: ActivationPtr, up: nat, slot: nat) -> Value {
        let slots = self.activations[self.ancestor(a, up).index as int].slots;
        if slot < slots.len() {
            slots[slot as int]
        } else {
            unspecified_value()
        }
    }

    /// The heap after the variable at the address, seen from the activation,
    /// got the value. The slots before one that is assigned for the first
    /// time hold the unspecified value until they are assigned.
    pub open spec fn update(self, a: ActivationPtr, up: nat, slot: nat, v: Value) -> HeapView {
        let target = self.ancestor(a, up).index as int;
        let old_slots = self.activations[target].slots;
        let new_slots = if slot < old_slots.len() {
            old_slots.update(slot as int, v)
        } else {
            (old_slots + Seq::new((slot - old_slots.len()) as nat, |i: int| unspecified_value())).push(v)
        };
        HeapView {
            activations: self.activations.update(
                target,
                ActivationView { parent: self.activations[target].parent, slots: new_slots },
            ),
            ..self
        }
    }

    /// The interned symbol of that name, if there is one.
    pub open spec fn interned(self, name: Seq<char>) -> Option<StringPtr> {
        if exists|i: int|
            0 <= i < self.symbols.len() && self.strings[(#[trigger] self.symbols[i]).index as int]
                == name {
            Some(
                self.symbols[choose|i: int|
                    0 <= i < self.symbols.len() && self.strings[(
                    #[trigger] self.symbols[i]).index as int] == name],
            )
        } else {
            None
        }
    }

    /// The heap after the name was interned: as it is, where a symbol of
    /// that name is there; else with one more string, which is one more
    /// symbol.
    pub open spec fn intern(self, name: Seq<char>) -> HeapView {
        if self.interned(name) is Some {
            self
        } else {
            HeapView {
                strings: self.strings.push(name),
                symbols: self.symbols.push(StringPtr { index: self.strings.len() as usize }),
                ..self
            }
        }
    }

    /// The names that the strings behind the handles hold.
    pub open spec fn names_of(self, symbols: Seq<StringPtr>) -> ScopeNames {
        symbols.map_values(|p: StringPtr| self.strings[p.index as int])
    }

    /// The address of the symbol's name in the scopes.
    pub open spec fn lookup(self, sym: StringPtr) -> Option<(nat, nat)> {
        scopes_lookup(self.scopes, self.strings[sym.index as int])
    }

    /// The heap without its scopes: what analysis reads and leaves as it is.
    pub open spec fn frame(self) -> HeapView {
        HeapView { scopes: Seq::empty(), ..self }
    }

    /// The heap with other scopes.
    pub open spec fn with_scopes(self, scopes: Seq<ScopeNames>) -> HeapView {
        HeapView { scopes, ..self }
    }

    /// The heap with one more cons cell.
    pub open spec fn push_cons(self, c: Cons) -> HeapView {
        HeapView { cons: self.cons.push(c), ..self }
    }

    /// The heap with one more activation.
    pub open spec fn push_activation(self, parent: ActivationPtr, slots: Seq<Value>) -> HeapView {
        HeapView {
            activations: self.activations.push(ActivationView { parent: Some(parent), slots }),
            ..self
        }
    }

    /// The heap with one more procedure, and what its body means.
    pub open spec fn push_procedure(self, p: Procedure, code: Option<Meaning>) -> HeapView {
        HeapView { procedures: self.procedures.push(p), codes: self.codes.push(code), ..self }
    }

    /// The strings of a fresh heap are there, under their names, and the
    /// names of the interned symbols differ from each other.
    pub open spec fn wf_strings(self) -> bool {
        &&& self.strings.len() >= WELL_KNOWN_STRINGS
        &&& self.strings[0] == "quote"@
        &&& self.strings[1] == "if"@
        &&& self.strings[2] == "begin"@
        &&& self.strings[3] == "define"@
        &&& self.strings[4] == "set!"@
        &&& self.strings[5] == "lambda"@
        &&& self.strings[6] == "unspecified"@
        &&& self.symbols.len() >= 6
        &&& forall|i: int| 0 <= i < 6 ==> (#[trigger] self.symbols[i]).index == i
        &&& forall|i: int|
            0 <= i < self.symbols.len() ==> (#[trigger] self.symbols[i]).index < self.strings.len()
        &&& forall|i: int, j: int|
            0 <= i < j < self.symbols.len() ==> self.strings[(#[trigger] self.symbols[i]).index as int]
                != self.strings[(#[trigger] self.symbols[j]).index as int]
    }

    /// A cons cell holds only what was there before it: lists have no cycle
    /// and no handle dangles.
    pub open spec fn wf_cons(self) -> bool {
        forall|i: int|
            0 <= i < self.cons.len() ==> {
                &&& (#[trigger] self.cons[i]).car.within(
                    i as nat,
                    self.strings.len(),
                    self.procedures.len(),
                )
                &&& self.cons[i].cdr.within(i as nat, self.strings.len(), self.procedures.len())
            }
    }

    /// The first activation is the global one, and every other lies in one
    /// that was there before it.
    pub open spec fn wf_chains(self) -> bool {
        &&& self.activations.len() >= 1
        &&& self.activations[0].parent is None
        &&& forall|i: int|
            1 <= i < self.activations.len() ==> match (#[trigger] self.activations[i]).parent {
                Some(p) => p.index < i,
                None => false,
            }
    }

    /// The activations are chained in order, and no slot holds a dangling
    /// handle.
    pub open spec fn wf_activations(self) -> bool {
        &&& self.wf_chains()
        &&& forall|i: int, j: int|
            0 <= i < self.activations.len() && 0 <= j < self.activations[i].slots.len()
                ==> self.valid_value(#[trigger] self.activations[i].slots[j])
    }

    /// Every procedure holds good handles, and the meaning of its body, if
    /// it has one, resolves every address in the activation that a call
    /// makes inside the procedure's own.
    pub open spec fn wf_procedures(self) -> bool {
        &&& self.procedures.len() == self.codes.len()
        &&& forall|i: int|
            0 <= i < self.procedures.len() ==> {
                &&& self.valid_value((#[trigger] self.procedures[i]).params)
                &&& self.valid_value(self.procedures[i].body)
                &&& self.valid_activation(self.procedures[i].env)
            }
        &&& forall|i: int|
            0 <= i < self.codes.len() ==> match #[trigger] self.codes[i] {
                Some(m) => self.valid_meaning(m) && m.closed(
                    self.chain_len(self.procedures[i].env) + 1,
                ),
                None => true,
            }
    }

    /// There is a global scope, and every address fits its 32 bits.
    pub open spec fn wf_scopes(self) -> bool {
        &&& 1 <= self.scopes.len() <= u32::MAX
        &&& forall|i: int| 0 <= i < self.scopes.len() ==> (#[trigger] self.scopes[i]).len() <= u32::MAX
    }

    /// Every handle fits its machine word.
    pub open spec fn wf_sizes(self) -> bool {
        &&& self.cons.len() <= usize::MAX
        &&& self.strings.len() <= usize::MAX
        &&& self.procedures.len() <= usize::MAX
        &&& self.activations.len() <= usize::MAX
    }

    /// What holds of a heap at any time.
    pub open spec fn inv(self) -> bool {
        &&& self.wf_sizes()
        &&& self.wf_strings()
        &&& self.wf_cons()
        &&& self.wf_activations()
        &&& self.wf_procedures()
        &&& self.wf_scopes()
    }

    /// What holds of a heap between analyses: the invariant, and only the
    /// global scope is open.
    pub open spec fn wf(self) -> bool {
        self.inv() && self.scopes.len() == 1
    }

    /// The activations of one heap are those of the other, but for the
    /// values in their slots.
    pub open spec fn same_chains(self, other: HeapView) -> bool {
        &&& self.activations.len() <= other.activations.len()
        &&& forall|i: int|
            0 <= i < self.activations.len() ==> (#[trigger] self.activations[i]).parent
                == other.activations[i].parent
    }

    /// Activations that keep their place keep their distance to the global
    /// activation.
    pub proof fn lemma_chain_len_stable(self, other: HeapView, a: ActivationPtr)
        requires
            self.same_chains(other),
            self.valid_activation(a),
        ensures
            self.chain_len(a) == other.chain_len(a),
        decreases a.index,
    {
        match self.activations[a.index as int].parent {
            Some(p) => {
                if p.index < a.index {
                    self.lemma_chain_len_stable(other, p);
                }
            },
            None => {},
        }
    }

    /// Under the invariant an activation has as many ancestors as its
    /// distance to the global activation says, and each is an activation at
    /// the distance that is left.
    pub proof fn lemma_ancestor(self, a: ActivationPtr, up: nat)
        requires
            self.wf_chains(),
            self.valid_activation(a),
            up < self.chain_len(a),
        ensures
            self.valid_activation(self.ancestor(a, up)),
            self.chain_len(self.ancestor(a, up)) == self.chain_len(a) - up,
        decreases up,
    {
        if up > 0 {
            match self.activations[a.index as int].parent {
                Some(p) => {
                    self.lemma_ancestor(p, (up - 1) as nat);
                },
                None => {},
            }
        }
    }
}


impl HeapView {
    /// Activations that keep their place keep their ancestors.
    pub proof fn lemma_ancestor_stable(self, other: HeapView, a: ActivationPtr, up: nat)
        requires
            self.wf_chains(),
            self.same_chains(other),
            self.valid_activation(a),
            up < self.chain_len(a),
        ensures
            self.ancestor(a, up) == other.ancestor(a, up),
        decreases up,
    {
        if up > 0 {
            match self.activations[a.index as int].parent {
                Some(p) => {
                    self.lemma_ancestor_stable(other, p, (up - 1) as nat);
                },
                None => {},
            }
        }
    }

    /// Giving a variable a value leaves the activations chained as they
    /// were.
    pub proof fn lemma_update_chains(self, a: ActivationPtr, up: nat, slot: nat, v: Value)
        requires
            self.wf_chains(),
            self.valid_activation(a),
            up < self.chain_len(a),
        ensures
            self.update(a, up, slot, v).wf_chains(),
            self.same_chains(self.update(a, up, slot, v)),
            self.update(a, up, slot, v).chain_len(a) == self.chain_len(a),
    {
        let after = self.update(a, up, slot, v);
        self.lemma_ancestor(a, up);
        assert(self.same_chains(after));
        self.lemma_chain_len_stable(after, a);
    }

    /// A variable holds the value that it was given last.
    pub proof fn lemma_fetch_updated(self, a: ActivationPtr, up: nat, slot: nat, v: Value)
        requires
            self.wf_chains(),
            self.valid_activation(a),
            up < self.chain_len(a),
        ensures
            self.update(a, up, slot, v).fetch(a, up, slot) == v,
    {
        let after = self.update(a, up, slot, v);
        self.lemma_ancestor(a, up);
        self.lemma_ancestor_stable(after, a, up);
    }

    /// Giving one variable a value leaves the others as they are.
    pub proof fn law_update_keeps_others(
        self,
        a: ActivationPtr,
        up: nat,
        slot: nat,
        v: Value,
        b: ActivationPtr,
        other_up: nat,
        other_slot: nat,
    )
        requires
            self.wf_chains(),
            self.valid_activation(a),
            up < self.chain_len(a),
            self.valid_activation(b),
            other_up < self.chain_len(b),
            self.ancestor(a, up) != self.ancestor(b, other_up) || slot != other_slot,
        ensures
            self.update(a, up, slot, v).fetch(b, other_up, other_slot) == self.fetch(
                b,
                other_up,
                other_slot,
            ),
    {
        let after = self.update(a, up, slot, v);
        self.lemma_ancestor(a, up);
        self.lemma_ancestor(b, other_up);
        self.lemma_ancestor_stable(after, b, other_up);
    }

    /// The heap grew from `self` to `other`: no record went away, and the
    /// procedures that were there are as they were.
    pub open spec fn grown_to(self, other: HeapView) -> bool {
        &&& self.cons.len() <= other.cons.len()
        &&& self.strings.len() <= other.strings.len()
        &&& self.procedures.len() <= other.procedures.len()
        &&& self.codes.len() <= other.codes.len()
        &&& self.same_chains(other)
        &&& forall|i: int|
            0 <= i < self.procedures.len() ==> (#[trigger] self.procedures[i]) == other.procedures[i]
        &&& forall|i: int| 0 <= i < self.codes.len() ==> (#[trigger] self.codes[i]) == other.codes[i]
    }

    /// A meaning that was good in a heap is good in the heap grown from it.
    pub proof fn lemma_valid_meaning_grows(self, other: HeapView, m: Meaning)
        requires
            self.grown_to(other),
            self.valid_meaning(m),
        ensures
            other.valid_meaning(m),
    {
        m.lemma_within_grows(
            self.cons.len(),
            self.strings.len(),
            self.procedures.len(),
            other.cons.len(),
            other.strings.len(),
            other.procedures.len(),
        );
    }

    /// The procedures that were good in a heap are good in the heap grown
    /// from it.
    pub proof fn lemma_procedures_grow(self, other: HeapView)
        requires
            self.wf_procedures(),
            self.grown_to(other),
        ensures
            forall|i: int|
                0 <= i < self.procedures.len() ==> {
                    &&& other.valid_value((#[trigger] other.procedures[i]).params)
                    &&& other.valid_value(other.procedures[i].body)
                    &&& other.valid_activation(other.procedures[i].env)
                },
            forall|i: int|
                0 <= i < self.codes.len() ==> match #[trigger] other.codes[i] {
                    Some(m) => other.valid_meaning(m) && m.closed(
                        other.chain_len(other.procedures[i].env) + 1,
                    ),
                    None => true,
                },
    {
        assert forall|i: int| 0 <= i < self.procedures.len() implies {
            &&& other.valid_value((#[trigger] other.procedures[i]).params)
            &&& other.valid_value(other.procedures[i].body)
            &&& other.valid_activation(other.procedures[i].env)
        } by {
            assert(self.procedures[i] == other.procedures[i]);
        }
        assert forall|i: int| 0 <= i < self.codes.len() implies match #[trigger] other.codes[i] {
            Some(m) => other.valid_meaning(m) && m.closed(
                other.chain_len(other.procedures[i].env) + 1,
            ),
            None => true,
        } by {
            assert(self.codes[i] == other.codes[i]);
            assert(self.procedures[i] == other.procedures[i]);
            match self.codes[i] {
                Some(m) => {
                    self.lemma_valid_meaning_grows(other, m);
                    self.lemma_chain_len_stable(other, self.procedures[i].env);
                },
                None => {},
            }
        }
    }
}

/// The variables of one call, or of the top level: the values by slot, and
/// the activation around it.
struct Activation {
    parent: Option<ActivationPtr>,
    slots: Vec<Value>,
}

impl View for Activation {
    type V = ActivationView;

    closed spec fn view(&self) -> ActivationView {
        ActivationView { parent: self.parent, slots: self.slots@ }
    }
}

/// The heap. It owns every record, the lexical environment that analysis
/// resolves names in, and the limits of one evaluation.
pub struct Heap {
    cons: Vec<Cons>,
    strings: Vec<String>,
    symbols: Vec<StringPtr>,
    procedures: Vec<Procedure>,
    codes: Vec<Option<Meaning>>,
    activations: Vec<Activation>,
    environment: Environment,
    step_limit: u64,
    depth_limit: usize,
}

impl View for Heap {
    type V = HeapView;

    closed spec fn view(&self) -> HeapView {
        HeapView {
            cons: self.cons@,
            strings: self.strings@.map_values(|s: String| s@),
            symbols: self.symbols@,
            procedures: self.procedures@,
            codes: self.codes@,
            activations: self.activations@.map_values(|a: Activation| a@),
            scopes: self.environment@,
            step_limit: self.step_limit as nat,
            depth_limit: self.depth_limit as nat,
        }
    }
}

/// The names of the special forms differ from each other.
proof fn lemma_names_differ()
    ensures
        "quote"@ != "if"@,
        "quote"@ != "begin"@,
        "quote"@ != "define"@,
        "quote"@ != "set!"@,
        "quote"@ != "lambda"@,
        "if"@ != "begin"@,
        "if"@ != "define"@,
        "if"@ != "set!"@,
        "if"@ != "lambda"@,
        "begin"@ != "define"@,
        "begin"@ != "set!"@,
        "begin"@ != "lambda"@,
        "define"@ != "set!"@,
        "define"@ != "lambda"@,
        "set!"@ != "lambda"@,
{
    reveal_strlit("quote");
    reveal_strlit("if");
    reveal_strlit("begin");
    reveal_strlit("define");
    reveal_strlit("set!");
    reveal_strlit("lambda");
    assert("quote"@[0] == 'q');
    assert("begin"@[0] == 'b');
    assert("define"@[0] == 'd');
    assert("lambda"@[0] == 'l');
    assert("define"@.len() == 6);
    assert("lambda"@.len() == 6);
    assert("set!"@.len() == 4);
    assert("if"@.len() == 2);
}

impl Heap {
    /// The records of a heap are counted in machine words.
    proof fn lemma_sizes(&self)
        ensures
            self@.wf_sizes(),
    {
        assert(self.cons.len() == self.cons@.len());
        assert(self.strings.len() == self.strings@.len());
        assert(self.procedures.len() == self.procedures@.len());
        assert(self.activations.len() == self.activations@.len());
    }

    /// A fresh heap: the names of the special forms as interned symbols,
    /// the name of the unspecified value, a global activation without
    /// variables, a global scope without names, and limits of 2^64 - 1 steps
    /// and a nesting of 256.
    pub fn new() -> (heap: Heap)
        ensures
            heap@.wf(),
            heap@.cons.len() == 0,
            heap@.strings.len() == WELL_KNOWN_STRINGS,
            heap@.symbols.len() == 6,
            heap@.procedures.len() == 0,
            heap@.activations == seq![ActivationView { parent: None, slots: Seq::empty() }],
            heap@.scopes == seq![Seq::<Seq<char>>::empty()],
            heap@.step_limit == u64::MAX,
            heap@.depth_limit == 256,
    {
        let mut strings: Vec<String> = Vec::new();
        strings.push("quote".to_owned());
        strings.push("if".to_owned());
        strings.push("begin".to_owned());
        strings.push("define".to_owned());
        strings.push("set!".to_owned());
        strings.push("lambda".to_owned());
        strings.push("unspecified".to_owned());
        let mut symbols: Vec<StringPtr> = Vec::new();
        symbols.push(StringPtr { index: 0 });
        symbols.push(StringPtr { index: 1 });
        symbols.push(StringPtr { index: 2 });
        symbols.push(StringPtr { index: 3 });
        symbols.push(StringPtr { index: 4 });
        symbols.push(StringPtr { index: 5 });
        let mut activations: Vec<Activation> = Vec::new();
        activations.push(Activation { parent: None, slots: Vec::new() });
        let heap = Heap {
            cons: Vec::new(),
            strings,
            symbols,
            procedures: Vec::new(),
            codes: Vec::new(),
            activations,
            environment: Environment::new(),
            step_limit: u64::MAX,
            depth_limit: 256,
        };
        proof {
            lemma_names_differ();
            assert(heap@.activations =~= seq![
                ActivationView { parent: None, slots: Seq::empty() },
            ]);
            assert(heap@.wf_strings());
        }
        heap
    }

    /// The symbol `quote`.
    pub fn quote_symbol(&self) -> (v: Value)
        ensures
            v == quote_value(),
    {
        Value::Symbol(StringPtr { index: 0 })
    }

    /// The symbol `if`.
    pub fn if_symbol(&self) -> (v: Value)
        ensures
            v == if_value(),
    {
        Value::Symbol(StringPtr { index: 1 })
    }

    /// The symbol `begin`.
    pub fn begin_symbol(&self) -> (v: Value)
        ensures
            v == begin_value(),
    {
        Value::Symbol(StringPtr { index: 2 })
    }

    /// The symbol `define`.
    pub fn define_symbol(&self) -> (v: Value)
        ensures
            v == define_value(),
    {
        Value::Symbol(StringPtr { index: 3 })
    }

    /// The symbol `set!`.
    pub fn set_bang_symbol(&self) -> (v: Value)
        ensures
            v == set_bang_value(),
    {
        Value::Symbol(StringPtr { index: 4 })
    }

    /// The symbol `lambda`.
    pub fn lambda_symbol(&self) -> (v: Value)
        ensures
            v == lambda_value(),
    {
        Value::Symbol(StringPtr { index: 5 })
    }

    /// The unspecified value.
    pub fn unspecified_symbol(&self) -> (v: Value)
        ensures
            v == unspecified_value(),
    {
        Value::Symbol(StringPtr { index: 6 })
    }

    /// The global activation.
    pub fn global_activation(&self) -> (a: ActivationPtr)
        ensures
            a == (ActivationPtr { index: 0 }),
    {
        ActivationPtr { index: 0 }
    }

    /// Whether the value's handle, if it holds one, leads to a record of
    /// this heap.
    pub fn contains(&self, v: Value) -> (b: bool)
        ensures
            b == self@.valid_value(v),
    {
        match v {
            Value::Pair(c) => c.index < self.cons.len(),
            Value::String(s) => s.index < self.strings.len(),
            Value::Symbol(s) => s.index < self.strings.len(),
            Value::Procedure(p) => p.index < self.procedures.len(),
            _ => true,
        }
    }

    /// Whether the handle leads to a string of this heap.
    pub fn has_string(&self, p: StringPtr) -> (b: bool)
        ensures
            b == (p.index < self@.strings.len()),
    {
        p.index < self.strings.len()
    }

    /// Whether the handle leads to an activation of this heap.
    pub fn has_activation(&self, a: ActivationPtr) -> (b: bool)
        ensures
            b == self@.valid_activation(a),
    {
        a.index < self.activations.len()
    }

    /// The cons cell behind the handle.
    pub fn cons(&self, p: ConsPtr) -> (c: Cons)
        requires
            p.index < self@.cons.len(),
        ensures
            c == self@.cons[p.index as int],
    {
        self.cons[p.index]
    }

    /// The string behind the handle.
    pub fn string(&self, p: StringPtr) -> (s: &String)
        requires
            p.index < self@.strings.len(),
        ensures
            s@ == self@.strings[p.index as int],
    {
        &self.strings[p.index]
    }

    /// The procedure behind the handle.
    pub fn procedure(&self, p: ProcedurePtr) -> (r: Procedure)
        requires
            p.index < self@.procedures.len(),
        ensures
            r == self@.procedures[p.index as int],
    {
        self.procedures[p.index]
    }

    /// What the body of the procedure behind the handle means.
    pub fn code(&self, p: ProcedurePtr) -> (r: &Option<Meaning>)
        requires
            p.index < self@.codes.len(),
        ensures
            *r == self@.codes[p.index as int],
    {
        &self.codes[p.index]
    }

    /// The lexical environment.
    pub fn environment(&self) -> (env: &Environment)
        ensures
            env@ == self@.scopes,
    {
        &self.environment
    }

    /// The fuel that an evaluation starts with: how many steps a run may
    /// take.
    pub fn step_limit(&self) -> (n: u64)
        ensures
            n == self@.step_limit,
    {
        self.step_limit
    }

    /// The depth that an evaluation starts with: how deep runs may nest.
    pub fn depth_limit(&self) -> (n: usize)
        ensures
            n == self@.depth_limit,
    {
        self.depth_limit
    }

    /// Set the limits of an evaluation: the steps of a run and the nesting
    /// of runs.
    pub fn set_limits(&mut self, steps: u64, depth: usize)
        ensures
            final(self)@ == (HeapView {
                step_limit: steps as nat,
                depth_limit: depth as nat,
                ..old(self)@
            }),
    {
        self.step_limit = steps;
        self.depth_limit = depth;
    }
}


impl Heap {
    /// Allocate a cons cell that holds the empty list twice.
    pub fn allocate_cons(&mut self) -> (p: ConsPtr)
        requires
            old(self)@.inv(),
        ensures
            final(self)@.inv(),
            p.index == old(self)@.cons.len(),
            final(self)@ == old(self)@.push_cons(
                Cons { car: Value::EmptyList, cdr: Value::EmptyList },
            ),
    {
        let p = ConsPtr { index: self.cons.len() };
        self.cons.push(Cons { car: Value::EmptyList, cdr: Value::EmptyList });
        proof {
            self.lemma_sizes();
            old(self)@.lemma_procedures_grow(self@);
        }
        p
    }

    /// Fill the cons cell behind the handle, where that leaves the heap in
    /// order: the cell is there, and `car` and `cdr` lead to records that are
    /// there, their cons cells older than this one. Otherwise the heap stays
    /// as it is, and the answer is false.
    pub fn set_cons(&mut self, p: ConsPtr, car: Value, cdr: Value) -> (ok: bool)
        requires
            old(self)@.inv(),
        ensures
            final(self)@.inv(),
            ok == (p.index < old(self)@.cons.len() && car.within(
                p.index as nat,
                old(self)@.strings.len(),
                old(self)@.procedures.len(),
            ) && cdr.within(
                p.index as nat,
                old(self)@.strings.len(),
                old(self)@.procedures.len(),
            )),
            ok ==> final(self)@ == (HeapView {
                cons: old(self)@.cons.update(p.index as int, Cons { car, cdr }),
                ..old(self)@
            }),
            !ok ==> final(self)@ == old(self)@,
    {
        if p.index >= self.cons.len() {
            return false;
        }
        if !Self::older(car, p.index, self.strings.len(), self.procedures.len()) {
            return false;
        }
        if !Self::older(cdr, p.index, self.strings.len(), self.procedures.len()) {
            return false;
        }
        self.cons[p.index] = Cons { car, cdr };
        proof {
            self.lemma_sizes();
            old(self)@.lemma_procedures_grow(self@);
        }
        true
    }

    fn older(v: Value, cons: usize, strings: usize, procedures: usize) -> (b: bool)
        ensures
            b == v.within(cons as nat, strings as nat, procedures as nat),
    {
        match v {
            Value::Pair(c) => c.index < cons,
            Value::String(s) => s.index < strings,
            Value::Symbol(s) => s.index < strings,
            Value::Procedure(p) => p.index < procedures,
            _ => true,
        }
    }

    /// Allocate a string with the given contents.
    pub fn allocate_string(&mut self, contents: String) -> (p: StringPtr)
        requires
            old(self)@.inv(),
        ensures
            final(self)@.inv(),
            p.index == old(self)@.strings.len(),
            final(self)@ == (HeapView {
                strings: old(self)@.strings.push(contents@),
                ..old(self)@
            }),
    {
        let p = StringPtr { index: self.strings.len() };
        self.strings.push(contents);
        proof {
            assert(self@.strings =~= old(self)@.strings.push(contents@));
            self.lemma_sizes();
            old(self)@.lemma_procedures_grow(self@);
        }
        p
    }
}


impl Heap {
    /// The symbol of the given name: the one that is interned under it, or
    /// a new one, which is interned from now on. Two symbols that this
    /// function gave for one name are equal.
    pub fn get_or_create_symbol(&mut self, name: &str) -> (v: Value)
        requires
            old(self)@.inv(),
        ensures
            final(self)@.inv(),
            final(self)@ == old(self)@.intern(name@),
            v == Value::Symbol(final(self)@.interned(name@).unwrap()),
            final(self)@.interned(name@) is Some,
            final(self)@.valid_value(v),
            final(self)@.strings[v->Symbol_0.index as int] == name@,
    {
        let wanted = name.to_owned();
        let mut i: usize = 0;
        while i < self.symbols.len()
            invariant
                self@ == old(self)@,
                self@.inv(),
                wanted@ == name@,
                i <= self.symbols.len(),
                forall|k: int|
                    0 <= k < i ==> self@.strings[(#[trigger] self@.symbols[k]).index as int] != name@,
            decreases self.symbols.len() - i,
        {
            let p = self.symbols[i];
            assert(p == self@.symbols[i as int]);
            if self.strings[p.index] == wanted {
                return Value::Symbol(p);
            }
            i = i + 1;
        }
        let p = StringPtr { index: self.strings.len() };
        self.strings.push(wanted);
        self.symbols.push(p);
        proof {
            let before = old(self)@;
            assert(before.interned(name@) is None);
            assert(self@.strings =~= before.strings.push(name@));
            assert(self@ == before.intern(name@));
            self.lemma_sizes();
            before.lemma_procedures_grow(self@);
            let last = self@.symbols.len() - 1;
            assert(self@.symbols[last] == p);
            assert(self@.strings[self@.symbols[last].index as int] == name@);
            assert forall|a: int, b: int| 0 <= a < b < self@.symbols.len() implies self@.strings[(
            #[trigger] self@.symbols[a]).index as int] != self@.strings[(
            #[trigger] self@.symbols[b]).index as int] by {
                if b < last {
                    assert(self@.symbols[a] == before.symbols[a]);
                    assert(self@.symbols[b] == before.symbols[b]);
                } else {
                    assert(self@.symbols[a] == before.symbols[a]);
                }
            }
            assert(self@.wf_strings());
        }
        Value::Symbol(p)
    }

    /// Allocate a procedure without parameters or body, made in the global
    /// activation. It has no meaning to run.
    pub fn allocate_procedure(&mut self) -> (p: ProcedurePtr)
        requires
            old(self)@.inv(),
        ensures
            final(self)@.inv(),
            p.index == old(self)@.procedures.len(),
            final(self)@ == old(self)@.push_procedure(
                Procedure {
                    params: Value::EmptyList,
                    body: Value::EmptyList,
                    env: ActivationPtr { index: 0 },
                },
                None,
            ),
    {
        let p = ProcedurePtr { index: self.procedures.len() };
        self.procedures.push(
            Procedure {
                params: Value::EmptyList,
                body: Value::EmptyList,
                env: ActivationPtr { index: 0 },
            },
        );
        self.codes.push(None);
        proof {
            self.lemma_sizes();
            old(self)@.lemma_procedures_grow(self@);
        }
        p
    }

    /// Fill the procedure behind the handle, where that leaves the heap in
    /// order: the procedure is there and has no meaning to run, and the
    /// record's handles lead to what is there. Otherwise the heap stays as
    /// it is, and the answer is false.
    pub fn set_procedure(&mut self, p: ProcedurePtr, record: Procedure) -> (ok: bool)
        requires
            old(self)@.inv(),
        ensures
            final(self)@.inv(),
            ok == (p.index < old(self)@.procedures.len() && old(self)@.codes[p.index as int] is None
                && old(self)@.valid_value(record.params) && old(self)@.valid_value(record.body)
                && old(self)@.valid_activation(record.env)),
            ok ==> final(self)@ == (HeapView {
                procedures: old(self)@.procedures.update(p.index as int, record),
                ..old(self)@
            }),
            !ok ==> final(self)@ == old(self)@,
    {
        if p.index >= self.procedures.len() {
            return false;
        }
        if self.codes[p.index].is_some() {
            return false;
        }
        if !self.contains(record.params) || !self.contains(record.body) {
            return false;
        }
        if record.env.index >= self.activations.len() {
            return false;
        }
        self.procedures[p.index] = record;
        proof {
            let before = old(self)@;
            let after = self@;
            assert forall|i: int| 0 <= i < after.codes.len() implies match #[trigger] after.codes[i] {
                Some(m) => after.valid_meaning(m) && m.closed(
                    after.chain_len(after.procedures[i].env) + 1,
                ),
                None => true,
            } by {
                assert(after.codes[i] == before.codes[i]);
                if i != p.index {
                    assert(after.procedures[i] == before.procedures[i]);
                    before.lemma_chain_len_stable(after, before.procedures[i].env);
                }
            }
        }
        true
    }

    /// Allocate a procedure with its parameters, its body, the activation it
    /// is made in, and what its body means.
    pub fn allocate_closure(
        &mut self,
        params: Value,
        body: Value,
        env: ActivationPtr,
        code: Meaning,
    ) -> (p: ProcedurePtr)
        requires
            old(self)@.inv(),
            old(self)@.valid_value(params),
            old(self)@.valid_value(body),
            old(self)@.valid_activation(env),
            old(self)@.valid_meaning(code),
            code.closed(old(self)@.chain_len(env) + 1),
        ensures
            final(self)@.inv(),
            p.index == old(self)@.procedures.len(),
            final(self)@ == old(self)@.push_procedure(Procedure { params, body, env }, Some(code)),
    {
        let p = ProcedurePtr { index: self.procedures.len() };
        self.procedures.push(Procedure { params, body, env });
        self.codes.push(Some(code));
        proof {
            let before = old(self)@;
            let after = self@;
            self.lemma_sizes();
            before.lemma_procedures_grow(after);
            before.lemma_valid_meaning_grows(after, code);
            before.lemma_chain_len_stable(after, env);
        }
        p
    }

    /// Allocate an activation inside the given one, with the given values
    /// in its slots.
    pub fn allocate_activation(&mut self, parent: ActivationPtr, slots: Vec<Value>) -> (a:
        ActivationPtr)
        requires
            old(self)@.inv(),
            old(self)@.valid_activation(parent),
            forall|j: int| 0 <= j < slots@.len() ==> old(self)@.valid_value(#[trigger] slots@[j]),
        ensures
            final(self)@.inv(),
            a.index == old(self)@.activations.len(),
            final(self)@ == old(self)@.push_activation(parent, slots@),
            final(self)@.chain_len(a) == old(self)@.chain_len(parent) + 1,
    {
        let a = ActivationPtr { index: self.activations.len() };
        self.activations.push(Activation { parent: Some(parent), slots });
        proof {
            let before = old(self)@;
            let after = self@;
            assert(after.activations =~= before.activations.push(
                ActivationView { parent: Some(parent), slots: slots@ },
            ));
            self.lemma_sizes();
            before.lemma_procedures_grow(after);
            before.lemma_chain_len_stable(after, parent);
        }
        a
    }

    /// The activation that lies `up` activations around the given one.
    fn ancestor_of(&self, act: ActivationPtr, up: u32) -> (r: ActivationPtr)
        requires
            self@.inv(),
            self@.valid_activation(act),
            up < self@.chain_len(act),
        ensures
            r == self@.ancestor(act, up as nat),
            self@.valid_activation(r),
    {
        let mut cur = act;
        let mut left: u32 = up;
        while left > 0
            invariant
                self@.inv(),
                self@.valid_activation(cur),
                left < self@.chain_len(cur),
                self@.ancestor(cur, left as nat) == self@.ancestor(act, up as nat),
            decreases left,
        {
            match self.activations[cur.index].parent {
                Some(p) => {
                    cur = p;
                },
                None => {},
            }
            left = left - 1;
        }
        cur
    }

    /// The value of the variable at the address, seen from the activation.
    pub fn fetch(&self, act: ActivationPtr, up: u32, slot: u32) -> (v: Value)
        requires
            self@.inv(),
            self@.valid_activation(act),
            up < self@.chain_len(act),
        ensures
            v == self@.fetch(act, up as nat, slot as nat),
            self@.valid_value(v),
    {
        let target = self.ancestor_of(act, up);
        let slots = &self.activations[target.index].slots;
        if (slot as usize) < slots.len() {
            slots[slot as usize]
        } else {
            self.unspecified_symbol()
        }
    }

    /// Give the variable at the address, seen from the activation, the
    /// value.
    pub fn update(&mut self, act: ActivationPtr, up: u32, slot: u32, v: Value)
        requires
            old(self)@.inv(),
            old(self)@.valid_activation(act),
            up < old(self)@.chain_len(act),
            old(self)@.valid_value(v),
        ensures
            final(self)@.inv(),
            final(self)@ == old(self)@.update(act, up as nat, slot as nat, v),
    {
        let target = self.ancestor_of(act, up);
        let unspecified = self.unspecified_symbol();
        let ghost before = self@;
        Self::store(&mut self.activations[target.index].slots, slot as usize, v, unspecified);
        proof {
            let after = self@;
            assert(after.activations =~= before.update(
                act,
                up as nat,
                slot as nat,
                v,
            ).activations);
            self.lemma_sizes();
            before.lemma_procedures_grow(after);
        }
    }

    /// Put the value into the slot, after filling the slots that are missing
    /// before it.
    fn store(slots: &mut Vec<Value>, slot: usize, v: Value, filler: Value)
        ensures
            slot < old(slots)@.len() ==> final(slots)@ == old(slots)@.update(slot as int, v),
            slot >= old(slots)@.len() ==> final(slots)@ == (old(slots)@ + Seq::new(
                (slot - old(slots)@.len()) as nat,
                |i: int| filler,
            )).push(v),
    {
        if slot < slots.len() {
            slots[slot] = v;
        } else {
            while slots.len() < slot
                invariant
                    old(slots)@.len() <= slots@.len() <= slot,
                    slots@ =~= old(slots)@ + Seq::new(
                        (slots@.len() - old(slots)@.len()) as nat,
                        |i: int| filler,
                    ),
                decreases slot - slots@.len(),
            {
                slots.push(filler);
            }
            slots.push(v);
            assert(slots@ =~= (old(slots)@ + Seq::new(
                (slot - old(slots)@.len()) as nat,
                |i: int| filler,
            )).push(v));
        }
    }

    /// The address of the symbol's name, if a scope defines it.
    pub fn lookup(&self, sym: StringPtr) -> (r: Option<(u32, u32)>)
        requires
            self@.inv(),
            sym.index < self@.strings.len(),
        ensures
            match self@.lookup(sym) {
                Some((d, j)) => r == Some((d as u32, j as u32)) && d < self@.scopes.len() && j
                    <= u32::MAX,
                None => r is None,
            },
    {
        proof {
            crate::environment::lemma_scopes_lookup(self@.scopes, self@.strings[sym.index as int]);
        }
        self.environment.lookup(&self.strings[sym.index])
    }

    /// Give the symbol's name a fresh slot in the innermost scope and return
    /// its address. A scope that is full is left as it is.
    pub fn define(&mut self, sym: StringPtr) -> (r: Option<(u32, u32)>)
        requires
            old(self)@.inv(),
            sym.index < old(self)@.strings.len(),
        ensures
            final(self)@.inv(),
            old(self)@.scopes.last().len() < u32::MAX ==> r == Some(
                (0u32, old(self)@.scopes.last().len() as u32),
            ) && final(self)@ == (HeapView {
                scopes: scopes_define(old(self)@.scopes, old(self)@.strings[sym.index as int]),
                ..old(self)@
            }),
            old(self)@.scopes.last().len() >= u32::MAX ==> r is None && final(self)@ == old(self)@,
    {
        let name = self.strings[sym.index].clone();
        let r = self.environment.define(name);
        proof {
            self.lemma_sizes();
            old(self)@.lemma_procedures_grow(self@);
        }
        r
    }

    /// Open a scope inside the innermost one, with the names of the given
    /// symbols in it. Returns false, and opens nothing, where an address
    /// into the new scope or out of it would not fit.
    pub fn push_scope(&mut self, symbols: &Vec<StringPtr>) -> (ok: bool)
        requires
            old(self)@.inv(),
            forall|i: int| 0 <= i < symbols@.len() ==> (#[trigger] symbols@[i]).index < old(
                self,
            )@.strings.len(),
        ensures
            final(self)@.inv(),
            ok == (old(self)@.scopes.len() < u32::MAX && symbols@.len() <= u32::MAX),
            ok ==> final(self)@ == (HeapView {
                scopes: old(self)@.scopes.push(old(self)@.names_of(symbols@)),
                ..old(self)@
            }),
            !ok ==> final(self)@ == old(self)@,
    {
        let mut names: Vec<String> = Vec::new();
        let mut i: usize = 0;
        while i < symbols.len()
            invariant
                self@ == old(self)@,
                i <= symbols.len(),
                forall|k: int| 0 <= k < symbols@.len() ==> (#[trigger] symbols@[k]).index
                    < self@.strings.len(),
                names@.len() == i,
                forall|k: int| 0 <= k < i ==> (#[trigger] names@[k])@ == self@.strings[symbols@[k].index as int],
            decreases symbols.len() - i,
        {
            let p = symbols[i];
            names.push(self.strings[p.index].clone());
            i = i + 1;
        }
        proof {
            assert(names@.map_values(|n: String| n@) =~= self@.names_of(symbols@));
        }
        let ok = self.environment.push_scope(names);
        proof {
            self.lemma_sizes();
            old(self)@.lemma_procedures_grow(self@);
        }
        ok
    }

    /// Close the innermost scope. The global scope stays.
    pub fn pop_scope(&mut self)
        requires
            old(self)@.inv(),
        ensures
            final(self)@.inv(),
            old(self)@.scopes.len() > 1 ==> final(self)@ == (HeapView {
                scopes: old(self)@.scopes.drop_last(),
                ..old(self)@
            }),
            old(self)@.scopes.len() <= 1 ==> final(self)@ == old(self)@,
    {
        self.environment.pop_scope();
        proof {
            self.lemma_sizes();
            old(self)@.lemma_procedures_grow(self@);
        }
    }
}

} // verus!
