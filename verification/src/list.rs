//! Pairs and lists on the heap: what a chain of cons cells holds, and the
//! functions that read and build such chains.

use vstd::prelude::*;
use crate::heap::{Heap, HeapView};
use crate::meaning::Error;
use crate::value::{ActivationPtr, Cons, ConsPtr, Procedure, ProcedurePtr, StringPtr, Value};

verus! {

impl Value {
    /// A measure that falls from a pair to what its cell holds, in a heap
    /// that is in order.
    pub open spec fn rank(self) -> nat {
        match self {
            Value::Pair(c) => (c.index + 1) as nat,
            _ => 0,
        }
    }
}

impl HeapView {
    /// The car of a pair.
    pub open spec fn car(self, v: Value) -> Option<Value> {
        match v {
            Value::Pair(c) => Some(self.cons[c.index as int].car),
            _ => None,
        }
    }

    /// The cdr of a pair.
    pub open spec fn cdr(self, v: Value) -> Option<Value> {
        match v {
            Value::Pair(c) => Some(self.cons[c.index as int].cdr),
            _ => None,
        }
    }

    /// The elements of a proper list, first to last. A chain of pairs that
    /// does not end in the empty list has none.
    pub open spec fn elements(self, v: Value) -> Option<Seq<Value>>
        decreases v.rank(),
    {
        match v {
            Value::EmptyList => Some(Seq::empty()),
            Value::Pair(c) => {
                let cell = self.cons[c.index as int];
                if c.index < self.cons.len() && cell.cdr.rank() < v.rank() {
                    match self.elements(cell.cdr) {
                        Some(rest) => Some(seq![cell.car] + rest),
                        None => None,
                    }
                } else {
                    None
                }
            },
            _ => None,
        }
    }

    /// What a chain of pairs ends in: the first cdr on the way that is no
    /// pair.
    pub open spec fn last_cdr(self, v: Value) -> Value
        decreases v.rank(),
    {
        match v {
            Value::Pair(c) => {
                let cell = self.cons[c.index as int];
                if c.index < self.cons.len() && cell.cdr.rank() < v.rank() {
                    self.last_cdr(cell.cdr)
                } else {
                    v
                }
            },
            _ => v,
        }
    }

    /// The cons cells that a list of the values takes, in the order in which
    /// they are allocated: the last value's cell first.
    pub open spec fn list_cells(self, values: Seq<Value>) -> Seq<Cons> {
        Seq::new(
            values.len(),
            |k: int|
                Cons {
                    car: values[values.len() - 1 - k],
                    cdr: if k == 0 {
                        Value::EmptyList
                    } else {
                        Value::Pair(ConsPtr { index: (self.cons.len() + k - 1) as usize })
                    },
                },
        )
    }

    /// The list of the values, once its cells are allocated.
    pub open spec fn list_value(self, values: Seq<Value>) -> Value {
        if values.len() == 0 {
            Value::EmptyList
        } else {
            Value::Pair(ConsPtr { index: (self.cons.len() + values.len() - 1) as usize })
        }
    }

    /// The heap with the cells of a list of the values.
    pub open spec fn with_list(self, values: Seq<Value>) -> HeapView {
        HeapView { cons: self.cons + self.list_cells(values), ..self }
    }

    /// The cons cells of one heap are the first cons cells of the other.
    pub open spec fn cons_prefix_of(self, other: HeapView) -> bool {
        &&& self.cons.len() <= other.cons.len()
        &&& forall|i: int| 0 <= i < self.cons.len() ==> (#[trigger] self.cons[i]) == other.cons[i]
    }

    /// A list keeps its elements while cells are added to the heap.
    pub proof fn lemma_elements_stable(self, other: HeapView, v: Value)
        requires
            self.cons_prefix_of(other),
            v.rank() <= self.cons.len(),
        ensures
            self.elements(v) == other.elements(v),
        decreases v.rank(),
    {
        match v {
            Value::Pair(c) => {
                let cell = self.cons[c.index as int];
                assert(cell == other.cons[c.index as int]);
                if cell.cdr.rank() < v.rank() {
                    self.lemma_elements_stable(other, cell.cdr);
                }
            },
            _ => {},
        }
    }

    /// A list has the same elements whatever the scopes of the heap are.
    pub proof fn lemma_elements_frame(self, v: Value)
        requires
            self.valid_value(v),
        ensures
            self.frame().elements(v) == self.elements(v),
            self.frame().valid_value(v),
    {
        self.lemma_elements_stable(self.frame(), v);
    }

    /// In a heap that is in order, the elements of a list are values of the
    /// heap that rank below the list.
    pub proof fn lemma_elements_ranks(self, v: Value)
        requires
            self.wf_cons(),
            self.valid_value(v),
        ensures
            match self.elements(v) {
                Some(s) => forall|i: int|
                    0 <= i < s.len() ==> (#[trigger] s[i]).rank() < v.rank() && self.valid_value(
                        s[i],
                    ),
                None => true,
            },
        decreases v.rank(),
    {
        match v {
            Value::Pair(c) => {
                let cell = self.cons[c.index as int];
                self.lemma_elements_ranks(cell.cdr);
            },
            _ => {},
        }
    }

    /// In a heap that is in order, a list that is a pair has a first
    /// element, the car of the pair, and the cdr of the pair is the list of
    /// the other elements.
    pub proof fn lemma_elements_parts(self, v: Value)
        requires
            self.wf_cons(),
            self.valid_value(v),
            v is Pair,
            self.elements(v) is Some,
        ensures
            self.elements(v).unwrap().len() >= 1,
            self.car(v) == Some(self.elements(v).unwrap()[0]),
            self.elements(self.cdr(v).unwrap()) == Some(self.elements(v).unwrap().drop_first()),
            self.valid_value(self.cdr(v).unwrap()),
            self.valid_value(self.car(v).unwrap()),
    {
        let c = v->Pair_0;
        let cell = self.cons[c.index as int];
        let rest = self.elements(cell.cdr).unwrap();
        assert((seq![cell.car] + rest).drop_first() =~= rest);
    }

    /// What is left of a chain of pairs after `k` of them.
    pub open spec fn tail(self, v: Value, k: nat) -> Value
        decreases k,
    {
        if k == 0 {
            v
        } else {
            match self.cdr(v) {
                Some(t) => self.tail(t, (k - 1) as nat),
                None => v,
            }
        }
    }

    /// In a heap that is in order, what is left of a list after `k` of its
    /// elements is the list of the others, and where there are others, it is
    /// a pair whose car is the next one.
    pub proof fn lemma_tail(self, v: Value, k: nat)
        requires
            self.wf_cons(),
            self.valid_value(v),
            self.elements(v) is Some,
            k <= self.elements(v).unwrap().len(),
        ensures
            self.valid_value(self.tail(v, k)),
            self.tail(v, k).rank() <= v.rank(),
            k > 0 ==> self.tail(v, k).rank() < v.rank(),
            self.elements(self.tail(v, k)) == Some(
                self.elements(v).unwrap().subrange(k as int, self.elements(v).unwrap().len() as int),
            ),
            k < self.elements(v).unwrap().len() ==> self.tail(v, k) is Pair && self.car(
                self.tail(v, k),
            ) == Some(self.elements(v).unwrap()[k as int]) && self.valid_value(
                self.elements(v).unwrap()[k as int],
            ) && self.elements(v).unwrap()[k as int].rank() < v.rank(),
        decreases k,
    {
        let s = self.elements(v).unwrap();
        if k == 0 {
            assert(s.subrange(0, s.len() as int) =~= s);
            if s.len() > 0 {
                self.lemma_elements_parts(v);
            }
        } else {
            self.lemma_elements_parts(v);
            let t = self.cdr(v).unwrap();
            self.lemma_tail(t, (k - 1) as nat);
            assert(s.drop_first().subrange(k - 1, s.len() - 1) =~= s.subrange(
                k as int,
                s.len() as int,
            ));
        }
    }

    /// In a heap that is in order, a pair's car and cdr are values of the
    /// heap that rank below the pair.
    pub proof fn lemma_pair_parts(self, c: ConsPtr)
        requires
            self.wf_cons(),
            c.index < self.cons.len(),
        ensures
            self.valid_value(self.cons[c.index as int].car),
            self.valid_value(self.cons[c.index as int].cdr),
            self.cons[c.index as int].car.rank() <= c.index,
            self.cons[c.index as int].cdr.rank() <= c.index,
    {
    }
}

impl Value {
    /// Create a new cons pair value with the given car and cdr.
    pub fn new_pair(heap: &mut Heap, car: Value, cdr: Value) -> (v: Value)
        requires
            old(heap)@.inv(),
            old(heap)@.valid_value(car),
            old(heap)@.valid_value(cdr),
        ensures
            final(heap)@.inv(),
            final(heap)@ == old(heap)@.push_cons(Cons { car, cdr }),
            v == Value::Pair(ConsPtr { index: old(heap)@.cons.len() as usize }),
    {
        let cons = heap.allocate_cons();
        let ok = heap.set_cons(cons, car, cdr);
        assert(ok);
        assert(heap@.cons =~= old(heap)@.cons.push(Cons { car, cdr }));
        Value::Pair(cons)
    }

    /// Create a new procedure with the given parameter list and body, made
    /// in the given activation. It has no meaning to run: only evaluating a
    /// procedure literal makes a procedure that can be called.
    pub fn new_procedure(heap: &mut Heap, params: Value, body: Value, env: ActivationPtr) -> (v:
        Value)
        requires
            old(heap)@.inv(),
            old(heap)@.valid_value(params),
            old(heap)@.valid_value(body),
            old(heap)@.valid_activation(env),
        ensures
            final(heap)@.inv(),
            final(heap)@ == old(heap)@.push_procedure(Procedure { params, body, env }, None),
            v == Value::Procedure(ProcedurePtr { index: old(heap)@.procedures.len() as usize }),
    {
        let procedure = heap.allocate_procedure();
        let ok = heap.set_procedure(procedure, Procedure { params, body, env });
        assert(ok);
        assert(heap@.procedures =~= old(heap)@.procedures.push(Procedure { params, body, env }));
        Value::Procedure(procedure)
    }

    /// Create a new string value with the given string.
    pub fn new_string(heap: &mut Heap, str: String) -> (v: Value)
        requires
            old(heap)@.inv(),
        ensures
            final(heap)@.inv(),
            final(heap)@ == (HeapView {
                strings: old(heap)@.strings.push(str@),
                ..old(heap)@
            }),
            v == Value::String(StringPtr { index: old(heap)@.strings.len() as usize }),
    {
        let value = heap.allocate_string(str);
        Value::String(value)
    }

    /// Assuming this value is a cons pair, get its car value. Otherwise,
    /// return `None`.
    pub fn car(&self, heap: &Heap) -> (r: Option<Value>)
        requires
            heap@.valid_value(*self),
        ensures
            r == heap@.car(*self),
    {
        match *self {
            Value::Pair(cons) => Some(heap.cons(cons).car),
            _ => None,
        }
    }

    /// Assuming this value is a cons pair, get its cdr value. Otherwise,
    /// return `None`.
    pub fn cdr(&self, heap: &Heap) -> (r: Option<Value>)
        requires
            heap@.valid_value(*self),
        ensures
            r == heap@.cdr(*self),
    {
        match *self {
            Value::Pair(cons) => Some(heap.cons(cons).cdr),
            _ => None,
        }
    }

    /// Assuming that this value is a proper list, get the length of the
    /// list. An improper list has none.
    pub fn len(&self, heap: &Heap) -> (r: Result<u64, ()>)
        requires
            heap@.inv(),
            heap@.valid_value(*self),
        ensures
            match heap@.elements(*self) {
                Some(s) => r == Ok::<u64, ()>(s.len() as u64) && s.len() <= u64::MAX,
                None => r == Err::<u64, ()>(()),
            },
    {
        let mut cur = *self;
        let mut n: u64 = 0;
        loop
            invariant
                heap@.inv(),
                heap@.valid_value(cur),
                n + cur.rank() <= self.rank(),
                self.rank() <= usize::MAX,
                heap@.elements(*self) is Some <==> heap@.elements(cur) is Some,
                heap@.elements(*self) is Some ==> heap@.elements(*self).unwrap().len() == n
                    + heap@.elements(cur).unwrap().len(),
            decreases cur.rank(),
        {
            match cur {
                Value::Pair(c) => {
                    proof {
                        heap@.lemma_pair_parts(c);
                    }
                    cur = heap.cons(c).cdr;
                    n = n + 1;
                },
                Value::EmptyList => {
                    return Ok(n);
                },
                _ => {
                    return Err(());
                },
            }
        }
    }
}

/// A helper utility to create a cons list from the given values.
pub fn list(heap: &mut Heap, values: &[Value]) -> (v: Value)
    requires
        old(heap)@.inv(),
        forall|i: int| 0 <= i < values@.len() ==> old(heap)@.valid_value(#[trigger] values@[i]),
    ensures
        final(heap)@.inv(),
        final(heap)@ == old(heap)@.with_list(values@),
        v == old(heap)@.list_value(values@),
        final(heap)@.elements(v) == Some(values@),
{
    let n = values.len();
    let mut result = Value::EmptyList;
    let mut i: usize = n;
    let ghost start = heap@;
    proof {
        assert(heap@.cons =~= start.cons + start.list_cells(values@.subrange(n as int, n as int)));
        assert(values@.subrange(n as int, n as int) =~= Seq::<Value>::empty());
    }
    while i > 0
        invariant
            n == values@.len(),
            i <= n,
            start == old(heap)@,
            start.inv(),
            heap@.inv(),
            forall|k: int| 0 <= k < values@.len() ==> start.valid_value(#[trigger] values@[k]),
            heap@ == (HeapView {
                cons: start.cons + start.list_cells(values@).subrange(0, n - i),
                ..start
            }),
            result == start.list_value(values@.subrange(i as int, n as int)),
            heap@.valid_value(result),
            heap@.elements(result) == Some(values@.subrange(i as int, n as int)),
        decreases i,
    {
        let ghost before = heap@;
        let ghost old_result = result;
        let car = values[i - 1];
        result = Value::new_pair(heap, car, result);
        i = i - 1;
        proof {
            let cells = start.list_cells(values@);
            let k = n - i - 1;
            assert(cells[k] == Cons { car, cdr: old_result });
            assert(heap@.cons =~= start.cons + cells.subrange(0, n - i));
            before.lemma_elements_stable(heap@, old_result);
            assert(result == Value::Pair(ConsPtr { index: before.cons.len() as usize }));
            assert(heap@.cons[before.cons.len() as int] == Cons { car, cdr: old_result });
            assert(old_result.rank() < result.rank());
            assert(heap@.elements(result) == Some(
                seq![car] + values@.subrange(i as int + 1, n as int),
            ));
            assert(seq![car] + values@.subrange(i as int + 1, n as int) =~= values@.subrange(
                i as int,
                n as int,
            ));
        }
    }
    proof {
        assert(start.list_cells(values@).subrange(0, n as int) =~= start.list_cells(values@));
        assert(values@.subrange(0, n as int) =~= values@);
    }
    result
}

impl Cons {
    /// The tail after the first element of the list that hangs on this
    /// cell's cdr.
    pub fn cddr(&self, heap: &Heap) -> (r: Result<Value, Error>)
        requires
            heap@.inv(),
            heap@.valid_value(self.cdr),
        ensures
            r == (match heap@.cdr(self.cdr) {
                Some(v) => Ok::<Value, Error>(v),
                None => Err::<Value, Error>(Error::BadCddr),
            }),
            r is Ok ==> heap@.valid_value(r->Ok_0),
    {
        proof {
            if let Value::Pair(c) = self.cdr {
                heap@.lemma_pair_parts(c);
            }
        }
        match self.cdr.cdr(heap) {
            Some(v) => Ok(v),
            None => Err(Error::BadCddr),
        }
    }

    /// The tail after the second element of the list that hangs on this
    /// cell's cdr.
    pub fn cdddr(&self, heap: &Heap) -> (r: Result<Value, Error>)
        requires
            heap@.inv(),
            heap@.valid_value(self.cdr),
        ensures
            r == (match heap@.cdr(self.cdr) {
                Some(cddr) => match heap@.cdr(cddr) {
                    Some(v) => Ok::<Value, Error>(v),
                    None => Err::<Value, Error>(Error::BadCdddr),
                },
                None => Err::<Value, Error>(Error::BadCddr),
            }),
            r is Ok ==> heap@.valid_value(r->Ok_0),
    {
        let cddr = match self.cddr(heap) {
            Ok(v) => v,
            Err(e) => {
                return Err(e);
            },
        };
        proof {
            if let Value::Pair(c) = cddr {
                heap@.lemma_pair_parts(c);
            }
        }
        match cddr.cdr(heap) {
            Some(v) => Ok(v),
            None => Err(Error::BadCdddr),
        }
    }

    /// The first element of the list that hangs on this cell's cdr.
    pub fn cadr(&self, heap: &Heap) -> (r: Result<Value, Error>)
        requires
            heap@.inv(),
            heap@.valid_value(self.cdr),
        ensures
            r == (match heap@.car(self.cdr) {
                Some(v) => Ok::<Value, Error>(v),
                None => Err::<Value, Error>(Error::BadCadr),
            }),
            r is Ok ==> heap@.valid_value(r->Ok_0),
    {
        proof {
            if let Value::Pair(c) = self.cdr {
                heap@.lemma_pair_parts(c);
            }
        }
        match self.cdr.car(heap) {
            Some(v) => Ok(v),
            None => Err(Error::BadCadr),
        }
    }

    /// The second element of the list that hangs on this cell's cdr.
    pub fn caddr(&self, heap: &Heap) -> (r: Result<Value, Error>)
        requires
            heap@.inv(),
            heap@.valid_value(self.cdr),
        ensures
            r == (match heap@.cdr(self.cdr) {
                Some(cddr) => match heap@.car(cddr) {
                    Some(v) => Ok::<Value, Error>(v),
                    None => Err::<Value, Error>(Error::BadCaddr),
                },
                None => Err::<Value, Error>(Error::BadCddr),
            }),
            r is Ok ==> heap@.valid_value(r->Ok_0),
    {
        let cddr = match self.cddr(heap) {
            Ok(v) => v,
            Err(e) => {
                return Err(e);
            },
        };
        proof {
            if let Value::Pair(c) = cddr {
                heap@.lemma_pair_parts(c);
            }
        }
        match cddr.car(heap) {
            Some(v) => Ok(v),
            None => Err(Error::BadCaddr),
        }
    }

    /// The third element of the list that hangs on this cell's cdr.
    pub fn cadddr(&self, heap: &Heap) -> (r: Result<Value, Error>)
        requires
            heap@.inv(),
            heap@.valid_value(self.cdr),
        ensures
            r == (match heap@.cdr(self.cdr) {
                Some(cddr) => match heap@.cdr(cddr) {
                    Some(cdddr) => match heap@.car(cdddr) {
                        Some(v) => Ok::<Value, Error>(v),
                        None => Err::<Value, Error>(Error::BadCadddr),
                    },
                    None => Err::<Value, Error>(Error::BadCdddr),
                },
                None => Err::<Value, Error>(Error::BadCddr),
            }),
            r is Ok ==> heap@.valid_value(r->Ok_0),
    {
        let cdddr = match self.cdddr(heap) {
            Ok(v) => v,
            Err(e) => {
                return Err(e);
            },
        };
        proof {
            if let Value::Pair(c) = cdddr {
                heap@.lemma_pair_parts(c);
            }
        }
        match cdddr.car(heap) {
            Some(v) => Ok(v),
            None => Err(Error::BadCadddr),
        }
    }
}

} // verus!
