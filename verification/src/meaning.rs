//! Meanings: what analysis makes of a form, ready to be run any number of
//! times.

use vstd::prelude::*;
use crate::value::{StringPtr, Value};

verus! {

/// Why analysis or evaluation of a form failed.
///
/// The static errors come from analysis, before anything runs. The runtime
/// errors come from running a meaning.
#[derive(Clone, Copy, Debug, PartialEq, Eq, Structural, Hash)]
pub enum Error {
    /// Static: reference to a variable that no scope defines.
    UnknownVariable(StringPtr),
    /// Static: the empty list is not a form.
    CannotEvaluate,
    /// Static: `quote` takes one part.
    MalformedQuote,
    /// Static: `define` takes a name and a value.
    MalformedDefinition,
    /// Static: only symbols can be defined.
    DefineNonSymbol,
    /// Static: `set!` takes a name and a value.
    MalformedSet,
    /// Static: only symbols can be assigned.
    SetNonSymbol,
    /// Static: `set!` of a variable that no scope defines.
    SetUndefined(StringPtr),
    /// Static: `if` takes a condition, a consequent and an alternative.
    MalformedConditional,
    /// Static: a sequence is a proper list of one form or more.
    MalformedSequence,
    /// Static: `lambda` takes a parameter list and a body of one form or more.
    MalformedLambda,
    /// Static: a parameter list is a list of symbols, which may end in a
    /// symbol in place of the empty list.
    BadParameterList,
    /// Static: an invocation is a proper list.
    MalformedInvocation,
    /// Static: the scope has no room for another variable, or the scopes
    /// are nested too deep for an address.
    EnvironmentFull,
    /// Runtime: the operator of an invocation is no procedure.
    NotAProcedure,
    /// Runtime: the operands do not fit the procedure's parameters.
    WrongArgumentCount,
    /// Runtime: the procedure was allocated by hand and has no meaning to run.
    NoProcedureBody,
    /// Runtime: a run was out of fuel before it came to a value.
    StepLimit,
    /// Runtime: runs nested deeper than the depth allows.
    DepthLimit,
    /// A list has no second element.
    BadCadr,
    /// A list has no tail after its first element.
    BadCddr,
    /// A list has no third element.
    BadCaddr,
    /// A list has no tail after its second element.
    BadCdddr,
    /// A list has no fourth element.
    BadCadddr,
}

impl Error {
    /// Whether analysis reports this error.
    pub open spec fn is_static(self) -> bool {
        match self {
            Error::UnknownVariable(_) => true,
            Error::CannotEvaluate => true,
            Error::MalformedQuote => true,
            Error::MalformedDefinition => true,
            Error::DefineNonSymbol => true,
            Error::MalformedSet => true,
            Error::SetNonSymbol => true,
            Error::SetUndefined(_) => true,
            Error::MalformedConditional => true,
            Error::MalformedSequence => true,
            Error::MalformedLambda => true,
            Error::BadParameterList => true,
            Error::MalformedInvocation => true,
            Error::EnvironmentFull => true,
            _ => false,
        }
    }

    /// Whether evaluation reports this error.
    pub open spec fn is_runtime(self) -> bool {
        match self {
            Error::NotAProcedure => true,
            Error::WrongArgumentCount => true,
            Error::NoProcedureBody => true,
            Error::StepLimit => true,
            Error::DepthLimit => true,
            _ => false,
        }
    }
}

/// What analysis makes of a form. The lexical addresses in it were resolved
/// once, against the scopes that the form stood in.
#[derive(Debug, PartialEq, Eq)]
pub enum Meaning {
    /// The value itself.
    Quotation(Value),
    /// The variable at a lexical address: scopes up, then the slot.
    Reference(u32, u32),
    /// Store what the meaning gives at a lexical address.
    SetVariable(u32, u32, Box<Meaning>),
    /// Condition, consequent, alternative.
    Conditional(Box<Meaning>, Box<Meaning>, Box<Meaning>),
    /// The first for its effect, then the second for its value.
    Sequence(Box<Meaning>, Box<Meaning>),
    /// A procedure literal: its parameter list and body forms, and what the
    /// body means in the scope of the parameters.
    Lambda { params: Value, body: Value, code: Box<Meaning> },
    /// Operator and operands.
    Invocation(Box<Meaning>, Box<Operands>),
}

/// The operands of an invocation, first to last.
#[derive(Debug, PartialEq, Eq)]
pub enum Operands {
    Empty,
    More(Box<Meaning>, Box<Operands>),
}

/// One step of evaluation gives a value, or the meaning to go on with.
#[derive(Debug, PartialEq, Eq)]
pub enum Trampoline {
    Value(Value),
    Thunk(Meaning),
}

impl Clone for Meaning {
    fn clone(&self) -> (r: Self)
        ensures
            r == *self,
        decreases self,
    {
        match self {
            Meaning::Quotation(v) => Meaning::Quotation(*v),
            Meaning::Reference(i, j) => Meaning::Reference(*i, *j),
            Meaning::SetVariable(i, j, m) => Meaning::SetVariable(*i, *j, Box::new((&**m).clone())),
            Meaning::Conditional(c, t, e) => Meaning::Conditional(
                Box::new((&**c).clone()),
                Box::new((&**t).clone()),
                Box::new((&**e).clone()),
            ),
            Meaning::Sequence(a, b) => Meaning::Sequence(
                Box::new((&**a).clone()),
                Box::new((&**b).clone()),
            ),
            Meaning::Lambda { params, body, code } => Meaning::Lambda {
                params: *params,
                body: *body,
                code: Box::new((&**code).clone()),
            },
            Meaning::Invocation(f, ops) => Meaning::Invocation(
                Box::new((&**f).clone()),
                Box::new((&**ops).clone()),
            ),
        }
    }
}

impl Clone for Operands {
    fn clone(&self) -> (r: Self)
        ensures
            r == *self,
        decreases self,
    {
        match self {
            Operands::Empty => Operands::Empty,
            Operands::More(m, rest) => Operands::More(
                Box::new((&**m).clone()),
                Box::new((&**rest).clone()),
            ),
        }
    }
}

impl Meaning {
    /// Every address in the meaning goes up fewer than `depth` scopes, where
    /// each procedure literal on the way down adds a scope.
    pub open spec fn closed(self, depth: nat) -> bool
        decreases self,
    {
        match self {
            Meaning::Quotation(_) => true,
            Meaning::Reference(i, _) => i < depth,
            Meaning::SetVariable(i, _, m) => i < depth && m.closed(depth),
            Meaning::Conditional(c, t, e) => c.closed(depth) && t.closed(depth) && e.closed(depth),
            Meaning::Sequence(a, b) => a.closed(depth) && b.closed(depth),
            Meaning::Lambda { code, .. } => code.closed(depth + 1),
            Meaning::Invocation(f, ops) => f.closed(depth) && ops.closed(depth),
        }
    }

    /// Every value in the meaning has its handle below the given counts of
    /// cons cells, strings and procedures.
    pub open spec fn within(self, cons: nat, strings: nat, procedures: nat) -> bool
        decreases self,
    {
        match self {
            Meaning::Quotation(v) => v.within(cons, strings, procedures),
            Meaning::Reference(_, _) => true,
            Meaning::SetVariable(_, _, m) => m.within(cons, strings, procedures),
            Meaning::Conditional(c, t, e) => c.within(cons, strings, procedures) && t.within(
                cons,
                strings,
                procedures,
            ) && e.within(cons, strings, procedures),
            Meaning::Sequence(a, b) => a.within(cons, strings, procedures) && b.within(
                cons,
                strings,
                procedures,
            ),
            Meaning::Lambda { params, body, code } => params.within(cons, strings, procedures)
                && body.within(cons, strings, procedures) && code.within(cons, strings, procedures),
            Meaning::Invocation(f, ops) => f.within(cons, strings, procedures) && ops.within(
                cons,
                strings,
                procedures,
            ),
        }
    }

    /// Handles below some counts are below larger counts.
    pub proof fn lemma_within_grows(self, c1: nat, s1: nat, p1: nat, c2: nat, s2: nat, p2: nat)
        requires
            self.within(c1, s1, p1),
            c1 <= c2,
            s1 <= s2,
            p1 <= p2,
        ensures
            self.within(c2, s2, p2),
        decreases self,
    {
        match self {
            Meaning::Quotation(_) => {},
            Meaning::Reference(_, _) => {},
            Meaning::SetVariable(_, _, m) => {
                m.lemma_within_grows(c1, s1, p1, c2, s2, p2);
            },
            Meaning::Conditional(c, t, e) => {
                c.lemma_within_grows(c1, s1, p1, c2, s2, p2);
                t.lemma_within_grows(c1, s1, p1, c2, s2, p2);
                e.lemma_within_grows(c1, s1, p1, c2, s2, p2);
            },
            Meaning::Sequence(a, b) => {
                a.lemma_within_grows(c1, s1, p1, c2, s2, p2);
                b.lemma_within_grows(c1, s1, p1, c2, s2, p2);
            },
            Meaning::Lambda { code, .. } => {
                code.lemma_within_grows(c1, s1, p1, c2, s2, p2);
            },
            Meaning::Invocation(f, ops) => {
                f.lemma_within_grows(c1, s1, p1, c2, s2, p2);
                ops.lemma_within_grows(c1, s1, p1, c2, s2, p2);
            },
        }
    }
}

impl Operands {
    /// Every operand is closed at the depth.
    pub open spec fn closed(self, depth: nat) -> bool
        decreases self,
    {
        match self {
            Operands::Empty => true,
            Operands::More(m, rest) => m.closed(depth) && rest.closed(depth),
        }
    }

    /// Every operand is within the counts.
    pub open spec fn within(self, cons: nat, strings: nat, procedures: nat) -> bool
        decreases self,
    {
        match self {
            Operands::Empty => true,
            Operands::More(m, rest) => m.within(cons, strings, procedures) && rest.within(
                cons,
                strings,
                procedures,
            ),
        }
    }

    /// How many operands there are.
    pub open spec fn count(self) -> nat
        decreases self,
    {
        match self {
            Operands::Empty => 0,
            Operands::More(_, rest) => 1 + rest.count(),
        }
    }

    /// Handles below some counts are below larger counts.
    pub proof fn lemma_within_grows(self, c1: nat, s1: nat, p1: nat, c2: nat, s2: nat, p2: nat)
        requires
            self.within(c1, s1, p1),
            c1 <= c2,
            s1 <= s2,
            p1 <= p2,
        ensures
            self.within(c2, s2, p2),
        decreases self,
    {
        match self {
            Operands::Empty => {},
            Operands::More(m, rest) => {
                m.lemma_within_grows(c1, s1, p1, c2, s2, p2);
                rest.lemma_within_grows(c1, s1, p1, c2, s2, p2);
            },
        }
    }
}

} // verus!
