//! The errors in words.

use vstd::prelude::*;
use crate::heap::{Heap, HeapView};
use crate::meaning::Error;
use crate::value::StringPtr;

verus! {

/// `String::push_str` of the standard library appends the given string
/// slice onto the end of the string: afterwards the string holds the
/// characters that it held, followed by those of the slice.
pub assume_specification[ std::string::String::push_str ](
    s: &mut std::string::String,
    string: &str,
)
    ensures
        final(s)@ == old(s)@ + string@,
;

impl HeapView {
    /// The characters of the string behind the handle, or none where the
    /// heap has no such string.
    pub open spec fn name_of(self, p: StringPtr) -> Seq<char> {
        if p.index < self.strings.len() {
            self.strings[p.index as int]
        } else {
            Seq::empty()
        }
    }
}

impl Error {
    /// The words for the error, without the name that some end in.
    pub open spec fn words(self) -> Seq<char> {
        match self {
            Error::UnknownVariable(_) => "Static error: reference to unknown variable: "@,
            Error::CannotEvaluate => "Static error: Cannot evaluate: ()"@,
            Error::MalformedQuote => "Static error: Wrong number of parts in quoted form"@,
            Error::MalformedDefinition => "Static error: improperly formed definition"@,
            Error::DefineNonSymbol => "Static error: can only define symbols"@,
            Error::MalformedSet => "Static error: improperly formed set! expression"@,
            Error::SetNonSymbol => "Static error: can only set! symbols"@,
            Error::SetUndefined(_) => "Static error: cannot set! undefined variable: "@,
            Error::MalformedConditional => "Static error: improperly formed if expression"@,
            Error::MalformedSequence => "Static error: improperly formed sequence"@,
            Error::MalformedLambda => "Static error: improperly formed lambda expression"@,
            Error::BadParameterList => "Static error: can only use symbols as parameters"@,
            Error::MalformedInvocation => "Static error: improperly formed invocation"@,
            Error::EnvironmentFull => "Static error: too many variables or scopes"@,
            Error::NotAProcedure => "Runtime error: cannot invoke what is not a procedure"@,
            Error::WrongArgumentCount => "Runtime error: wrong number of arguments"@,
            Error::NoProcedureBody => "Runtime error: procedure without a body"@,
            Error::StepLimit => "Runtime error: step limit reached"@,
            Error::DepthLimit => "Runtime error: depth limit reached"@,
            Error::BadCadr => "bad cadr"@,
            Error::BadCddr => "bad cddr"@,
            Error::BadCaddr => "bad caddr"@,
            Error::BadCdddr => "bad cdddr"@,
            Error::BadCadddr => "bad cadddr"@,
        }
    }

    /// The error in words: its words, and the name of the variable where
    /// the error is about one.
    pub open spec fn message_spec(self, h: HeapView) -> Seq<char> {
        match self {
            Error::UnknownVariable(name) => self.words() + h.name_of(name),
            Error::SetUndefined(name) => self.words() + h.name_of(name),
            _ => self.words(),
        }
    }

    fn words_of(&self) -> (s: &'static str)
        ensures
            s@ == self.words(),
    {
        match self {
            Error::UnknownVariable(_) => "Static error: reference to unknown variable: ",
            Error::CannotEvaluate => "Static error: Cannot evaluate: ()",
            Error::MalformedQuote => "Static error: Wrong number of parts in quoted form",
            Error::MalformedDefinition => "Static error: improperly formed definition",
            Error::DefineNonSymbol => "Static error: can only define symbols",
            Error::MalformedSet => "Static error: improperly formed set! expression",
            Error::SetNonSymbol => "Static error: can only set! symbols",
            Error::SetUndefined(_) => "Static error: cannot set! undefined variable: ",
            Error::MalformedConditional => "Static error: improperly formed if expression",
            Error::MalformedSequence => "Static error: improperly formed sequence",
            Error::MalformedLambda => "Static error: improperly formed lambda expression",
            Error::BadParameterList => "Static error: can only use symbols as parameters",
            Error::MalformedInvocation => "Static error: improperly formed invocation",
            Error::EnvironmentFull => "Static error: too many variables or scopes",
            Error::NotAProcedure => "Runtime error: cannot invoke what is not a procedure",
            Error::WrongArgumentCount => "Runtime error: wrong number of arguments",
            Error::NoProcedureBody => "Runtime error: procedure without a body",
            Error::StepLimit => "Runtime error: step limit reached",
            Error::DepthLimit => "Runtime error: depth limit reached",
            Error::BadCadr => "bad cadr",
            Error::BadCddr => "bad cddr",
            Error::BadCaddr => "bad caddr",
            Error::BadCdddr => "bad cdddr",
            Error::BadCadddr => "bad cadddr",
        }
    }

    /// The error in words.
    pub fn message(&self, heap: &Heap) -> (s: String)
        ensures
            s@ == self.message_spec(heap@),
    {
        let mut s = self.words_of().to_owned();
        match self {
            Error::UnknownVariable(name) => {
                if heap.has_string(*name) {
                    s.push_str(heap.string(*name).as_str());
                } else {
                    assert(s@ + Seq::<char>::empty() =~= s@);
                }
            },
            Error::SetUndefined(name) => {
                if heap.has_string(*name) {
                    s.push_str(heap.string(*name).as_str());
                } else {
                    assert(s@ + Seq::<char>::empty() =~= s@);
                }
            },
            _ => {},
        }
        s
    }

    /// Whether analysis reports this error.
    pub fn is_static_error(&self) -> (b: bool)
        ensures
            b == self.is_static(),
    {
        match self {
            Error::UnknownVariable(_) => true,
            Error::CannotEvaluate => true,
            Error::MalformedQuote => true,
            Error::MalformedDefinition => true,
            Error::DefineNonSymbol => true,
            Error::MalformedSet => true,
            Error::SetNonSymbol => true,
            Error::SetUndefined(_) => true,
            Error::MalformedConditional => true,
            Error::MalformedSequence => true,
            Error::MalformedLambda => true,
            Error::BadParameterList => true,
            Error::MalformedInvocation => true,
            Error::EnvironmentFull => true,
            _ => false,
        }
    }

    /// Whether evaluation reports this error.
    pub fn is_runtime_error(&self) -> (b: bool)
        ensures
            b == self.is_runtime(),
    {
        match self {
            Error::NotAProcedure => true,
            Error::WrongArgumentCount => true,
            Error::NoProcedureBody => true,
            Error::StepLimit => true,
            Error::DepthLimit => true,
            _ => false,
        }
    }
}

} // verus!
