//! Semantic analysis: the resolution of variables, then that of labels and
//! loops, with one counter for the names that both mint.

use vstd::prelude::*;
use crate::ast::{Function, FunctionView, Program, checked_items, items_size};
use crate::label_resolution::{LabelResolver, items_loops, label_program};
use crate::var_resolution::{VarResolver, items_declarations, lemma_items_keep, resolve_program};
use crate::Error;

verus! {

/// Why a program that parses is not a valid program.
#[derive(Debug, Clone, Copy, PartialEq, Eq, Structural)]
pub enum ResolveError {
    /// A variable is declared twice in one scope.
    DuplicateDeclaration,
    /// A variable is used that no declaration in scope introduces.
    UndeclaredVariable,
    /// Something other than a variable is assigned to, incremented or
    /// decremented.
    InvalidLValue,
    /// A `goto` names a label that the function does not declare.
    UndefinedLabel,
    /// A label is declared twice in the function.
    DuplicateLabel,
    /// A `break` or a `continue` stands outside of any loop.
    InvalidBreakOrContinue,
}

/// The name of a kind of error, as it is written in messages.
pub open spec fn resolve_error_name(error: ResolveError) -> Seq<char> {
    match error {
        ResolveError::DuplicateDeclaration => "DuplicateDeclaration"@,
        ResolveError::UndeclaredVariable => "UndeclaredVariable"@,
        ResolveError::InvalidLValue => "InvalidLValue"@,
        ResolveError::UndefinedLabel => "UndefinedLabel"@,
        ResolveError::DuplicateLabel => "DuplicateLabel"@,
        ResolveError::InvalidBreakOrContinue => "InvalidBreakOrContinue"@,
    }
}

impl ResolveError {
    /// The name of this kind of error, as it is written in messages.
    pub fn name(&self) -> (name: &'static str)
        ensures
            name@ == resolve_error_name(*self),
    {
        match self {
            ResolveError::DuplicateDeclaration => "DuplicateDeclaration",
            ResolveError::UndeclaredVariable => "UndeclaredVariable",
            ResolveError::InvalidLValue => "InvalidLValue",
            ResolveError::UndefinedLabel => "UndefinedLabel",
            ResolveError::DuplicateLabel => "DuplicateLabel",
            ResolveError::InvalidBreakOrContinue => "InvalidBreakOrContinue",
        }
    }
}

/// A program after semantic analysis: its variables resolved, with names
/// minted from `counter` on, and then its loops and labels resolved, with
/// labels minted from where the variables stopped.
pub open spec fn analyze_program(program: FunctionView, counter: nat) -> Result<
    FunctionView,
    ResolveError,
> {
    match resolve_program(program, counter) {
        Err(error) => Err(error),
        Ok(resolved) => label_program(resolved, counter + items_declarations(program.body, 0)),
    }
}

/// The number of names that the semantic analysis of a program mints: one
/// for each declaration and one for each loop.
pub open spec fn analysis_names(program: FunctionView) -> nat {
    items_declarations(program.body, 0) + items_loops(program.body, 0)
}

/// Semantic analysis: the two resolution passes, one after the other. It
/// holds the counter from which both mint their names.
pub struct Resolver {
    pub counter: usize,
}

impl Resolver {
    /// A resolver that mints its first name from `counter`.
    pub fn new(counter: usize) -> (resolver: Self)
        ensures
            resolver.counter == counter,
    {
        Self { counter }
    }

    /// Resolves the variables of the program, then its labels and loops. On
    /// an error the program and the resolver are left as they were.
    pub fn resolve_program(&mut self, program: &mut Program<'_>) -> (result: Result<(), Error>)
        requires
            old(self).counter + analysis_names(old(program)@) <= usize::MAX,
        ensures
            match analyze_program(old(program)@, old(self).counter as nat) {
                Ok(analyzed) => {
                    &&& result is Ok
                    &&& final(program)@ == analyzed
                    &&& final(self).counter == old(self).counter + analysis_names(old(program)@)
                    &&& checked_items(analyzed.body, true)
                    &&& items_size(analyzed.body, 0) == items_size(old(program)@.body, 0)
                },
                Err(error) => {
                    &&& result == Err::<(), Error>(Error::Resolver(error))
                    &&& *final(program) == *old(program)
                    &&& *final(self) == *old(self)
                },
            },
    {
        proof {
            if resolve_program(program@, self.counter as nat) is Ok {
                lemma_items_keep(program@.body, 0, Map::empty(), self.counter as nat);
            }
        }
        match program {
            Program::Function(function) => {
                let mut variables = VarResolver::new(self.counter);
                let body = match variables.resolve_fun(function) {
                    Ok(body) => body,
                    Err(error) => {
                        return Err(Error::Resolver(error));
                    },
                };
                let resolved = Function { name: function.name, body };
                let mut labels = LabelResolver::new(variables.counter);
                let body = match labels.resolve_fun(&resolved) {
                    Ok(body) => body,
                    Err(error) => {
                        return Err(Error::Resolver(error));
                    },
                };
                function.body = body;
                self.counter = labels.counter;
                Ok(())
            },
        }
    }
}

} // verus!
