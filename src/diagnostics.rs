use crate::ident::Span;
use crate::type_engine::TypeInfo;
use vstd::prelude::*;

verus! {

/// A type that was found where another was declared.
#[derive(Clone, Copy, Debug, PartialEq, Eq, Structural)]
pub struct Diagnostic {
    pub span: Span,
    pub expected: TypeInfo,
    pub found: TypeInfo,
}

/// The marker that a pass hands back once it has emitted at least one
/// diagnostic; the details are in the handler.
#[derive(Clone, Copy, Debug, PartialEq, Eq, Structural)]
pub struct ErrorEmitted;

/// Collects the diagnostics of a compilation pass.
pub struct Handler {
    pub diagnostics: Vec<Diagnostic>,
}

impl Handler {
    pub fn new() -> (r: Handler)
        ensures
            r.diagnostics@.len() == 0,
    {
        Handler { diagnostics: Vec::new() }
    }

    pub fn emit_err(&mut self, d: Diagnostic) -> (r: ErrorEmitted)
        ensures
            final(self).diagnostics@ == old(self).diagnostics@.push(d),
    {
        self.diagnostics.push(d);
        ErrorEmitted
    }

    pub fn len(&self) -> (r: usize)
        ensures
            r == self.diagnostics@.len(),
    {
        self.diagnostics.len()
    }
}

} // verus!
