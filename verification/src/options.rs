use vstd::prelude::*;

verus! {

/// Configuration of the conversion.
#[derive(Debug, Clone, Copy, PartialEq, Eq, Structural)]
pub struct TypeScriptOptions {
    /// Drop interface fields whose lowered form is an `Unsupported`
    /// placeholder, rather than storing the placeholder.
    pub ignore_unimplemented: bool,
}

impl Default for TypeScriptOptions {
    /// By default unsupported fields are dropped.
    fn default() -> (r: Self)
        ensures
            r.ignore_unimplemented == true,
    {
        TypeScriptOptions { ignore_unimplemented: true }
    }
}

} // verus!
