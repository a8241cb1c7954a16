use crate::ast::Expression;
use std::collections::HashMap;
use vstd::prelude::*;

verus! {

/// A store of named values. Evaluation does not consult it yet.
pub struct Environment {
    values: HashMap<String, Expression>,
}

impl Environment {
    /// The bindings held, by name.
    pub closed spec fn bindings(&self) -> Map<String, Expression> {
        self.values@
    }

    pub fn new() -> (r: Environment)
        ensures
            r.bindings() == Map::<String, Expression>::empty(),
    {
        Environment { values: HashMap::new() }
    }
}

} // verus!
