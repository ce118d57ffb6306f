//! What the library needs to know of a model.

use vstd::prelude::*;

verus! {

/// A model and where it is served.
#[derive(Debug, PartialEq, Eq)]
pub struct Model {
    pub id: String,
    pub name: String,
    /// The API that it speaks.
    pub api: String,
    pub provider: String,
    /// The tokens that fit into one context; 0 where that is not known.
    pub context_window: u32,
}

impl Clone for Model {
    fn clone(&self) -> (r: Model)
        ensures
            r == *self,
    {
        Model {
            id: self.id.clone(),
            name: self.name.clone(),
            api: self.api.clone(),
            provider: self.provider.clone(),
            context_window: self.context_window,
        }
    }
}

} // verus!
