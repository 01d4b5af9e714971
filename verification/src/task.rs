//! A unit of work handed to the engine.
use vstd::prelude::*;

use crate::text::owned;

verus! {

#[derive(Clone)]
pub struct Task {
    pub id: String,
    pub prompt: String,
}

impl Task {
    pub fn new(id: &str, prompt: &str) -> (t: Self)
        ensures
            t.id@ == id@,
            t.prompt@ == prompt@,
    {
        Task { id: owned(id), prompt: owned(prompt) }
    }
}

} // verus!
