//! Values the pages share through their context.
use vstd::prelude::*;

verus! {

/// A context value that carries an identifier.
#[derive(Debug, Default, Clone)]
pub struct DummyContext {
    pub uuid: u64,
}

} // verus!
