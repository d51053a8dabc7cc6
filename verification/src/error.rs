use vstd::prelude::*;

verus! {

/// The errors of the library.
#[derive(Clone, Debug)]
pub enum AshkorixError {
    Config(String),
    Model(String),
    Import(String),
    Index(String),
    Retrieval(String),
    Cancelled,
    Extension(String),
    Other(String),
}

} // verus!
