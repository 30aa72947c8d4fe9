//! Optional arguments as method chains.
//!
//! Given a function or method whose parameters may carry a default, the
//! library lays out a builder type, a constructor that takes the required
//! parameters, one setter for each optional parameter and a terminal
//! operation that fills in the defaults and calls the annotated function,
//! which is kept under another name.

pub mod arguments;
pub mod builder;
pub mod chain;
pub mod doc;
pub mod error;
pub mod generics;
pub mod reading;
pub mod receiver;
pub mod seqs;
pub mod signature;
pub mod syntax;
