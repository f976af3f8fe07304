//! A typestate builder generator for operation schemas.
//!
//! An operation schema lists the results, operands, regions, successors and
//! attributes of one operation, each with a cardinality. From it this crate
//! derives the definition of a builder family: one type-state coordinate per
//! required field, a transition method per required field, a state-preserving
//! method per optional or variadic field, and a `build` method available only
//! once every required field is set. The definitions come with proofs of the
//! protocol they encode, and with a runtime model of the generated code.
use vstd::prelude::*;

pub mod schema;
pub mod type_state;
pub mod builder;
pub mod protocol;
pub mod operation;
pub mod accessor;
pub mod generation;
