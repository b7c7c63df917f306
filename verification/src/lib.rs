//! A two-asset automated market maker priced by the constant-product rule.
//!
//! The pool holds one record: two asset identifiers, the reserve held of
//! each, and the product of the two reserves. A trade adds to one reserve and
//! pays out of the other so that the product never grows. Everything that
//! moves value (ledgers, authorization, storage) is the host's business: the
//! host asks this library what to move, moves it, and reports back.

pub mod error;
pub mod pricing;
pub mod ledger;
pub mod state;
pub mod contract;
pub mod laws;
