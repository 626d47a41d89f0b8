//! Verified core of the SourcePawn tooling: parsing of `spcomp` compiler
//! diagnostics, construction of the `spcomp` command line, and the
//! type references of the HIR.

mod chars;
pub mod diagnostic_line;
pub mod spcomp;
pub mod type_ref;
