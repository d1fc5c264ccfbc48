//! Worked examples: one assembles an instance tree by hand and runs the
//! default pipeline over it; the other registers schema metadata
//! explicitly and exercises extension composition.

pub mod auto;
pub mod manual;
