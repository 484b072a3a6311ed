//! Sans-I/O core of the R²/KAD routing protocol of KIRA: bookkeeping data structures
//! for backoffs, in-flight requests and the underlay vicinity, and the decision logic
//! of the protocol's use cases.

pub mod domain;
pub mod format;
pub mod random;
pub mod underlay;
pub mod use_cases;
pub mod utils;
