//! A compiled-rule matching engine for detection rules over security event
//! records: a rule declares named boolean selectors over event fields, a
//! condition expression combining those selectors, and an optional
//! aggregation clause; events are matched against the compiled rule with a
//! per-event memoised evaluation context.

pub mod strings;
pub mod table;
pub mod field;
pub mod rule;
pub mod urule;
