//! Client-side logic for a toll-road debt service: the JSON bodies of its
//! check and pay requests, the parsing of its responses, the exact-decimal
//! payment amount derived from a debt total, and the decisions the workflow
//! takes at each step.

pub mod decimal;
pub mod errors;
pub mod json;
pub mod model;
pub mod parser;
pub mod protocol;
pub mod strconv;
