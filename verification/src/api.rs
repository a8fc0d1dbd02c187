//! What the request handlers decide: which command a request becomes, and
//! which response an outcome becomes.

pub mod embedding;
pub mod model;
