//! What a run does with a batch: build the requests, create tier by tier,
//! or only validate.

pub mod create;
pub mod hints;
pub mod requests;
pub mod validate;
