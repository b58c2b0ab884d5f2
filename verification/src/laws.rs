//! What the parts promise together, stated of their inputs and results.

pub mod choices;
pub mod clipping;
pub mod conversion;
pub mod descriptions;
pub mod element_calls;
pub mod filter_calls;
pub mod negotiation;
pub mod playing;
pub mod queries;
pub mod seeking;
pub mod source;
pub mod texts;
pub mod timing;
pub mod tool_calls;
pub mod value_calls;
