//! Process execution handles with captured output, and the decision logic of
//! the elements and picker that show them: each verified against its contract.

pub mod element;
pub mod handle;
pub mod output;
pub mod picker;
pub mod status;
