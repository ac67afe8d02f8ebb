//! What holds of the transformer's output for every input, proved of the
//! model that the executable code is verified against.

pub mod marks;
pub mod numbering;
pub mod order;
pub mod plain;
pub mod squeeze;
