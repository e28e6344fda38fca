//! What the dispatcher decides before and after it touches a file.

pub mod factors;
