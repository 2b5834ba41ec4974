//! Servers: what the runtime reports of them, how they are listed, and how
//! a temporary one is run.

pub mod info;
pub mod ls;
pub mod pull;
pub mod tmp;
