//! Arguments that only the methods of one object type take.

pub mod email;
pub mod mailbox;
