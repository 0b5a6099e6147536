//! The binding document: what is listened on, where it is forwarded to, and
//! the rules that come with each binding.

pub mod bindingset;
pub mod enforcer;
pub mod json_mappings;
pub mod packet;
