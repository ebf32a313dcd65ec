//! Bodies: what can become one, and the optional payload of a message.

pub mod body;
pub mod body_util;
