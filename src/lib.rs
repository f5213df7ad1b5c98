//! Transaction layer, dialog layer and timer service of a SIP user agent.
pub mod auth;
pub mod codec;
pub mod dialog;
pub mod error;
pub mod invitation;
pub mod message;
pub mod registration;
pub mod timer;
pub mod transaction;
