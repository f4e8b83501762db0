//! What the operations of the library are for, as laws over what goes into them
//! and what comes out.

pub mod basics;
pub mod layout;
pub mod reading;
pub mod sending;
pub mod batching;
pub mod replies;
pub mod connection;
