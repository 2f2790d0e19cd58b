//! Core of a live, turn-based collaboration service: a session registry that
//! pairs two independently arriving connections (a conductor and an attendee)
//! into one session, the signal channels that relay patches between them, and
//! the wire codec for the messages that cross the connection.

pub mod access;
pub mod channel;
pub mod codec;
pub mod compilation;
pub mod conduction;
pub mod laws;
pub mod locale;
pub mod messages;
pub mod pump;
pub mod zerra;
