//! A verified model of a ticketing contract: an organizer issues tickets for
//! events, owners list them for sale, buyers pay for them in a token (the
//! organizer and the platform take a percentage of every resale), and a ticket
//! is redeemed once at the door.

pub mod account;
pub mod ticket;
pub mod fees;
pub mod contract;
pub mod laws;
