//! Local-network peer discovery: the rules by which an instance advertises
//! itself over multicast DNS and turns resolution events into peer addresses.

pub mod address;
pub mod advertiser;
pub mod descriptor;
pub mod discoverer;
pub mod event;
pub mod fault;
pub mod numeral;
