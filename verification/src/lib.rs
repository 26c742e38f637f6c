//! Feed synchronisation and read-state bookkeeping for a feed reader.
//!
//! A channel is a subscribed feed source with a derived count of unread
//! entries. Refreshing a channel takes the fetched and parsed document
//! through normalisation and an insert-or-ignore write per entry, then
//! recomputes the channel's unread count from the stored rows. Toggling
//! an entry flips its read flag and recomputes the count of its channel.
//!
//! The decisions of both operations are state machines that never touch
//! the network, the feed parser or a database themselves ([`sync`]); an
//! in-memory relational store ([`store`]) gives the store actions their
//! meaning, and the operations in [`service`] run the machines against
//! it.
pub mod error;
pub mod laws;
pub mod model;
pub mod normalize;
pub mod service;
pub mod store;
pub mod sync;
