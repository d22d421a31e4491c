//! The core of a tool that shares files and folders over a peer-to-peer,
//! content-addressed network and fetches them again by ticket.
//!
//! The library holds the rules and the state machines of the two transfers,
//! of the timer, of the worker's dispatch and of the state behind the
//! interface. It touches neither the file system nor the network: whoever
//! holds those reports what happened and is told what to do next.

pub mod collection;
pub mod comms;
pub mod error;
pub mod export;
pub mod fetch;
pub mod offer;
pub mod paths;
pub mod progress;
pub mod sizes;
pub mod tags;
pub mod text;
pub mod ticket;
pub mod timer;
pub mod ui;
pub mod worker;
