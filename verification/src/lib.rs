//! The context of a node that takes part in an asynchronous multi-party computation: what a node
//! derives from its configuration before it starts, and how its event loop reacts to what its
//! network and the protocols beneath it deliver.
pub mod address;
pub mod context;
pub mod node;
pub mod params;
mod peers;
pub mod run;
