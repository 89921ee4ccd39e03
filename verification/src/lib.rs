//! Host-side logic that connects a Bevy application with the Neon3 declarative
//! UI services.
//!
//! The crate holds the decisions of the integration: which requests the host
//! sends, how it reads the replies, how pending values are kept and how image
//! and pointer data cross the process boundary. It owns no window, no socket
//! and no GPU object.

pub mod dx12_consumer;
pub mod events;
pub mod flow;
pub mod frames;
pub mod gpu_readback;
pub mod image;
pub mod input_map;
pub mod inputs;
pub mod intents;
pub mod json;
pub mod order;
pub mod pointer;
pub mod queue;
pub mod request;
pub mod responses;
pub mod revision;
pub mod scalar;
pub mod session;
pub mod startup;
pub mod surface;
pub mod text;
pub mod transport;
pub mod ui;
pub mod upload;
pub mod world;
