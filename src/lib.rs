//! A transparent UDP reverse proxy core for Bedrock (MCPE) discovery traffic:
//! the discovery packet codec, the client routing table, and the lifecycle
//! and shutdown decisions of the proxy's tasks.

pub mod actor;
pub mod api;
pub mod client;
pub mod lifecycle;
pub mod wire;
pub mod ping;
pub mod pong;
pub mod router;
pub mod task;

pub use api::{unknown_error, ActorError, ClientError, PhantomError, PhantomOpts};
