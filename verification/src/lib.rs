//! Correlates delegated sub-task invocations that appear inside a streamed,
//! line-oriented protocol: detects delegation-start and delegation-complete
//! events, tracks each delegation's lifecycle in a registry, and produces
//! the lifecycle events that consumers subscribe to.

pub mod engine;
pub mod events;
pub mod json;
pub mod registry;
pub mod strutil;
pub mod supervisor;

pub use engine::monitor_for_subagents;
pub use events::SubAgentEvent;
pub use registry::{SubAgentInfo, SubAgentRegistry};
pub use strutil::composite_id;
pub use supervisor::OutputSupervisor;
