//! The agent: provider routing and the turn's stream of model output.

pub mod provider;
pub mod stream;

pub use self::provider::{route_provider, EngineConfig, ModelKind, ProviderRoute, RouteError};
pub use self::stream::{StreamEvent, StreamFold, StreamItem, StreamStep, TurnUsage};
