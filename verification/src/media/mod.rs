//! Media layer: provider independent stream resolution.

pub mod cache;
pub mod circuit;
pub mod expiration;
pub mod failure;
pub mod policy;
pub mod provider;
pub mod registry;
pub mod resolver;
pub mod router;

pub use cache::{MemoryResolutionCache, TierStep, TwoTierCache};
pub use circuit::{CircuitBreaker, CircuitConfig, CircuitState};
pub use expiration::{ExpirationManager, SweepReport};
pub use failure::{FailureCategory, ResolutionError};
pub use policy::{FailurePolicy, PolicyAction};
pub use provider::{ProviderDescriptor, ResolveContext};
pub use registry::StreamRegistry;
pub use router::ProviderSnapshot;
