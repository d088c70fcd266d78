//! Auxiliary model enums: AI-model kinds, health states, user roles and the
//! configurable load-balancing tags.

use vstd::prelude::*;

verus! {

/// Kind of AI model a provider key serves.
#[derive(Clone, Debug, PartialEq, Eq, Hash)]
pub enum ModelType {
    ChatCompletion,
    TextCompletion,
    Embedding,
    ImageGeneration,
    AudioTranscription,
    Other(String),
}

/// Outcome classes of a health probe.
#[derive(Clone, Copy, Debug, PartialEq, Eq, Structural)]
pub enum HealthStatus {
    Healthy,
    Warning,
    Unhealthy,
    Unknown,
}

/// Roles a gateway user can hold.
#[derive(Clone, Copy, Debug, PartialEq, Eq, Hash, Structural)]
pub enum UserRole {
    Admin,
    User,
    ReadOnly,
    ApiConsumer,
}

/// Load-balancing tags offered by the connection-pool configuration.
#[derive(Clone, Copy, Debug, PartialEq, Eq, Structural)]
pub enum LoadBalanceStrategy {
    RoundRobin,
    Random,
    WeightedRoundRobin,
    LeastConnections,
}

} // verus!
