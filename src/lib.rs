//! Admission and routing core of a multi-tenant reverse proxy: tenant and
//! tier registries kept in step with control-plane events, per-tenant rate
//! limit cascades, connection counting and the upstream health gate.

pub mod registry;
pub mod consumer;
pub mod tier;
pub mod limiter;
pub mod host;
pub mod state;
pub mod lemmas;
