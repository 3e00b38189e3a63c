//! Durable coordination between a web-model foreman and its group: relay decisions over an
//! append-only ledger, web-model connectors and their session bindings, and browser delivery.

pub mod connectors;
pub mod context;
pub mod context_outcomes;
pub mod delivery;
pub mod failure;
pub mod gateway;
pub mod gateway_outcomes;
pub mod headless;
pub mod headless_outcomes;
pub mod json;
pub mod json_access;
pub mod json_write;
pub mod lists;
pub mod model;
pub mod onboarding;
pub mod onboarding_flow;
pub mod onboarding_outcomes;
pub mod order;
pub mod paths;
pub mod probe;
pub mod probe_outcomes;
pub mod relay;
pub mod supervisor;
pub mod supervisor_outcomes;
pub mod text;
pub mod time;
