//! Control-loop engine and domain model of a game-server fleet autoscaler.
//!
//! The crate holds the decisions of the control plane as pure functions with
//! contracts: how an instance's state follows from its pod, which instances a
//! query selects, what each periodic task does on a tick, and how player
//! groups leave their queues. Talking to the orchestrator, probing instances
//! and serving HTTP are left to the program built around it.

pub mod config;
pub mod decimal;
pub mod error;
pub mod events;
pub mod group;
pub mod hub_task;
pub mod instance;
pub mod instance_provider;
pub mod instance_type;
pub mod label;
pub mod labels_builder;
pub mod pod;
pub mod pod_instance;
pub mod probe;
pub mod proxy_task;
pub mod queue;
pub mod queue_provider;
pub mod queue_task;
pub mod reconcile;
pub mod resources;
pub mod state;
pub mod task;
pub mod task_builder;
pub mod template;
pub mod template_provider;
pub mod text;
pub mod wire;
