//! The push channel: its interface and a backend that records what it is
//! asked to deliver.

pub mod notifier_fake;
pub mod notifier_trait;
