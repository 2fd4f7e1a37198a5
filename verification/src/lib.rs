//! Billow: workload state machine, image references, install layout and the
//! VM pool bookkeeping of a small container host, with their contracts.

pub mod cli;
pub mod containerd;
pub mod image;
pub mod install;
pub mod manager;
pub mod network;
pub mod policy;
pub mod pool;
pub mod pool_protocol;
pub mod reconcile;
pub mod reference;
pub mod rootfs;
pub mod runtime;
pub mod seqs;
pub mod store;
pub mod text;
pub mod watch;
pub mod workload;
