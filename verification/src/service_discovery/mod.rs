//! Kubernetes service discovery: which pods become workers, and how the
//! known set of pods is reconciled with the cluster.

pub mod pool;

pub use pool::{add_worker_to_pool, remove_worker_from_pool, WorkerPool};
pub mod pod;

pub use pod::{select_pool, PodInfo, PodObject, PodType, ServiceDiscoveryConfig};
pub mod identity;
pub mod reconcile;

pub use reconcile::{compute_reconciliation_diff, handle_pod_deletion, handle_pod_event, WorkerPools};
