//! A runtime for distributed futures: calls whose arguments and results are
//! futures that may live on any node of a cluster.
//!
//! This crate holds the runtime's decision logic, each part with its contract:
//! the identifiers and reference handles, the task store with its reference
//! counting, the wire framing, the per-peer session bookkeeping, the
//! scheduler's capability filter and the resource configuration.

pub mod cluster;
pub mod codec;
pub mod dfut;
pub mod page;
pub mod refcount;
pub mod resource;
pub mod schedule;
pub mod session;
pub mod store;
pub mod types;

pub use cluster::{Cluster, ConfigError};
pub use codec::{decode_frame, encode_frame, payload_len, Decoded, FrameError};
pub use dfut::{DFut, DFutData, MaybeFut};
pub use page::Html;
pub use refcount::update_instances;
pub use resource::{cpu_count, DummyResources, ResourceConfig, Resources};
pub use schedule::{can_execute, eligible_peers, place, place_with, ScheduleError};
pub use session::{Action, Command, Connection, Outstanding, SessionError, SessionKind};
pub use store::{PendingValue, SlotModel, SlotValue, StoreError, TaskStore};
pub use types::{DFutId, InstanceId, NodeId, NIL_INSTANCE};
