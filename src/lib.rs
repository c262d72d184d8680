//! Concurrent, admission-controlled fetching of block trees from a paginated
//! document API: the decisions and the bookkeeping, verified; the transport is
//! supplied by the caller.

pub mod assemble;
pub mod client;
pub mod expand;
pub mod gate;
pub mod paginate;
pub mod record;

pub use assemble::{collect_results, page_result, unique_ids, NotionPageBlocksResult};
pub use client::NotionParallel;
pub use expand::{attach_children, expand_level};
pub use gate::AdmissionGate;
pub use paginate::{page_url, NotionBlockResponse, Paginator};
pub use record::{FetchError, Record};
