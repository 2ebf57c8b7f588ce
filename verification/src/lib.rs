//! An in-process mock engine for a gRPC-style RPC server.
//!
//! Test authors register stub rules (an operation selector plus a canned
//! status and/or payload). The transport layer hands the engine one decoded
//! call at a time; the engine picks the earliest-registered rule whose
//! selector equals the call's operation, records the call, and returns the
//! rule's response — or a fixed "unimplemented" fallback when nothing
//! matches. Recorded calls can later be queried by rule identity.

mod engine;
mod matching;
mod record;
mod response;
mod rule;

pub use engine::MockGrpcServer;
pub use matching::find_first_match;
pub use record::CallRecord;
pub use record::NotRecordedError;
pub use response::Response;
pub use response::GRPC_CODE_OK;
pub use response::GRPC_CODE_UNIMPLEMENTED;
pub use rule::RequestBuilder;
pub use rule::Rule;
pub use rule::ValidationError;
