//! Rule matching and invocation bookkeeping for a mock gRPC server.
//!
//! A test registers rules with a [`GrpcServer`]: each says which requests it
//! matches, by path and headers, and what they are answered. A request is
//! answered by the earliest registered rule that matches it, which notes the
//! request; the test then asks what each rule has seen.
//!
//! The listener, the locks and the generated code live outside this crate.
//! What they need decided is decided here, on plain values, and stated in
//! contracts that Verus proves.

pub mod builder;
pub mod code;
pub mod codegen;
pub mod grpc_server;
pub mod headers;
pub mod history;
pub mod invocations;
pub mod naming;
pub mod parser;
pub mod startup;
pub mod teardown;
pub mod text;
pub mod tonic_ext;

pub use builder::{MockBuilder, Mountable, Then, ThenBuilder, WhenBuilder};
pub use code::Code;
pub use grpc_server::{GrpcServer, Reply, RequestItem, SetupError};
pub use invocations::FindError;
pub use teardown::TeardownError;
pub use tonic_ext::{GenericProstDecoder, GenericProstEncoder};
