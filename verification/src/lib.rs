//! Verified core of the Telekio build tooling and runtime ABI.
pub mod abi;
pub mod bytes;
pub mod compiler;
pub mod edit;
pub mod guest;
pub mod histogram;
pub mod hooks;
pub mod path;
pub mod invocation;
pub mod lifecycle;
pub mod linker;
pub mod source;
pub mod task_id;
pub mod text;
pub mod toml_value;
pub mod json_value;
pub mod timing;
pub mod manifest;
pub mod package;
