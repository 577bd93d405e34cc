pub mod adversarial;
pub mod allocator;
pub mod capability;
pub mod gateway;
pub mod gateway_tests;

pub use capability::{Capability, CapabilityToken, MAX_DELEGATION_DEPTH};
pub use gateway::{ToolGateway, ToolRequest};
