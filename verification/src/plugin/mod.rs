pub mod abi;
pub mod event_bridge;
pub mod manifest;
pub mod registry;
