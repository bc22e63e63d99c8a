//! Rule storage for the multi-layer data plane: families, indices, tables and the bridge.
pub mod types;
pub mod families;
pub mod rule_instance;
pub mod rule_seq;
pub mod indices;
pub mod table;
pub mod bridge;
pub mod enforcement;
pub mod installation;
pub mod scheduler;
