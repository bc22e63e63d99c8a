//! The rule families, two per layer.
pub mod l1_input;
pub mod l2_planner;
pub mod l3_modelio;
pub mod l4_tool_gateway;
pub mod l5_rag;
pub mod l6_egress;
pub mod lo_system;
