//! Verified core logic of an OPC UA server: node identifiers, role-based access
//! control, discovery registry and endpoint filtering, address-space management
//! rules and the security-check audit trail.

pub mod status;
pub mod text;
pub mod node_id;
pub mod discovery;
pub mod permissions;
pub mod rbac;
pub mod security_checks;
pub mod address_space;
pub mod node_management;
pub mod programs;
pub mod program_engine;

use vstd::prelude::*;

verus! {
}
