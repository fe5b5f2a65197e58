//! Discovery: locale matching, the registered-server registry, FindServersOnNetwork,
//! mDNS advertisement texts and endpoint selection.

pub mod locale;
pub mod registry;
pub mod network;
pub mod mdns;
pub mod endpoints;
pub mod own;
