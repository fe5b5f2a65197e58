//! The values the core node manager serves for the Server object's status and
//! configuration variables: ServerStatus and its BuildInfo, ServiceLevel, the server's
//! profiles, locales and URI, and the default role permissions and access restrictions
//! of namespace 0.

use vstd::prelude::*;
use crate::discovery::registry::{copy_strings, LocalizedText, LocalizedTextView};
use crate::node_id::{Identifier, IdentifierView, NodeId, NodeIdView};
use crate::permissions::{duplicate_grants, grant_views, RolePermission, RolePermissionView};
use crate::rbac::defaults::{default_access_restrictions_of, default_role_permissions_of, NamespaceDefaults};
use crate::security_checks::now_ticks;
use crate::text::string_views;

verus! {

/// The server's status and configuration as its variables publish them; times are
/// ticks (100 ns since 1601-01-01 UTC).
#[derive(Debug)]
pub struct ServerStatusInfo {
    pub application_uri: String,
    pub profiles: Vec<String>,
    pub locale_ids: Vec<String>,
    pub service_level: u8,
    pub product_uri: String,
    pub manufacturer_name: String,
    pub product_name: String,
    pub software_version: String,
    pub build_number: String,
    pub build_date: i64,
    pub state: i32,
    pub start_time: i64,
    pub seconds_till_shutdown: Option<u32>,
    pub shutdown_reason: LocalizedText,
}

/// A value served for a status variable.
#[derive(Debug)]
pub enum StatusValue {
    Empty,
    Byte(u8),
    Int32(i32),
    UInt16(u16),
    UInt32(u32),
    DateTime(i64),
    Text(String),
    TextArray(Vec<String>),
    LocalizedText(LocalizedText),
    RolePermissions(Vec<RolePermission>),
}

/// Mathematical view of a [`StatusValue`].
pub enum StatusValueView {
    Empty,
    Byte(u8),
    Int32(i32),
    UInt16(u16),
    UInt32(u32),
    DateTime(i64),
    Text(Seq<char>),
    TextArray(Seq<Seq<char>>),
    LocalizedText(LocalizedTextView),
    RolePermissions(Seq<RolePermissionView>),
}

impl View for StatusValue {
    type V = StatusValueView;

    open spec fn view(&self) -> StatusValueView {
        match self {
            StatusValue::Empty => StatusValueView::Empty,
            StatusValue::Byte(x) => StatusValueView::Byte(*x),
            StatusValue::Int32(x) => StatusValueView::Int32(*x),
            StatusValue::UInt16(x) => StatusValueView::UInt16(*x),
            StatusValue::UInt32(x) => StatusValueView::UInt32(*x),
            StatusValue::DateTime(x) => StatusValueView::DateTime(*x),
            StatusValue::Text(t) => StatusValueView::Text(t@),
            StatusValue::TextArray(v) => StatusValueView::TextArray(string_views(v@)),
            StatusValue::LocalizedText(t) => StatusValueView::LocalizedText(t@),
            StatusValue::RolePermissions(g) => StatusValueView::RolePermissions(grant_views(g@)),
        }
    }
}

/// The numeric id of ServerStatus/CurrentTime, whose value is the clock.
pub const CURRENT_TIME_VARIABLE: u32 = 2258;

/// The value served for the status variable with numeric id `v` in namespace 0, where
/// `defaults` are the default permissions of the namespaces; `None` for any other id,
/// and for the default role permissions or access restrictions when namespace 0 has none. The current time
/// is the clock and is not given here.
pub open spec fn status_value(v: u32, s: ServerStatusInfo, defaults: Map<u16, crate::rbac::defaults::NamespaceDefaultView>) -> Option<StatusValueView> {
    if v == 2267 {
        Some(StatusValueView::Byte(s.service_level))
    } else if v == 2269 {
        Some(StatusValueView::TextArray(string_views(s.profiles@)))
    } else if v == 2271 {
        Some(StatusValueView::TextArray(string_views(s.locale_ids@)))
    } else if v == 2254 {
        Some(StatusValueView::TextArray(seq![s.application_uri@]))
    } else if v == 2262 {
        Some(StatusValueView::Text(s.product_uri@))
    } else if v == 2263 {
        Some(StatusValueView::Text(s.manufacturer_name@))
    } else if v == 2261 {
        Some(StatusValueView::Text(s.product_name@))
    } else if v == 2264 {
        Some(StatusValueView::Text(s.software_version@))
    } else if v == 2265 {
        Some(StatusValueView::Text(s.build_number@))
    } else if v == 2266 {
        Some(StatusValueView::DateTime(s.build_date))
    } else if v == 2259 {
        Some(StatusValueView::Int32(s.state))
    } else if v == 2257 {
        Some(StatusValueView::DateTime(s.start_time))
    } else if v == 2992 {
        Some(
            match s.seconds_till_shutdown {
                Some(x) => StatusValueView::UInt32(x),
                None => StatusValueView::Empty,
            },
        )
    } else if v == 2993 {
        Some(StatusValueView::LocalizedText(s.shutdown_reason@))
    } else if v == 16134 {
        match default_role_permissions_of(defaults, 0) {
            Some(g) => Some(StatusValueView::RolePermissions(g)),
            None => None,
        }
    } else if v == 16136 {
        match default_access_restrictions_of(defaults, 0) {
            Some(bits) => Some(StatusValueView::UInt16(bits)),
            None => None,
        }
    } else {
        None
    }
}

/// The value the core node manager serves for a status variable `node_id` (a numeric
/// id in namespace 0, see [`status_value`]); for CurrentTime, the time read from the
/// clock.
pub fn read_server_status_value(node_id: &NodeId, status: &ServerStatusInfo, defaults: &NamespaceDefaults) -> (r: Option<StatusValue>)
    ensures
        match node_id@.identifier {
            IdentifierView::Numeric(v) => if node_id@.namespace != 0 {
                r is None
            } else if v == CURRENT_TIME_VARIABLE {
                r matches Some(StatusValue::DateTime(_))
            } else {
                match (r, status_value(v, *status, defaults@)) {
                    (Some(x), Some(y)) => x@ == y,
                    (None, None) => true,
                    _ => false,
                }
            },
            _ => r is None,
        },
{
    let v: u32 = match node_id.identifier {
        Identifier::Numeric(v) => v,
        _ => {
            return None;
        },
    };
    if node_id.namespace != 0 {
        return None;
    }
    let s = status;
    let r = if v == CURRENT_TIME_VARIABLE {
        Some(StatusValue::DateTime(now_ticks()))
    } else if v == 2267 {
        Some(StatusValue::Byte(s.service_level))
    } else if v == 2269 {
        Some(StatusValue::TextArray(copy_strings(&s.profiles)))
    } else if v == 2271 {
        Some(StatusValue::TextArray(copy_strings(&s.locale_ids)))
    } else if v == 2254 {
        let mut a: Vec<String> = Vec::new();
        a.push(s.application_uri.clone());
        assert(string_views(a@) =~= seq![s.application_uri@]);
        Some(StatusValue::TextArray(a))
    } else if v == 2262 {
        Some(StatusValue::Text(s.product_uri.clone()))
    } else if v == 2263 {
        Some(StatusValue::Text(s.manufacturer_name.clone()))
    } else if v == 2261 {
        Some(StatusValue::Text(s.product_name.clone()))
    } else if v == 2264 {
        Some(StatusValue::Text(s.software_version.clone()))
    } else if v == 2265 {
        Some(StatusValue::Text(s.build_number.clone()))
    } else if v == 2266 {
        Some(StatusValue::DateTime(s.build_date))
    } else if v == 2259 {
        Some(StatusValue::Int32(s.state))
    } else if v == 2257 {
        Some(StatusValue::DateTime(s.start_time))
    } else if v == 2992 {
        Some(
            match s.seconds_till_shutdown {
                Some(x) => StatusValue::UInt32(x),
                None => StatusValue::Empty,
            },
        )
    } else if v == 2993 {
        Some(StatusValue::LocalizedText(s.shutdown_reason.duplicate()))
    } else if v == 16134 {
        match defaults.role_permissions(0) {
            Some(g) => Some(StatusValue::RolePermissions(duplicate_grants(g))),
            None => None,
        }
    } else if v == 16136 {
        match defaults.access_restrictions(0) {
            Some(a) => Some(StatusValue::UInt16(a.bits)),
            None => None,
        }
    } else {
        None
    };
    r
}

} // verus!
