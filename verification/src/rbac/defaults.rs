//! Per-namespace default RBAC attributes.

use std::collections::BTreeMap;
use vstd::prelude::*;
use crate::permissions::{
    AccessRestrictionType, RolePermission, RolePermissionView, duplicate_grants, grant_views,
};

verus! {

broadcast use vstd::std_specs::btree::group_btree_axioms;

/// Configured default RBAC attributes of one namespace.
#[derive(Debug)]
pub struct NamespaceDefaultConfig {
    pub default_role_permissions: Option<Vec<RolePermission>>,
    pub default_access_restrictions: Option<AccessRestrictionType>,
}

/// Default RBAC attributes for one namespace.
///
/// `DefaultUserRolePermissions` is not stored here: like `UserRolePermissions`, it is
/// computed per session from the effective role permissions and the session's roles.
#[derive(Debug)]
pub struct NamespaceDefaultPermissions {
    default_role_permissions: Option<Vec<RolePermission>>,
    default_access_restrictions: Option<AccessRestrictionType>,
}

/// Mathematical view of the defaults of one namespace.
pub struct NamespaceDefaultView {
    pub role_permissions: Option<Seq<RolePermissionView>>,
    pub access_restrictions: Option<u16>,
}

/// The view of an optional list of role permissions.
pub open spec fn opt_grant_views(g: Option<Vec<RolePermission>>) -> Option<Seq<RolePermissionView>> {
    match g {
        Some(v) => Some(grant_views(v@)),
        None => None,
    }
}

/// The view of an optional access restriction set.
pub open spec fn opt_restriction_bits(r: Option<AccessRestrictionType>) -> Option<u16> {
    match r {
        Some(x) => Some(x.bits),
        None => None,
    }
}

impl View for NamespaceDefaultPermissions {
    type V = NamespaceDefaultView;

    closed spec fn view(&self) -> NamespaceDefaultView {
        NamespaceDefaultView {
            role_permissions: opt_grant_views(self.default_role_permissions),
            access_restrictions: opt_restriction_bits(self.default_access_restrictions),
        }
    }
}

impl View for NamespaceDefaultConfig {
    type V = NamespaceDefaultView;

    open spec fn view(&self) -> NamespaceDefaultView {
        NamespaceDefaultView {
            role_permissions: opt_grant_views(self.default_role_permissions),
            access_restrictions: opt_restriction_bits(self.default_access_restrictions),
        }
    }
}

/// Per-namespace default RBAC attributes.
#[derive(Debug)]
pub struct NamespaceDefaults {
    defaults: BTreeMap<u16, NamespaceDefaultPermissions>,
}

/// A namespace with no configured defaults.
pub open spec fn empty_default_view() -> NamespaceDefaultView {
    NamespaceDefaultView { role_permissions: None, access_restrictions: None }
}

impl View for NamespaceDefaults {
    type V = Map<u16, NamespaceDefaultView>;

    closed spec fn view(&self) -> Map<u16, NamespaceDefaultView> {
        self.defaults@.map_values(|d: NamespaceDefaultPermissions| d@)
    }
}

/// The default role permissions configured for `namespace`.
pub open spec fn default_role_permissions_of(
    d: Map<u16, NamespaceDefaultView>,
    namespace: u16,
) -> Option<Seq<RolePermissionView>> {
    if d.contains_key(namespace) {
        d[namespace].role_permissions
    } else {
        None
    }
}

/// The default access restrictions configured for `namespace`.
pub open spec fn default_access_restrictions_of(d: Map<u16, NamespaceDefaultView>, namespace: u16) -> Option<u16> {
    if d.contains_key(namespace) {
        d[namespace].access_restrictions
    } else {
        None
    }
}

fn copy_opt_grants(g: &Option<Vec<RolePermission>>) -> (r: Option<Vec<RolePermission>>)
    ensures
        opt_grant_views(r) == opt_grant_views(*g),
{
    match g {
        Some(v) => Some(duplicate_grants(v.as_slice())),
        None => None,
    }
}

impl NamespaceDefaults {
    /// No namespace has defaults.
    pub fn new() -> (r: NamespaceDefaults)
        ensures
            r@ == Map::<u16, NamespaceDefaultView>::empty(),
    {
        let r = NamespaceDefaults { defaults: BTreeMap::new() };
        assert(r@ =~= Map::<u16, NamespaceDefaultView>::empty());
        r
    }

    /// Defaults built from the configured per-namespace defaults.
    pub fn from_config(config_defaults: &BTreeMap<u16, NamespaceDefaultConfig>) -> (r: NamespaceDefaults)
        ensures
            r@ == config_defaults@.map_values(|c: NamespaceDefaultConfig| c@),
    {
        let mut defaults: BTreeMap<u16, NamespaceDefaultPermissions> = BTreeMap::new();
        let ghost target = config_defaults@.map_values(|c: NamespaceDefaultConfig| c@);
        let ghost mut seen: Set<u16> = Set::empty();
        for kv in it: config_defaults.iter()
            invariant
                target == config_defaults@.map_values(|c: NamespaceDefaultConfig| c@),
                defaults@.dom() == seen,
                seen == Set::new(|k: u16| exists|j: int| 0 <= j < it.index() && *it.seq()[j].0 == k),
                forall|k: u16| #[trigger] seen.contains(k) ==> config_defaults@.contains_key(k)
                    && defaults@[k]@ == config_defaults@[k]@,
        {
            let (k, v) = kv;
            let entry = NamespaceDefaultPermissions {
                default_role_permissions: copy_opt_grants(&v.default_role_permissions),
                default_access_restrictions: v.default_access_restrictions,
            };
            defaults.insert(*k, entry);
            proof {
                seen = seen.insert(*k);
            }
        }
        let r = NamespaceDefaults { defaults };
        assert(r@ =~= target);
        r
    }

    /// The default role permissions of `namespace`, if configured.
    pub fn role_permissions(&self, namespace: u16) -> (r: Option<&[RolePermission]>)
        ensures
            match r {
                Some(s) => default_role_permissions_of(self@, namespace) == Some(grant_views(s@)),
                None => default_role_permissions_of(self@, namespace) is None,
            },
    {
        match self.defaults.get(&namespace) {
            Some(d) => match &d.default_role_permissions {
                Some(v) => Some(v.as_slice()),
                None => None,
            },
            None => None,
        }
    }

    /// The default access restrictions of `namespace`, if configured.
    pub fn access_restrictions(&self, namespace: u16) -> (r: Option<AccessRestrictionType>)
        ensures
            opt_restriction_bits(r) == default_access_restrictions_of(self@, namespace),
    {
        match self.defaults.get(&namespace) {
            Some(d) => d.default_access_restrictions,
            None => None,
        }
    }

    /// Sets the default role permissions of `namespace`, keeping its access restrictions.
    pub fn set_role_permissions(&mut self, namespace: u16, role_permissions: Vec<RolePermission>)
        ensures
            final(self)@ == old(self)@.insert(
                namespace,
                NamespaceDefaultView {
                    role_permissions: Some(grant_views(role_permissions@)),
                    access_restrictions: default_access_restrictions_of(old(self)@, namespace),
                },
            ),
    {
        let restrictions = match self.defaults.remove(&namespace) {
            Some(d) => d.default_access_restrictions,
            None => None,
        };
        self.defaults.insert(
            namespace,
            NamespaceDefaultPermissions {
                default_role_permissions: Some(role_permissions),
                default_access_restrictions: restrictions,
            },
        );
        assert(self@ =~= old(self)@.insert(
            namespace,
            NamespaceDefaultView {
                role_permissions: Some(grant_views(role_permissions@)),
                access_restrictions: default_access_restrictions_of(old(self)@, namespace),
            },
        ));
    }

    /// Sets the default access restrictions of `namespace`, keeping its role permissions.
    pub fn set_access_restrictions(&mut self, namespace: u16, access_restrictions: AccessRestrictionType)
        ensures
            final(self)@ == old(self)@.insert(
                namespace,
                NamespaceDefaultView {
                    role_permissions: default_role_permissions_of(old(self)@, namespace),
                    access_restrictions: Some(access_restrictions.bits),
                },
            ),
    {
        let grants = match self.defaults.remove(&namespace) {
            Some(d) => d.default_role_permissions,
            None => None,
        };
        self.defaults.insert(
            namespace,
            NamespaceDefaultPermissions {
                default_role_permissions: grants,
                default_access_restrictions: Some(access_restrictions),
            },
        );
        assert(self@ =~= old(self)@.insert(
            namespace,
            NamespaceDefaultView {
                role_permissions: default_role_permissions_of(old(self)@, namespace),
                access_restrictions: Some(access_restrictions.bits),
            },
        ));
    }
}

} // verus!
