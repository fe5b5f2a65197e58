//! The role-management methods of the RoleSet and Role objects (OPC UA Part 18):
//! AddRole, RemoveRole, AddIdentity, RemoveIdentity, AddApplication, RemoveApplication,
//! AddEndpoint and RemoveEndpoint. Only a SecurityAdmin may call them.

use vstd::prelude::*;
use crate::address_space::{NodeValue, NodeValueView};
use vstd::string::StringExecFns;
use crate::address_space::{
    has_child_named, insert_node_spec, max_namespace_index, namespace_index_of, node_exists, has_reference,
    delete_node_spec, lemma_distinct_ids_not_all_used, with_namespace, new_references, node_index, AddressSpace, Node, NodeClass, NodeView,
    QualifiedName, QualifiedNameView, ReferenceView, SpaceView,
};
use crate::node_id::{lemma_decimal_text_injective, lemma_decimal_text_len, contains_id, decimal_text, digit_char, id_views, ids_contain, numeric_view, string_view, NodeId, NodeIdView};
use crate::node_management::types::{HAS_COMPONENT, HAS_TYPE_DEFINITION, VALUE_RANK_SCALAR};
use crate::rbac::resolver::{
    has_role, is_runtime_spec, role_index, role_of, rules_contain, rules_without, texts_without, update_role,
    with_mapping, RoleResolver, RoleRulesView,
};
use crate::text::texts_contain;
use crate::rbac::rules::{criteria_text, rule_from_wire, IdentityMappingRule, IdentityMappingRuleType, RuleView};
use crate::rbac::{WellKnownRole, WELL_KNOWN_ROLE_SECURITY_ADMIN_ID};
use crate::status::StatusCode;

verus! {

/// The RoleSet object of the server (`Server_ServerCapabilities_RoleSet`).
pub const ROLE_SET_ID: u32 = 15606;
/// The `RoleType` object type.
pub const ROLE_TYPE_ID: u32 = 15620;

/// An input argument of a method call, as far as the role methods read it.
#[derive(Debug)]
pub enum MethodArgument {
    /// A string; `None` is the null string.
    Text(Option<String>),
    /// A node id.
    Node(NodeId),
    /// An `EndpointType` structure with its (possibly null) endpoint URL.
    Endpoint(Option<String>),
    /// An `IdentityMappingRuleType` structure.
    Rule(IdentityMappingRuleType),
    /// Any other value.
    Other,
}

/// Whether the session's roles include SecurityAdmin.
pub open spec fn security_admin(user_roles: Seq<NodeIdView>) -> bool {
    ids_contain(user_roles, numeric_view(0, WELL_KNOWN_ROLE_SECURITY_ADMIN_ID))
}

/// Whether the session's roles include SecurityAdmin.
pub fn is_security_admin(user_roles: &[NodeId]) -> (r: bool)
    ensures
        r == security_admin(id_views(user_roles@)),
{
    contains_id(user_roles, &WellKnownRole::SecurityAdmin.node_id())
}

/// The node id of the RoleSet object.
pub fn role_set_node_id() -> (r: NodeId)
    ensures
        r@ == numeric_view(0, ROLE_SET_ID),
{
    NodeId::numeric(0, ROLE_SET_ID)
}

/// RoleSet methods may only be called on the RoleSet object.
pub fn ensure_role_set_object(object_id: &NodeId) -> (r: Result<(), StatusCode>)
    ensures
        r == (if object_id@ == numeric_view(0, ROLE_SET_ID) {
            Ok::<(), StatusCode>(())
        } else {
            Err(StatusCode::BadNodeIdInvalid)
        }),
{
    if object_id.equals(&role_set_node_id()) {
        Ok(())
    } else {
        Err(StatusCode::BadNodeIdInvalid)
    }
}

/// The string argument at `index`: missing, not a string, or the null string is refused.
pub open spec fn string_argument(args: Seq<MethodArgument>, index: int) -> Result<Seq<char>, StatusCode> {
    if index >= args.len() {
        Err(StatusCode::BadArgumentsMissing)
    } else {
        match args[index] {
            MethodArgument::Text(Some(s)) => Ok(s@),
            _ => Err(StatusCode::BadInvalidArgument),
        }
    }
}

/// Decodes the string argument at `index` (see [`string_argument`]).
pub fn decode_string_argument(args: &[MethodArgument], index: usize) -> (r: Result<String, StatusCode>)
    ensures
        match r {
            Ok(s) => string_argument(args@, index as int) == Ok::<Seq<char>, StatusCode>(s@),
            Err(e) => string_argument(args@, index as int) == Err::<Seq<char>, StatusCode>(e),
        },
{
    if index >= args.len() {
        return Err(StatusCode::BadArgumentsMissing);
    }
    match &args[index] {
        MethodArgument::Text(Some(s)) => Ok(s.clone()),
        _ => Err(StatusCode::BadInvalidArgument),
    }
}

/// The first argument as a non-empty application URI.
pub open spec fn application_uri_argument(args: Seq<MethodArgument>) -> Result<Seq<char>, StatusCode> {
    match string_argument(args, 0) {
        Ok(s) => if s.len() == 0 {
            Err(StatusCode::BadInvalidArgument)
        } else {
            Ok(s)
        },
        Err(e) => Err(e),
    }
}

/// Decodes the application URI argument (see [`application_uri_argument`]).
pub fn decode_application_uri_argument(args: &[MethodArgument]) -> (r: Result<String, StatusCode>)
    ensures
        match r {
            Ok(s) => application_uri_argument(args@) == Ok::<Seq<char>, StatusCode>(s@),
            Err(e) => application_uri_argument(args@) == Err::<Seq<char>, StatusCode>(e),
        },
{
    let uri = decode_string_argument(args, 0)?;
    if uri.as_str().is_empty() {
        return Err(StatusCode::BadInvalidArgument);
    }
    Ok(uri)
}

/// The endpoint URL of the first argument, an EndpointType with a non-empty URL.
pub open spec fn endpoint_url_argument(args: Seq<MethodArgument>) -> Result<Seq<char>, StatusCode> {
    if args.len() == 0 {
        Err(StatusCode::BadArgumentsMissing)
    } else {
        match args[0] {
            MethodArgument::Endpoint(Some(u)) => if u@.len() == 0 {
                Err(StatusCode::BadInvalidArgument)
            } else {
                Ok(u@)
            },
            _ => Err(StatusCode::BadInvalidArgument),
        }
    }
}

/// Decodes the endpoint URL argument (see [`endpoint_url_argument`]).
pub fn decode_endpoint_url_argument(args: &[MethodArgument]) -> (r: Result<String, StatusCode>)
    ensures
        match r {
            Ok(s) => endpoint_url_argument(args@) == Ok::<Seq<char>, StatusCode>(s@),
            Err(e) => endpoint_url_argument(args@) == Err::<Seq<char>, StatusCode>(e),
        },
{
    if args.len() == 0 {
        return Err(StatusCode::BadArgumentsMissing);
    }
    match &args[0] {
        MethodArgument::Endpoint(Some(u)) => {
            if u.as_str().is_empty() {
                Err(StatusCode::BadInvalidArgument)
            } else {
                Ok(u.clone())
            }
        },
        _ => Err(StatusCode::BadInvalidArgument),
    }
}

/// The node id of the first argument.
pub open spec fn node_id_argument(args: Seq<MethodArgument>) -> Result<NodeIdView, StatusCode> {
    if args.len() == 0 {
        Err(StatusCode::BadArgumentsMissing)
    } else {
        match args[0] {
            MethodArgument::Node(id) => Ok(id@),
            _ => Err(StatusCode::BadInvalidArgument),
        }
    }
}

/// Decodes the node id argument (see [`node_id_argument`]).
pub fn decode_node_id_argument(args: &[MethodArgument]) -> (r: Result<NodeId, StatusCode>)
    ensures
        match r {
            Ok(id) => node_id_argument(args@) == Ok::<NodeIdView, StatusCode>(id@),
            Err(e) => node_id_argument(args@) == Err::<NodeIdView, StatusCode>(e),
        },
{
    if args.len() == 0 {
        return Err(StatusCode::BadArgumentsMissing);
    }
    match &args[0] {
        MethodArgument::Node(id) => Ok(id.duplicate()),
        _ => Err(StatusCode::BadInvalidArgument),
    }
}

/// The identity mapping rule of the first argument, when it converts.
pub open spec fn rule_argument(args: Seq<MethodArgument>) -> Result<RuleView, StatusCode> {
    if args.len() == 0 {
        Err(StatusCode::BadArgumentsMissing)
    } else {
        match args[0] {
            MethodArgument::Rule(w) => match rule_from_wire(w.criteria_type, criteria_text(w.criteria)) {
                Ok(rule) => Ok(rule),
                Err(_) => Err(StatusCode::BadInvalidArgument),
            },
            _ => Err(StatusCode::BadInvalidArgument),
        }
    }
}

/// Decodes the identity mapping rule argument (see [`rule_argument`]).
pub fn decode_identity_mapping_rule_argument(args: &[MethodArgument]) -> (r: Result<IdentityMappingRule, StatusCode>)
    ensures
        match r {
            Ok(rule) => rule_argument(args@) == Ok::<RuleView, StatusCode>(rule@),
            Err(e) => rule_argument(args@) == Err::<RuleView, StatusCode>(e),
        },
{
    if args.len() == 0 {
        return Err(StatusCode::BadArgumentsMissing);
    }
    match &args[0] {
        MethodArgument::Rule(w) => match IdentityMappingRule::try_from_wire(w) {
            Ok(rule) => Ok(rule),
            Err(_) => Err(StatusCode::BadInvalidArgument),
        },
        _ => Err(StatusCode::BadInvalidArgument),
    }
}

/// The namespace index a new role with namespace URI `uri` goes into: 0 for no URI, the
/// index of the URI when registered, else one past the largest index (saturating).
pub open spec fn role_namespace_index(v: Seq<(u16, Seq<char>)>, uri: Seq<char>) -> u16 {
    if uri.len() == 0 {
        0
    } else {
        match namespace_index_of(v, uri) {
            Some(i) => i,
            None => if max_namespace_index(v) == 65535 {
                65535
            } else {
                (max_namespace_index(v) + 1) as u16
            },
        }
    }
}

/// The namespace index for a new role (see [`role_namespace_index`]); an unregistered URI
/// is registered under it.
pub fn namespace_index_for_role(space: &mut AddressSpace, namespace_uri: &str) -> (r: u16)
    requires
        old(space).wf(),
    ensures
        final(space).wf(),
        r == role_namespace_index(old(space)@.namespaces, namespace_uri@),
        final(space)@ == (if namespace_uri@.len() == 0 || namespace_index_of(old(space)@.namespaces, namespace_uri@) is Some {
            old(space)@
        } else {
            SpaceView { namespaces: with_namespace(old(space)@.namespaces, namespace_uri@, r), ..old(space)@ }
        }),
{
    if namespace_uri.is_empty() {
        return 0;
    }
    if let Some(index) = space.namespace_index(namespace_uri) {
        return index;
    }
    let index = space.max_namespace_index().saturating_add(1);
    space.add_namespace(namespace_uri, index);
    index
}

/// The decimal digit `d` as a string.
fn digit_str(d: usize) -> (r: &'static str)
    requires
        d < 10,
    ensures
        r@ == seq![digit_char(d as nat)],
{
    proof {
        reveal_strlit("0");
        reveal_strlit("1");
        reveal_strlit("2");
        reveal_strlit("3");
        reveal_strlit("4");
        reveal_strlit("5");
        reveal_strlit("6");
        reveal_strlit("7");
        reveal_strlit("8");
        reveal_strlit("9");
    }
    let r = match d {
        0 => "0",
        1 => "1",
        2 => "2",
        3 => "3",
        4 => "4",
        5 => "5",
        6 => "6",
        7 => "7",
        8 => "8",
        _ => "9",
    };
    assert(r@ =~= seq![digit_char(d as nat)]);
    r
}

/// The decimal text of `n`.
pub fn decimal_string(n: usize) -> (r: String)
    ensures
        r@ == decimal_text(n as nat),
    decreases n,
{
    if n < 10 {
        digit_str(n).to_owned()
    } else {
        let mut s = decimal_string(n / 10);
        s.append(digit_str(n % 10));
        s
    }
}

/// The id text of a role: `Role:<namespace uri>:<role name>`.
pub open spec fn role_id_base(uri: Seq<char>, name: Seq<char>) -> Seq<char> {
    seq!['R', 'o', 'l', 'e', ':'] + uri + seq![':'] + name
}

/// The `k`-th candidate id text of a role: the base, then `<base>:<k>` for `k >= 1`.
pub open spec fn role_id_candidate(uri: Seq<char>, name: Seq<char>, k: nat) -> Seq<char> {
    if k == 0 {
        role_id_base(uri, name)
    } else {
        role_id_base(uri, name) + seq![':'] + decimal_text(k)
    }
}

proof fn lemma_role_candidates_distinct(uri: Seq<char>, name: Seq<char>, j: nat, k: nat)
    requires
        j != k,
    ensures
        role_id_candidate(uri, name, j) != role_id_candidate(uri, name, k),
{
    let b = role_id_base(uri, name);
    lemma_decimal_text_len(j);
    lemma_decimal_text_len(k);
    if j == 0 || k == 0 {
        assert(role_id_candidate(uri, name, j).len() != role_id_candidate(uri, name, k).len());
    } else {
        let cj = role_id_candidate(uri, name, j);
        let ck = role_id_candidate(uri, name, k);
        assert(cj.subrange(b.len() + 1int, cj.len() as int) =~= decimal_text(j));
        assert(ck.subrange(b.len() + 1int, ck.len() as int) =~= decimal_text(k));
        if cj == ck {
            lemma_decimal_text_injective(j, k);
        }
    }
}

/// Among more candidate role ids than there are nodes, one is free.
proof fn lemma_some_role_candidate_free(s: SpaceView, uri: Seq<char>, name: Seq<char>)
    ensures
        exists|j: nat| j <= s.nodes.len() && !node_exists(s, #[trigger] string_view(0, role_id_candidate(uri, name, j))),
{
    let ids = Seq::new((s.nodes.len() + 1) as nat, |j: int| string_view(0, role_id_candidate(uri, name, j as nat)));
    assert forall|a: int, b: int| 0 <= a < ids.len() && 0 <= b < ids.len() && a != b implies ids[a] != ids[b] by {
        lemma_role_candidates_distinct(uri, name, a as nat, b as nat);
    }
    lemma_distinct_ids_not_all_used(s, ids);
    let i = choose|i: int| 0 <= i < ids.len() && !node_exists(s, #[trigger] ids[i]);
    assert(!node_exists(s, string_view(0, role_id_candidate(uri, name, i as nat))));
}

/// Whether `id` is the first candidate role id (in namespace 0) that `s` does not use,
/// among the first `limit + 1`.
pub open spec fn first_free_role_id(s: SpaceView, uri: Seq<char>, name: Seq<char>, id: NodeIdView) -> bool {
    exists|k: nat|
        #![trigger role_id_candidate(uri, name, k)]
        id == string_view(0, role_id_candidate(uri, name, k)) && !node_exists(s, id) && forall|j: nat|
            j < k ==> node_exists(s, #[trigger] string_view(0, role_id_candidate(uri, name, j)))
}

/// The node id for a new role: the first candidate id (see [`role_id_candidate`]) not used
/// in `space`. The candidates are distinct, so among one more of them than there are
/// nodes one is free: the result is always `Some`.
pub fn unique_role_node_id(space: &AddressSpace, namespace_uri: &str, role_name: &str) -> (r: Option<NodeId>)
    ensures
        match r {
            Some(id) => first_free_role_id(space@, namespace_uri@, role_name@, id@),
            None => false,
        },
{
    proof {
        reveal_strlit("Role:");
        reveal_strlit(":");
    }
    let mut base = "Role:".to_owned();
    base.append(namespace_uri);
    base.append(":");
    base.append(role_name);
    assert(base@ =~= role_id_base(namespace_uri@, role_name@));
    let candidate = NodeId::string(0, base.as_str());
    if !space.node_exists(&candidate) {
        proof {
            assert(candidate@ == string_view(0, role_id_candidate(namespace_uri@, role_name@, 0)));
        }
        return Some(candidate);
    }
    let limit = space.node_count();
    proof {
        crate::address_space::lemma_node_index(space@.nodes, candidate@);
    }
    let mut suffix: usize = 1;
    loop
        invariant
            1 <= suffix <= limit,
            limit == space@.nodes.len(),
            base@ == role_id_base(namespace_uri@, role_name@),
            forall|j: nat| j < suffix ==> node_exists(space@, #[trigger] string_view(0, role_id_candidate(namespace_uri@, role_name@, j))),
        ensures
            forall|j: nat| j <= limit ==> node_exists(space@, #[trigger] string_view(0, role_id_candidate(namespace_uri@, role_name@, j))),
        decreases limit - suffix,
    {
        proof {
            reveal_strlit(":");
        }
        let mut text = base.clone();
        text.append(":");
        let digits = decimal_string(suffix);
        text.append(digits.as_str());
        assert(text@ =~= role_id_candidate(namespace_uri@, role_name@, suffix as nat));
        let candidate = NodeId::from_string(0, text);
        if !space.node_exists(&candidate) {
            return Some(candidate);
        }
        if suffix == limit {
            break;
        }
        suffix = suffix + 1;
    }
    proof {
        lemma_some_role_candidate_free(space@, namespace_uri@, role_name@);
    }
    None
}

/// The node a new role is inserted as: an Object with the role's browse name.
pub open spec fn role_node(id: NodeIdView, browse_name: QualifiedNameView) -> NodeView {
    NodeView {
        id,
        node_class: NodeClass::Object,
        browse_name,
        is_abstract: false,
        data_type: numeric_view(0, 0),
        value_rank: VALUE_RANK_SCALAR,
        role_permissions: None,
        access_restrictions: None,
        value: NodeValueView::Empty,
        writable: false,
    }
}

/// The reference entries of a new role: its RoleType definition, and the RoleSet's
/// HasComponent to it.
pub open spec fn role_entries() -> Seq<(NodeIdView, NodeIdView, bool)> {
    seq![
        (numeric_view(0, ROLE_TYPE_ID), numeric_view(0, HAS_TYPE_DEFINITION), true),
        (numeric_view(0, ROLE_SET_ID), numeric_view(0, HAS_COMPONENT), false),
    ]
}

/// The outcome of the argument and permission checks of AddRole, before any change.
pub open spec fn add_role_request(
    user_roles: Seq<NodeIdView>,
    object_id: NodeIdView,
    args: Seq<MethodArgument>,
) -> Result<(Seq<char>, Seq<char>), StatusCode> {
    if !security_admin(user_roles) {
        Err(StatusCode::BadUserAccessDenied)
    } else if object_id != numeric_view(0, ROLE_SET_ID) {
        Err(StatusCode::BadNodeIdInvalid)
    } else {
        match string_argument(args, 0) {
            Err(e) => Err(e),
            Ok(name) => if name.len() == 0 {
                Err(StatusCode::BadBrowseNameInvalid)
            } else {
                match string_argument(args, 1) {
                    Err(e) => Err(e),
                    Ok(uri) => Ok((name, uri)),
                }
            },
        }
    }
}

/// AddRole on the RoleSet: a SecurityAdmin adds a role named by the first argument in
/// the namespace named by the second. The role's namespace is registered when new (even
/// if the role is then refused); a role of the same browse name under the RoleSet is
/// refused; the role becomes an Object under the RoleSet with a fresh id and is
/// registered with the resolver. Returns the new role's id.
pub fn add_role(
    user_roles: &[NodeId],
    space: &mut AddressSpace,
    resolver: &mut RoleResolver,
    object_id: &NodeId,
    args: &[MethodArgument],
) -> (r: Result<NodeId, StatusCode>)
    requires
        old(space).wf(),
        old(resolver).wf(),
    ensures
        final(space).wf(),
        final(resolver).wf(),
        match add_role_request(id_views(user_roles@), object_id@, args@) {
            Err(e) => r == Err::<NodeId, StatusCode>(e) && final(space)@ == old(space)@ && final(resolver)@ == old(resolver)@,
            Ok((name, uri)) => {
                let index = role_namespace_index(old(space)@.namespaces, uri);
                let s1 = if uri.len() == 0 || namespace_index_of(old(space)@.namespaces, uri) is Some {
                    old(space)@
                } else {
                    SpaceView { namespaces: with_namespace(old(space)@.namespaces, uri, index), ..old(space)@ }
                };
                let browse_name = QualifiedNameView { namespace_index: index, name };
                if has_child_named(s1, numeric_view(0, ROLE_SET_ID), numeric_view(0, HAS_COMPONENT), browse_name) {
                    r == Err::<NodeId, StatusCode>(StatusCode::BadBrowseNameDuplicated) && final(space)@ == s1
                        && final(resolver)@ == old(resolver)@
                } else {
                    match r {
                        Ok(id) => first_free_role_id(s1, uri, name, id@) && final(space)@ == insert_node_spec(
                            s1,
                            role_node(id@, browse_name),
                            role_entries(),
                        ) && final(resolver)@ == (if has_role(old(resolver)@, id@) {
                            old(resolver)@
                        } else {
                            old(resolver)@.push(RoleRulesView {
                                node_id: id@,
                                rules: Seq::<RuleView>::empty(),
                                applications: Seq::<Seq<char>>::empty(),
                                endpoints: Seq::<Seq<char>>::empty(),
                                runtime: true,
                            })
                        }),
                        Err(_) => false,
                    }
                }
            },
        },
{
    if !is_security_admin(user_roles) {
        return Err(StatusCode::BadUserAccessDenied);
    }
    ensure_role_set_object(object_id)?;
    let role_name = decode_string_argument(args, 0)?;
    if role_name.as_str().is_empty() {
        return Err(StatusCode::BadBrowseNameInvalid);
    }
    let namespace_uri = decode_string_argument(args, 1)?;
    let role_set = role_set_node_id();
    let namespace_index = namespace_index_for_role(space, namespace_uri.as_str());
    let browse_name = QualifiedName { namespace_index, name: role_name.clone() };
    if space.has_child_named(&role_set, &NodeId::numeric(0, HAS_COMPONENT), &browse_name) {
        return Err(StatusCode::BadBrowseNameDuplicated);
    }
    let role_node_id = match unique_role_node_id(space, namespace_uri.as_str(), role_name.as_str()) {
        Some(id) => id,
        None => {
            return Err(StatusCode::BadNodeIdExists);
        },
    };
    let node = Node {
        node_id: role_node_id.duplicate(),
        node_class: NodeClass::Object,
        browse_name,
        is_abstract: false,
        data_type: NodeId::null(),
        value_rank: VALUE_RANK_SCALAR,
        role_permissions: None,
        access_restrictions: None,
        value: NodeValue::Empty,
        writable: false,
    };
    let mut entries: Vec<(NodeId, NodeId, bool)> = Vec::new();
    entries.push((NodeId::numeric(0, ROLE_TYPE_ID), NodeId::numeric(0, HAS_TYPE_DEFINITION), true));
    entries.push((role_set_node_id(), NodeId::numeric(0, HAS_COMPONENT), false));
    assert(crate::address_space::ref_entry_views(entries@) =~= role_entries());
    if !space.insert_node(node, entries.as_slice()) {
        return Err(StatusCode::BadNodeIdExists);
    }
    resolver.register_role(role_node_id.duplicate());
    Ok(role_node_id)
}

/// The outcome of RemoveRole on a resolver holding `roles` and an address space `s`.
pub open spec fn remove_role_outcome(
    user_roles: Seq<NodeIdView>,
    object_id: NodeIdView,
    args: Seq<MethodArgument>,
    roles: Seq<RoleRulesView>,
    s: SpaceView,
) -> Result<NodeIdView, StatusCode> {
    if !security_admin(user_roles) {
        Err(StatusCode::BadUserAccessDenied)
    } else if object_id != numeric_view(0, ROLE_SET_ID) {
        Err(StatusCode::BadNodeIdInvalid)
    } else {
        match node_id_argument(args) {
            Err(e) => Err(e),
            Ok(id) => if !is_runtime_spec(roles, id) {
                if has_role(roles, id) {
                    Err(StatusCode::BadRequestNotAllowed)
                } else {
                    Err(StatusCode::BadNodeIdUnknown)
                }
            } else if !node_exists(s, id) || !has_reference(s, numeric_view(0, ROLE_SET_ID), id, numeric_view(0, HAS_COMPONENT)) {
                Err(StatusCode::BadNodeIdUnknown)
            } else {
                Ok(id)
            },
        }
    }
}

/// RemoveRole on the RoleSet: a SecurityAdmin removes a role created at runtime; a
/// configured role is refused, an unknown one reported unknown. The role's node goes with
/// every reference to or from it.
pub fn remove_role(
    user_roles: &[NodeId],
    space: &mut AddressSpace,
    resolver: &mut RoleResolver,
    object_id: &NodeId,
    args: &[MethodArgument],
) -> (r: Result<(), StatusCode>)
    requires
        old(space).wf(),
        old(resolver).wf(),
    ensures
        final(space).wf(),
        final(resolver).wf(),
        match remove_role_outcome(id_views(user_roles@), object_id@, args@, old(resolver)@, old(space)@) {
            Err(e) => r == Err::<(), StatusCode>(e) && final(space)@ == old(space)@ && final(resolver)@ == old(resolver)@,
            Ok(id) => r == Ok::<(), StatusCode>(()) && final(space)@ == delete_node_spec(old(space)@, id, true)
                && final(resolver)@ == old(resolver)@.remove(role_index(old(resolver)@, id)),
        },
{
    if !is_security_admin(user_roles) {
        return Err(StatusCode::BadUserAccessDenied);
    }
    ensure_role_set_object(object_id)?;
    let role_node_id = decode_node_id_argument(args)?;
    if !resolver.is_runtime_role(&role_node_id) {
        return if resolver.contains_role(&role_node_id) {
            Err(StatusCode::BadRequestNotAllowed)
        } else {
            Err(StatusCode::BadNodeIdUnknown)
        };
    }
    let role_set = role_set_node_id();
    if !space.node_exists(&role_node_id) || !space.has_reference(&role_set, &role_node_id, &NodeId::numeric(0, HAS_COMPONENT)) {
        return Err(StatusCode::BadNodeIdUnknown);
    }
    space.delete(&role_node_id, true);
    if resolver.remove_role(&role_node_id) {
        Ok(())
    } else {
        Err(StatusCode::BadNodeIdUnknown)
    }
}


/// The checks every Role method makes first: the caller must be a SecurityAdmin, the
/// argument must decode (`decoded`), and the Role object must be a known role.
pub open spec fn role_method_check<A>(
    user_roles: Seq<NodeIdView>,
    roles: Seq<RoleRulesView>,
    object_id: NodeIdView,
    decoded: Result<A, StatusCode>,
) -> Result<A, StatusCode> {
    if !security_admin(user_roles) {
        Err(StatusCode::BadUserAccessDenied)
    } else {
        match decoded {
            Err(e) => Err(e),
            Ok(a) => if !has_role(roles, object_id) {
                Err(StatusCode::BadNodeIdUnknown)
            } else {
                Ok(a)
            },
        }
    }
}

/// AddApplication on a Role: excludes a client application from the role; an application
/// already excluded is refused with `BadAlreadyExists`.
pub fn add_application(
    user_roles: &[NodeId],
    resolver: &mut RoleResolver,
    object_id: &NodeId,
    args: &[MethodArgument],
) -> (r: Result<(), StatusCode>)
    requires
        old(resolver).wf(),
    ensures
        final(resolver).wf(),
        match role_method_check(id_views(user_roles@), old(resolver)@, object_id@, application_uri_argument(args@)) {
            Err(e) => r == Err::<(), StatusCode>(e) && final(resolver)@ == old(resolver)@,
            Ok(uri) => if texts_contain(role_of(old(resolver)@, object_id@).applications, uri) {
                r == Err::<(), StatusCode>(StatusCode::BadAlreadyExists) && final(resolver)@ == old(resolver)@
            } else {
                r == Ok::<(), StatusCode>(()) && final(resolver)@ == update_role(
                    old(resolver)@,
                    object_id@,
                    RoleRulesView {
                        applications: role_of(old(resolver)@, object_id@).applications.push(uri),
                        ..role_of(old(resolver)@, object_id@)
                    },
                )
            },
        },
{
    if !is_security_admin(user_roles) {
        return Err(StatusCode::BadUserAccessDenied);
    }
    let application_uri = decode_application_uri_argument(args)?;
    if !resolver.contains_role(object_id) {
        return Err(StatusCode::BadNodeIdUnknown);
    }
    if resolver.add_application(object_id, application_uri) {
        Ok(())
    } else {
        Err(StatusCode::BadAlreadyExists)
    }
}

/// RemoveApplication on a Role: stops excluding a client application; one not excluded
/// is `BadNotFound`.
pub fn remove_application(
    user_roles: &[NodeId],
    resolver: &mut RoleResolver,
    object_id: &NodeId,
    args: &[MethodArgument],
) -> (r: Result<(), StatusCode>)
    requires
        old(resolver).wf(),
    ensures
        final(resolver).wf(),
        match role_method_check(id_views(user_roles@), old(resolver)@, object_id@, application_uri_argument(args@)) {
            Err(e) => r == Err::<(), StatusCode>(e) && final(resolver)@ == old(resolver)@,
            Ok(uri) => if !texts_contain(role_of(old(resolver)@, object_id@).applications, uri) {
                r == Err::<(), StatusCode>(StatusCode::BadNotFound) && final(resolver)@ == old(resolver)@
            } else {
                r == Ok::<(), StatusCode>(()) && final(resolver)@ == update_role(
                    old(resolver)@,
                    object_id@,
                    RoleRulesView {
                        applications: texts_without(role_of(old(resolver)@, object_id@).applications, uri),
                        ..role_of(old(resolver)@, object_id@)
                    },
                )
            },
        },
{
    if !is_security_admin(user_roles) {
        return Err(StatusCode::BadUserAccessDenied);
    }
    let application_uri = decode_application_uri_argument(args)?;
    if !resolver.contains_role(object_id) {
        return Err(StatusCode::BadNodeIdUnknown);
    }
    if resolver.remove_application(object_id, application_uri.as_str()) {
        Ok(())
    } else {
        Err(StatusCode::BadNotFound)
    }
}

/// AddEndpoint on a Role: excludes an endpoint from the role; one already excluded is
/// refused with `BadAlreadyExists`.
pub fn add_endpoint(
    user_roles: &[NodeId],
    resolver: &mut RoleResolver,
    object_id: &NodeId,
    args: &[MethodArgument],
) -> (r: Result<(), StatusCode>)
    requires
        old(resolver).wf(),
    ensures
        final(resolver).wf(),
        match role_method_check(id_views(user_roles@), old(resolver)@, object_id@, endpoint_url_argument(args@)) {
            Err(e) => r == Err::<(), StatusCode>(e) && final(resolver)@ == old(resolver)@,
            Ok(url) => if texts_contain(role_of(old(resolver)@, object_id@).endpoints, url) {
                r == Err::<(), StatusCode>(StatusCode::BadAlreadyExists) && final(resolver)@ == old(resolver)@
            } else {
                r == Ok::<(), StatusCode>(()) && final(resolver)@ == update_role(
                    old(resolver)@,
                    object_id@,
                    RoleRulesView {
                        endpoints: role_of(old(resolver)@, object_id@).endpoints.push(url),
                        ..role_of(old(resolver)@, object_id@)
                    },
                )
            },
        },
{
    if !is_security_admin(user_roles) {
        return Err(StatusCode::BadUserAccessDenied);
    }
    let endpoint_url = decode_endpoint_url_argument(args)?;
    if !resolver.contains_role(object_id) {
        return Err(StatusCode::BadNodeIdUnknown);
    }
    if resolver.add_endpoint(object_id, endpoint_url) {
        Ok(())
    } else {
        Err(StatusCode::BadAlreadyExists)
    }
}

/// RemoveEndpoint on a Role: stops excluding an endpoint; one not excluded is
/// `BadNotFound`.
pub fn remove_endpoint(
    user_roles: &[NodeId],
    resolver: &mut RoleResolver,
    object_id: &NodeId,
    args: &[MethodArgument],
) -> (r: Result<(), StatusCode>)
    requires
        old(resolver).wf(),
    ensures
        final(resolver).wf(),
        match role_method_check(id_views(user_roles@), old(resolver)@, object_id@, endpoint_url_argument(args@)) {
            Err(e) => r == Err::<(), StatusCode>(e) && final(resolver)@ == old(resolver)@,
            Ok(url) => if !texts_contain(role_of(old(resolver)@, object_id@).endpoints, url) {
                r == Err::<(), StatusCode>(StatusCode::BadNotFound) && final(resolver)@ == old(resolver)@
            } else {
                r == Ok::<(), StatusCode>(()) && final(resolver)@ == update_role(
                    old(resolver)@,
                    object_id@,
                    RoleRulesView {
                        endpoints: texts_without(role_of(old(resolver)@, object_id@).endpoints, url),
                        ..role_of(old(resolver)@, object_id@)
                    },
                )
            },
        },
{
    if !is_security_admin(user_roles) {
        return Err(StatusCode::BadUserAccessDenied);
    }
    let endpoint_url = decode_endpoint_url_argument(args)?;
    if !resolver.contains_role(object_id) {
        return Err(StatusCode::BadNodeIdUnknown);
    }
    if resolver.remove_endpoint(object_id, endpoint_url.as_str()) {
        Ok(())
    } else {
        Err(StatusCode::BadNotFound)
    }
}

/// AddIdentity on a Role: appends an identity mapping rule to the role.
pub fn add_identity(
    user_roles: &[NodeId],
    resolver: &mut RoleResolver,
    object_id: &NodeId,
    args: &[MethodArgument],
) -> (r: Result<(), StatusCode>)
    requires
        old(resolver).wf(),
    ensures
        final(resolver).wf(),
        match role_method_check(id_views(user_roles@), old(resolver)@, object_id@, rule_argument(args@)) {
            Err(e) => r == Err::<(), StatusCode>(e) && final(resolver)@ == old(resolver)@,
            Ok(rule) => r == Ok::<(), StatusCode>(()) && final(resolver)@ == with_mapping(old(resolver)@, object_id@, rule),
        },
{
    if !is_security_admin(user_roles) {
        return Err(StatusCode::BadUserAccessDenied);
    }
    let rule = decode_identity_mapping_rule_argument(args)?;
    if !resolver.contains_role(object_id) {
        return Err(StatusCode::BadNodeIdUnknown);
    }
    resolver.add_mapping(object_id.duplicate(), rule);
    Ok(())
}

/// RemoveIdentity on a Role: removes every rule equal to the given one; a rule the role
/// does not hold is `BadNotFound`.
pub fn remove_identity(
    user_roles: &[NodeId],
    resolver: &mut RoleResolver,
    object_id: &NodeId,
    args: &[MethodArgument],
) -> (r: Result<(), StatusCode>)
    requires
        old(resolver).wf(),
    ensures
        final(resolver).wf(),
        match role_method_check(id_views(user_roles@), old(resolver)@, object_id@, rule_argument(args@)) {
            Err(e) => r == Err::<(), StatusCode>(e) && final(resolver)@ == old(resolver)@,
            Ok(rule) => if !rules_contain(role_of(old(resolver)@, object_id@).rules, rule) {
                r == Err::<(), StatusCode>(StatusCode::BadNotFound) && final(resolver)@ == old(resolver)@
            } else {
                r == Ok::<(), StatusCode>(()) && final(resolver)@ == update_role(
                    old(resolver)@,
                    object_id@,
                    RoleRulesView {
                        rules: rules_without(role_of(old(resolver)@, object_id@).rules, rule),
                        ..role_of(old(resolver)@, object_id@)
                    },
                )
            },
        },
{
    if !is_security_admin(user_roles) {
        return Err(StatusCode::BadUserAccessDenied);
    }
    let rule = decode_identity_mapping_rule_argument(args)?;
    if !resolver.contains_role(object_id) {
        return Err(StatusCode::BadNodeIdUnknown);
    }
    if resolver.remove_mapping(object_id, &rule) {
        Ok(())
    } else {
        Err(StatusCode::BadNotFound)
    }
}

/// A caller without the SecurityAdmin role changes nothing: AddRole, RemoveRole and every
/// method on a Role answer `BadUserAccessDenied`, whatever the object and arguments.
pub proof fn law_role_methods_require_security_admin<A>(
    user_roles: Seq<NodeIdView>,
    object_id: NodeIdView,
    args: Seq<MethodArgument>,
    roles: Seq<RoleRulesView>,
    s: SpaceView,
    decoded: Result<A, StatusCode>,
)
    requires
        !security_admin(user_roles),
    ensures
        add_role_request(user_roles, object_id, args) == Err::<(Seq<char>, Seq<char>), StatusCode>(
            StatusCode::BadUserAccessDenied,
        ),
        remove_role_outcome(user_roles, object_id, args, roles, s) == Err::<NodeIdView, StatusCode>(
            StatusCode::BadUserAccessDenied,
        ),
        role_method_check(user_roles, roles, object_id, decoded) == Err::<A, StatusCode>(
            StatusCode::BadUserAccessDenied,
        ),
{
}

/// A role that AddRole created can be removed again by RemoveRole on the RoleSet: in the
/// address space and role table that AddRole leaves, RemoveRole of that role succeeds.
/// (When the role table already knew the id, AddRole registers nothing new and the
/// role is not one created at runtime.)
pub proof fn law_added_role_is_removable(
    user_roles: Seq<NodeIdView>,
    s: SpaceView,
    roles: Seq<RoleRulesView>,
    id: NodeIdView,
    browse_name: QualifiedNameView,
    args: Seq<MethodArgument>,
)
    requires
        security_admin(user_roles),
        !node_exists(s, id),
        !has_role(roles, id),
        node_id_argument(args) == Ok::<NodeIdView, StatusCode>(id),
    ensures
        remove_role_outcome(
            user_roles,
            numeric_view(0, ROLE_SET_ID),
            args,
            roles.push(
                RoleRulesView {
                    node_id: id,
                    rules: Seq::<RuleView>::empty(),
                    applications: Seq::<Seq<char>>::empty(),
                    endpoints: Seq::<Seq<char>>::empty(),
                    runtime: true,
                },
            ),
            insert_node_spec(s, role_node(id, browse_name), role_entries()),
        ) == Ok::<NodeIdView, StatusCode>(id),
{
    let entry = RoleRulesView {
        node_id: id,
        rules: Seq::<RuleView>::empty(),
        applications: Seq::<Seq<char>>::empty(),
        endpoints: Seq::<Seq<char>>::empty(),
        runtime: true,
    };
    let roles2 = roles.push(entry);
    assert(roles2[roles.len() as int].node_id == id);
    assert(has_role(roles2, id));
    let k = role_index(roles2, id);
    assert(0 <= k < roles2.len() && roles2[k].node_id == id);
    if k < roles.len() {
        assert(roles[k] == roles2[k]);
        assert(has_role(roles, id));
    }
    assert(is_runtime_spec(roles2, id));
    let n = role_node(id, browse_name);
    let s2 = insert_node_spec(s, n, role_entries());
    assert(s2.nodes.drop_last() =~= s.nodes);
    assert(node_index(s.nodes, id) is None);
    assert(node_index(s2.nodes, id) == Some(s.nodes.len() as int));
    assert(node_exists(s2, id));
    reveal_with_fuel(new_references, 3);
    let added = new_references(id, role_entries());
    assert(added[1] == (ReferenceView {
        source: numeric_view(0, ROLE_SET_ID),
        target: id,
        reference_type: numeric_view(0, HAS_COMPONENT),
    }));
    assert(s2.references[s.references.len() + 1int] == added[1]);
    assert(has_reference(s2, numeric_view(0, ROLE_SET_ID), id, numeric_view(0, HAS_COMPONENT)));
}

} // verus!
