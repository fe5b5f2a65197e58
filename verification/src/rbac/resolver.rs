//! Resolution of activated session identities to the role node ids they are granted, and the
//! per-role identity, application and endpoint lists that the RoleSet methods manage.

use vstd::prelude::*;
use crate::node_id::{NodeId, NodeIdView, contains_id, duplicate_ids, id_views, ids_contain};
use crate::rbac::rules::{IdentityMappingRule, RuleView};
use crate::rbac::{WellKnownRole, all_roles, role_id_view};
use crate::text::{
    contains_text, eq_ignore_ascii_case, str_eq_ignore_ascii_case, string_views, texts_contain,
};

verus! {

/// The kind of an activated identity.
#[derive(Debug)]
pub enum ResolvedIdentityKind {
    Anonymous,
    UserName(String),
    X509Thumbprint(String),
    IssuedToken { group_ids: Vec<String>, role_ids: Vec<NodeId> },
}

/// An activated session identity together with the client's application URI and the
/// endpoint URL it connected through.
#[derive(Debug)]
pub struct ResolvedIdentity {
    pub kind: ResolvedIdentityKind,
    pub application_uri: Option<String>,
    pub endpoint_url: Option<String>,
}

/// Mathematical view of a [`ResolvedIdentityKind`].
pub enum IdentityKindView {
    Anonymous,
    UserName(Seq<char>),
    X509Thumbprint(Seq<char>),
    IssuedToken { group_ids: Seq<Seq<char>>, role_ids: Seq<NodeIdView> },
}

/// Mathematical view of a [`ResolvedIdentity`].
pub struct IdentityView {
    pub kind: IdentityKindView,
    pub application_uri: Option<Seq<char>>,
    pub endpoint_url: Option<Seq<char>>,
}

/// The view of an optional string.
pub open spec fn opt_text(s: Option<String>) -> Option<Seq<char>> {
    match s {
        Some(t) => Some(t@),
        None => None,
    }
}

impl View for ResolvedIdentity {
    type V = IdentityView;

    open spec fn view(&self) -> IdentityView {
        IdentityView {
            kind: match self.kind {
                ResolvedIdentityKind::Anonymous => IdentityKindView::Anonymous,
                ResolvedIdentityKind::UserName(s) => IdentityKindView::UserName(s@),
                ResolvedIdentityKind::X509Thumbprint(s) => IdentityKindView::X509Thumbprint(s@),
                ResolvedIdentityKind::IssuedToken { group_ids, role_ids } => IdentityKindView::IssuedToken {
                    group_ids: string_views(group_ids@),
                    role_ids: id_views(role_ids@),
                },
            },
            application_uri: opt_text(self.application_uri),
            endpoint_url: opt_text(self.endpoint_url),
        }
    }
}

fn copy_opt_string(s: Option<&str>) -> (r: Option<String>)
    ensures
        opt_text(r) == match s {
            Some(t) => Some(t@),
            None => None::<Seq<char>>,
        },
{
    match s {
        Some(t) => Some(t.to_owned()),
        None => None,
    }
}

impl ResolvedIdentity {
    /// An anonymous identity.
    pub fn anonymous(application_uri: Option<&str>, endpoint_url: Option<&str>) -> (r: Self)
        ensures
            r@.kind == IdentityKindView::Anonymous,
            r@.application_uri == (match application_uri { Some(t) => Some(t@), None => None::<Seq<char>> }),
            r@.endpoint_url == (match endpoint_url { Some(t) => Some(t@), None => None::<Seq<char>> }),
    {
        ResolvedIdentity {
            kind: ResolvedIdentityKind::Anonymous,
            application_uri: copy_opt_string(application_uri),
            endpoint_url: copy_opt_string(endpoint_url),
        }
    }

    /// A user-name identity.
    pub fn username(username: &str, application_uri: Option<&str>, endpoint_url: Option<&str>) -> (r: Self)
        ensures
            r@.kind == IdentityKindView::UserName(username@),
            r@.application_uri == (match application_uri { Some(t) => Some(t@), None => None::<Seq<char>> }),
            r@.endpoint_url == (match endpoint_url { Some(t) => Some(t@), None => None::<Seq<char>> }),
    {
        ResolvedIdentity {
            kind: ResolvedIdentityKind::UserName(username.to_owned()),
            application_uri: copy_opt_string(application_uri),
            endpoint_url: copy_opt_string(endpoint_url),
        }
    }

    /// An X.509 identity, known by its certificate thumbprint.
    pub fn x509_thumbprint(thumbprint: &str, application_uri: Option<&str>, endpoint_url: Option<&str>) -> (r:
        Self)
        ensures
            r@.kind == IdentityKindView::X509Thumbprint(thumbprint@),
            r@.application_uri == (match application_uri { Some(t) => Some(t@), None => None::<Seq<char>> }),
            r@.endpoint_url == (match endpoint_url { Some(t) => Some(t@), None => None::<Seq<char>> }),
    {
        ResolvedIdentity {
            kind: ResolvedIdentityKind::X509Thumbprint(thumbprint.to_owned()),
            application_uri: copy_opt_string(application_uri),
            endpoint_url: copy_opt_string(endpoint_url),
        }
    }

    /// An issued-token identity with its group ids and role ids.
    pub fn issued_token(
        group_ids: Vec<String>,
        role_ids: Vec<NodeId>,
        application_uri: Option<&str>,
        endpoint_url: Option<&str>,
    ) -> (r: Self)
        ensures
            r@.kind == (IdentityKindView::IssuedToken {
                group_ids: string_views(group_ids@),
                role_ids: id_views(role_ids@),
            }),
            r@.application_uri == (match application_uri { Some(t) => Some(t@), None => None::<Seq<char>> }),
            r@.endpoint_url == (match endpoint_url { Some(t) => Some(t@), None => None::<Seq<char>> }),
    {
        ResolvedIdentity {
            kind: ResolvedIdentityKind::IssuedToken { group_ids, role_ids },
            application_uri: copy_opt_string(application_uri),
            endpoint_url: copy_opt_string(endpoint_url),
        }
    }

    /// Whether this is an anonymous identity.
    pub fn is_anonymous(&self) -> (r: bool)
        ensures
            r == (self@.kind is Anonymous),
    {
        matches!(self.kind, ResolvedIdentityKind::Anonymous)
    }
}

/// The identity rules, excluded applications and excluded endpoints of one role.
#[derive(Debug)]
pub struct RoleRules {
    node_id: NodeId,
    identity_rules: Vec<IdentityMappingRule>,
    applications: Vec<String>,
    endpoints: Vec<String>,
    runtime: bool,
}

/// Mathematical view of [`RoleRules`].
pub struct RoleRulesView {
    pub node_id: NodeIdView,
    pub rules: Seq<RuleView>,
    pub applications: Seq<Seq<char>>,
    pub endpoints: Seq<Seq<char>>,
    pub runtime: bool,
}

/// The views of a sequence of rules.
pub open spec fn rule_views(rules: Seq<IdentityMappingRule>) -> Seq<RuleView> {
    rules.map_values(|r: IdentityMappingRule| r@)
}

impl View for RoleRules {
    type V = RoleRulesView;

    closed spec fn view(&self) -> RoleRulesView {
        RoleRulesView {
            node_id: self.node_id@,
            rules: rule_views(self.identity_rules@),
            applications: string_views(self.applications@),
            endpoints: string_views(self.endpoints@),
            runtime: self.runtime,
        }
    }
}

/// Resolves activated session identities to granted OPC UA role node ids.
#[derive(Debug)]
pub struct RoleResolver {
    roles: Vec<RoleRules>,
}

/// The views of a sequence of role rules.
pub open spec fn role_views(roles: Seq<RoleRules>) -> Seq<RoleRulesView> {
    roles.map_values(|r: RoleRules| r@)
}

impl View for RoleResolver {
    type V = Seq<RoleRulesView>;

    closed spec fn view(&self) -> Seq<RoleRulesView> {
        role_views(self.roles@)
    }
}

/// No two roles share a node id.
pub open spec fn roles_distinct(roles: Seq<RoleRulesView>) -> bool {
    forall|i: int, j: int| 0 <= i < roles.len() && 0 <= j < roles.len() && i != j ==> roles[i].node_id != roles[j].node_id
}

/// The index of the role with node id `id`, if any.
pub open spec fn has_role(roles: Seq<RoleRulesView>, id: NodeIdView) -> bool {
    exists|i: int| 0 <= i < roles.len() && roles[i].node_id == id
}

/// Whether `rule` matches `identity` (OPC UA Part 18, 4.4.x).
pub open spec fn rule_matches(rule: RuleView, identity: IdentityView) -> bool {
    match (rule, identity.kind) {
        (RuleView::AnonymousIdentity, IdentityKindView::Anonymous) => true,
        (RuleView::AuthenticatedUser, kind) => !(kind is Anonymous),
        (RuleView::UserName(expected), IdentityKindView::UserName(actual)) => expected == actual,
        (RuleView::Thumbprint(expected), IdentityKindView::X509Thumbprint(actual)) => eq_ignore_ascii_case(
            expected,
            actual,
        ),
        (RuleView::Role(expected), IdentityKindView::IssuedToken { role_ids, .. }) => ids_contain(
            role_ids,
            expected,
        ),
        (RuleView::GroupId(expected), IdentityKindView::IssuedToken { group_ids, .. }) => texts_contain(
            group_ids,
            expected,
        ),
        (RuleView::Application(expected), _) => identity.application_uri == Some(expected),
        _ => false,
    }
}

/// Whether some rule of `rules` matches `identity`.
pub open spec fn some_rule_matches(rules: Seq<RuleView>, identity: IdentityView) -> bool {
    exists|i: int| 0 <= i < rules.len() && rule_matches(rules[i], identity)
}

/// Whether `value` is one of the excluded `list`.
pub open spec fn excluded(list: Seq<Seq<char>>, value: Option<Seq<char>>) -> bool {
    match value {
        Some(v) => texts_contain(list, v),
        None => false,
    }
}

/// Whether `role` is granted to `identity`: one of its rules matches, and neither the
/// identity's application nor its endpoint is excluded from the role.
pub open spec fn role_granted(role: RoleRulesView, identity: IdentityView) -> bool {
    &&& some_rule_matches(role.rules, identity)
    &&& !excluded(role.applications, identity.application_uri)
    &&& !excluded(role.endpoints, identity.endpoint_url)
}

/// `values` with `v` appended unless already present.
pub open spec fn push_unique_spec(values: Seq<NodeIdView>, v: NodeIdView) -> Seq<NodeIdView> {
    if ids_contain(values, v) {
        values
    } else {
        values.push(v)
    }
}

/// The roles granted by the first `n` role entries, in order.
pub open spec fn granted_prefix(roles: Seq<RoleRulesView>, identity: IdentityView, n: nat) -> Seq<NodeIdView>
    decreases n,
{
    if n == 0 {
        Seq::<NodeIdView>::empty()
    } else {
        let prev = granted_prefix(roles, identity, (n - 1) as nat);
        let role = roles[n - 1];
        if role.node_id != role_id_view(WellKnownRole::Anonymous) && role.node_id != role_id_view(
            WellKnownRole::AuthenticatedUser,
        ) && role_granted(role, identity) {
            push_unique_spec(prev, role.node_id)
        } else {
            prev
        }
    }
}

/// The roles resolved for `identity`: `[Anonymous]` for an anonymous identity; otherwise the
/// granted roles in order, excluding the Anonymous and AuthenticatedUser entries, followed by
/// AuthenticatedUser.
pub open spec fn resolve_spec(roles: Seq<RoleRulesView>, identity: IdentityView) -> Seq<NodeIdView> {
    if identity.kind is Anonymous {
        seq![role_id_view(WellKnownRole::Anonymous)]
    } else {
        push_unique_spec(
            granted_prefix(roles, identity, roles.len()),
            role_id_view(WellKnownRole::AuthenticatedUser),
        )
    }
}

/// The initial role table: every well-known role, in RoleSet order, Anonymous with the
/// anonymous rule, AuthenticatedUser with the authenticated-user rule, the others empty.
pub open spec fn default_roles() -> Seq<RoleRulesView> {
    Seq::new(
        8,
        |i: int|
            RoleRulesView {
                node_id: role_id_view(all_roles()[i]),
                rules: if i == 0 {
                    seq![RuleView::AnonymousIdentity]
                } else if i == 1 {
                    seq![RuleView::AuthenticatedUser]
                } else {
                    Seq::<RuleView>::empty()
                },
                applications: Seq::<Seq<char>>::empty(),
                endpoints: Seq::<Seq<char>>::empty(),
                runtime: false,
            },
    )
}

/// The index of the role with node id `id` (meaningful when it exists).
pub open spec fn role_index(roles: Seq<RoleRulesView>, id: NodeIdView) -> int {
    choose|i: int| 0 <= i < roles.len() && roles[i].node_id == id
}

/// The role table after appending `rule` to the rules of role `id` (creating the role if absent).
pub open spec fn with_mapping(roles: Seq<RoleRulesView>, id: NodeIdView, rule: RuleView) -> Seq<RoleRulesView> {
    if has_role(roles, id) {
        let i = role_index(roles, id);
        roles.update(i, RoleRulesView { rules: roles[i].rules.push(rule), ..roles[i] })
    } else {
        roles.push(
            RoleRulesView {
                node_id: id,
                rules: seq![rule],
                applications: Seq::<Seq<char>>::empty(),
                endpoints: Seq::<Seq<char>>::empty(),
                runtime: false,
            },
        )
    }
}

/// `list` with every element equal to `v` removed, order kept.
pub open spec fn texts_without(list: Seq<Seq<char>>, v: Seq<char>) -> Seq<Seq<char>>
    decreases list.len(),
{
    if list.len() == 0 {
        list
    } else {
        let p = texts_without(list.drop_last(), v);
        if list.last() == v {
            p
        } else {
            p.push(list.last())
        }
    }
}

/// `rules` with every rule equal to `rule` removed, order kept.
pub open spec fn rules_without(rules: Seq<RuleView>, rule: RuleView) -> Seq<RuleView>
    decreases rules.len(),
{
    if rules.len() == 0 {
        rules
    } else {
        let p = rules_without(rules.drop_last(), rule);
        if rules.last() == rule {
            p
        } else {
            p.push(rules.last())
        }
    }
}

/// Whether `rules` holds `rule`.
pub open spec fn rules_contain(rules: Seq<RuleView>, rule: RuleView) -> bool {
    exists|i: int| 0 <= i < rules.len() && rules[i] == rule
}

/// Whether role `id` exists and was registered at runtime.
pub open spec fn is_runtime_spec(roles: Seq<RoleRulesView>, id: NodeIdView) -> bool {
    has_role(roles, id) && roles[role_index(roles, id)].runtime
}

/// The role table with the entry of role `id` replaced by `f(entry)`.
pub open spec fn update_role(
    roles: Seq<RoleRulesView>,
    id: NodeIdView,
    entry: RoleRulesView,
) -> Seq<RoleRulesView> {
    roles.update(role_index(roles, id), entry)
}

/// The entry of role `id`.
pub open spec fn role_of(roles: Seq<RoleRulesView>, id: NodeIdView) -> RoleRulesView {
    roles[role_index(roles, id)]
}

/// The configured token of a user that maps the user's identity to roles.
#[derive(Debug)]
pub struct UserTokenRoles {
    /// User name of a user-name/password token.
    pub user: String,
    /// Whether the token is a user-name/password token.
    pub is_user_pass: bool,
    /// Whether the token is an X.509 token.
    pub is_x509: bool,
    /// Hex thumbprint of the X.509 token's certificate, if configured.
    pub thumbprint: Option<String>,
    /// The roles granted to the identity of this token.
    pub roles: Vec<NodeId>,
}

/// The rule a configured token maps its identity by: a user-name rule for user-name
/// tokens, a thumbprint rule for X.509 tokens with a thumbprint, none otherwise.
pub open spec fn token_rule(t: UserTokenRoles) -> Option<RuleView> {
    if t.is_user_pass {
        Some(RuleView::UserName(t.user@))
    } else if t.is_x509 {
        match t.thumbprint {
            Some(tp) => Some(RuleView::Thumbprint(tp@)),
            None => None,
        }
    } else {
        None
    }
}

/// The role table after mapping `rule` to each of the first `k` roles of `ids`, in order.
pub open spec fn with_mappings(roles: Seq<RoleRulesView>, ids: Seq<NodeIdView>, rule: RuleView, k: nat) -> Seq<
    RoleRulesView,
>
    decreases k,
{
    if k == 0 {
        roles
    } else {
        with_mapping(with_mappings(roles, ids, rule, (k - 1) as nat), ids[k - 1], rule)
    }
}

/// The role table built from the first `t` configured tokens: the default roles, plus
/// for each token with a rule that rule mapped to each of its roles, in order.
pub open spec fn roles_from_tokens(tokens: Seq<UserTokenRoles>, t: nat) -> Seq<RoleRulesView>
    decreases t,
{
    if t == 0 {
        default_roles()
    } else {
        let prev = roles_from_tokens(tokens, (t - 1) as nat);
        let token = tokens[t - 1];
        match token_rule(token) {
            Some(rule) => with_mappings(prev, id_views(token.roles@), rule, token.roles@.len()),
            None => prev,
        }
    }
}

fn copy_rule_list(rules: &Vec<IdentityMappingRule>) -> (r: Vec<IdentityMappingRule>)
    ensures
        rule_views(r@) == rule_views(rules@),
{
    let mut r: Vec<IdentityMappingRule> = Vec::new();
    let mut i: usize = 0;
    while i < rules.len()
        invariant
            i <= rules.len(),
            r.len() == i,
            forall|j: int| 0 <= j < i ==> r@[j]@ == rules@[j]@,
        decreases rules.len() - i,
    {
        r.push(rules[i].duplicate());
        i = i + 1;
    }
    assert(rule_views(r@) =~= rule_views(rules@));
    r
}

fn strings_without(list: &Vec<String>, v: &str) -> (r: Vec<String>)
    ensures
        string_views(r@) == texts_without(string_views(list@), v@),
{
    let ghost lv = string_views(list@);
    let owned: String = v.to_owned();
    let mut r: Vec<String> = Vec::new();
    let mut i: usize = 0;
    assert(lv.take(0) =~= Seq::<Seq<char>>::empty());
    while i < list.len()
        invariant
            i <= list.len(),
            owned@ == v@,
            lv == string_views(list@),
            string_views(r@) == texts_without(lv.take(i as int), v@),
        decreases list.len() - i,
    {
        assert(lv.take(i + 1).drop_last() =~= lv.take(i as int));
        assert(lv.take(i + 1).last() == list@[i as int]@);
        if list[i] != owned {
            let ghost prev = string_views(r@);
            r.push(list[i].clone());
            assert(string_views(r@) =~= prev.push(list@[i as int]@));
        }
        i = i + 1;
    }
    assert(lv.take(list.len() as int) =~= lv);
    r
}

fn rule_list_without(list: &Vec<IdentityMappingRule>, rule: &IdentityMappingRule) -> (r: Vec<IdentityMappingRule>)
    ensures
        rule_views(r@) == rules_without(rule_views(list@), rule@),
{
    let ghost lv = rule_views(list@);
    let mut r: Vec<IdentityMappingRule> = Vec::new();
    let mut i: usize = 0;
    assert(lv.take(0) =~= Seq::<RuleView>::empty());
    while i < list.len()
        invariant
            i <= list.len(),
            lv == rule_views(list@),
            rule_views(r@) == rules_without(lv.take(i as int), rule@),
        decreases list.len() - i,
    {
        assert(lv.take(i + 1).drop_last() =~= lv.take(i as int));
        assert(lv.take(i + 1).last() == list@[i as int]@);
        if !list[i].equals(rule) {
            let ghost prev = rule_views(r@);
            r.push(list[i].duplicate());
            assert(rule_views(r@) =~= prev.push(list@[i as int]@));
        }
        i = i + 1;
    }
    assert(lv.take(list.len() as int) =~= lv);
    r
}

fn rules_contain_exec(list: &Vec<IdentityMappingRule>, rule: &IdentityMappingRule) -> (r: bool)
    ensures
        r == rules_contain(rule_views(list@), rule@),
{
    let mut i: usize = 0;
    while i < list.len()
        invariant
            i <= list.len(),
            forall|j: int| 0 <= j < i ==> list@[j]@ != rule@,
        decreases list.len() - i,
    {
        if list[i].equals(rule) {
            assert(rule_views(list@)[i as int] == rule@);
            return true;
        }
        i = i + 1;
    }
    assert forall|j: int| 0 <= j < rule_views(list@).len() implies rule_views(list@)[j] != rule@ by {
        assert(rule_views(list@)[j] == list@[j]@);
    }
    false
}

fn push_unique(values: &mut Vec<NodeId>, value: NodeId)
    ensures
        id_views(final(values)@) == push_unique_spec(id_views(old(values)@), value@),
{
    if !contains_id(values.as_slice(), &value) {
        let ghost v = value@;
        values.push(value);
        assert(id_views(values@) =~= id_views(old(values)@).push(v));
    }
}

impl RoleResolver {
    /// The role table.
    pub closed spec fn wf(&self) -> bool {
        roles_distinct(self@)
    }

    /// The default resolver: every well-known role; Anonymous is granted to anonymous
    /// identities and AuthenticatedUser to every other identity.
    pub fn new() -> (r: RoleResolver)
        ensures
            r.wf(),
            r@ == default_roles(),
    {
        let all = WellKnownRole::all();
        let mut roles: Vec<RoleRules> = Vec::new();
        let mut i: usize = 0;
        while i < all.len()
            invariant
                all@ == all_roles(),
                i <= all.len(),
                role_views(roles@) == default_roles().take(i as int),
            decreases all.len() - i,
        {
            let role = all[i];
            let mut identity_rules: Vec<IdentityMappingRule> = Vec::new();
            match role {
                WellKnownRole::Anonymous => identity_rules.push(IdentityMappingRule::AnonymousIdentity),
                WellKnownRole::AuthenticatedUser => identity_rules.push(IdentityMappingRule::AuthenticatedUser),
                _ => {},
            }
            let entry = RoleRules {
                node_id: role.node_id(),
                identity_rules,
                applications: Vec::new(),
                endpoints: Vec::new(),
                runtime: false,
            };
            assert(entry@.rules =~= default_roles()[i as int].rules);
            assert(entry@.applications =~= Seq::<Seq<char>>::empty());
            assert(entry@.endpoints =~= Seq::<Seq<char>>::empty());
            assert(entry@ == default_roles()[i as int]);
            let ghost prev = role_views(roles@);
            let ghost ev = entry@;
            roles.push(entry);
            assert(role_views(roles@) =~= prev.push(ev));
            assert(prev.push(ev) =~= default_roles().take(i + 1));
            i = i + 1;
        }
        let r = RoleResolver { roles };
        assert(r@ =~= default_roles());
        assert forall|a: int, b: int| 0 <= a < r@.len() && 0 <= b < r@.len() && a != b implies r@[a].node_id
            != r@[b].node_id by {
            crate::rbac::lemma_role_ids_distinct(all_roles()[a], all_roles()[b]);
        }
        r
    }

    fn find_role(&self, id: &NodeId) -> (r: Option<usize>)
        requires
            self.wf(),
        ensures
            match r {
                Some(i) => i < self@.len() && self@[i as int].node_id == id@ && i == role_index(self@, id@),
                None => !has_role(self@, id@),
            },
    {
        let mut i: usize = 0;
        while i < self.roles.len()
            invariant
                i <= self.roles.len(),
                self@.len() == self.roles.len(),
                self.wf(),
                forall|j: int| 0 <= j < i ==> self@[j].node_id != id@,
            decreases self.roles.len() - i,
        {
            if self.roles[i].node_id.equals(id) {
                assert(self@[i as int].node_id == id@);
                proof {
                    assert(has_role(self@, id@));
                    let k = role_index(self@, id@);
                    assert(self@[k].node_id == id@);
                    if k != i as int {
                        assert(self@[k].node_id != self@[i as int].node_id);
                    }
                }
                return Some(i);
            }
            i = i + 1;
        }
        None
    }

    /// Whether a role with node id `id` exists.
    pub fn contains_role(&self, id: &NodeId) -> (r: bool)
        requires
            self.wf(),
        ensures
            r == has_role(self@, id@),
    {
        self.find_role(id).is_some()
    }

    /// Appends `rule` to the identity rules of role `role_node_id`, creating the role if needed.
    pub fn add_mapping(&mut self, role_node_id: NodeId, rule: IdentityMappingRule)
        requires
            old(self).wf(),
        ensures
            final(self).wf(),
            final(self)@ == with_mapping(old(self)@, role_node_id@, rule@),
    {
        match self.find_role(&role_node_id) {
            Some(i) => {
                let mut role = self.roles.remove(i);
                let ghost rv = role@;
                role.identity_rules.push(rule);
                assert(role@.rules =~= rv.rules.push(rule@));
                self.roles.insert(i, role);
                assert(self@ =~= with_mapping(old(self)@, role_node_id@, rule@));
            },
            None => {
                let mut identity_rules: Vec<IdentityMappingRule> = Vec::new();
                identity_rules.push(rule);
                let entry = RoleRules {
                    node_id: role_node_id,
                    identity_rules,
                    applications: Vec::new(),
                    endpoints: Vec::new(),
                    runtime: false,
                };
                assert(entry@.rules =~= seq![rule@]);
                assert(entry@.applications =~= Seq::<Seq<char>>::empty());
                assert(entry@.endpoints =~= Seq::<Seq<char>>::empty());
                self.roles.push(entry);
                assert(self@ =~= with_mapping(old(self)@, role_node_id@, rule@));
            },
        }
    }

    /// The resolver built from the configured user tokens (see [`roles_from_tokens`]).
    pub fn from_user_tokens(user_tokens: &[UserTokenRoles]) -> (r: RoleResolver)
        ensures
            r.wf(),
            r@ == roles_from_tokens(user_tokens@, user_tokens@.len()),
    {
        let mut resolver = RoleResolver::new();
        let mut t: usize = 0;
        while t < user_tokens.len()
            invariant
                t <= user_tokens.len(),
                resolver.wf(),
                resolver@ == roles_from_tokens(user_tokens@, t as nat),
            decreases user_tokens.len() - t,
        {
            let token = &user_tokens[t];
            let rule: Option<IdentityMappingRule> = if token.is_user_pass {
                Some(IdentityMappingRule::UserName(token.user.clone()))
            } else if token.is_x509 {
                match &token.thumbprint {
                    Some(tp) => Some(IdentityMappingRule::Thumbprint(tp.clone())),
                    None => None,
                }
            } else {
                None
            };
            if token.roles.len() > 0 {
                if let Some(rule) = rule {
                    let ghost prev = resolver@;
                    let ghost ids = id_views(token.roles@);
                    let mut k: usize = 0;
                    while k < token.roles.len()
                        invariant
                            k <= token.roles.len(),
                            ids == id_views(token.roles@),
                            resolver.wf(),
                            resolver@ == with_mappings(prev, ids, rule@, k as nat),
                        decreases token.roles.len() - k,
                    {
                        assert(ids[k as int] == token.roles@[k as int]@);
                        resolver.add_mapping(token.roles[k].duplicate(), rule.duplicate());
                        k = k + 1;
                    }
                }
            }
            assert(token_rule(user_tokens@[t as int]) == match rule {
                Some(r) => Some(r@),
                None => None,
            });
            t = t + 1;
        }
        resolver
    }

    fn matches_rule(rule: &IdentityMappingRule, identity: &ResolvedIdentity) -> (r: bool)
        ensures
            r == rule_matches(rule@, identity@),
    {
        match (rule, &identity.kind) {
            (IdentityMappingRule::AnonymousIdentity, ResolvedIdentityKind::Anonymous) => true,
            (IdentityMappingRule::AuthenticatedUser, kind) => !matches!(kind, ResolvedIdentityKind::Anonymous),
            (IdentityMappingRule::UserName(expected), ResolvedIdentityKind::UserName(actual)) => *expected
                == *actual,
            (IdentityMappingRule::Thumbprint(expected), ResolvedIdentityKind::X509Thumbprint(actual)) => {
                str_eq_ignore_ascii_case(expected.as_str(), actual.as_str())
            },
            (IdentityMappingRule::Role(expected), ResolvedIdentityKind::IssuedToken { role_ids, .. }) => {
                contains_id(role_ids.as_slice(), expected)
            },
            (IdentityMappingRule::GroupId(expected), ResolvedIdentityKind::IssuedToken { group_ids, .. }) => {
                contains_text(group_ids.as_slice(), expected.as_str())
            },
            (IdentityMappingRule::Application(expected), _) => match &identity.application_uri {
                Some(actual) => *actual == *expected,
                None => false,
            },
            _ => false,
        }
    }

    fn any_rule_matches(role: &RoleRules, identity: &ResolvedIdentity) -> (r: bool)
        ensures
            r == some_rule_matches(role@.rules, identity@),
    {
        let mut i: usize = 0;
        while i < role.identity_rules.len()
            invariant
                i <= role.identity_rules.len(),
                role@.rules == rule_views(role.identity_rules@),
                forall|j: int| 0 <= j < i ==> !rule_matches(role@.rules[j], identity@),
            decreases role.identity_rules.len() - i,
        {
            if Self::matches_rule(&role.identity_rules[i], identity) {
                assert(rule_matches(role@.rules[i as int], identity@));
                return true;
            }
            i = i + 1;
        }
        false
    }

    fn role_granted_to(role: &RoleRules, identity: &ResolvedIdentity) -> (r: bool)
        ensures
            r == role_granted(role@, identity@),
    {
        let any = Self::any_rule_matches(role, identity);
        if !any {
            return false;
        }
        let app_excluded = match &identity.application_uri {
            Some(app) => contains_text(role.applications.as_slice(), app.as_str()),
            None => false,
        };
        let endpoint_excluded = match &identity.endpoint_url {
            Some(url) => contains_text(role.endpoints.as_slice(), url.as_str()),
            None => false,
        };
        !app_excluded && !endpoint_excluded
    }

    /// Removes every rule equal to `rule` from role `id`; returns whether one was present.
    pub fn remove_mapping(&mut self, id: &NodeId, rule: &IdentityMappingRule) -> (r: bool)
        requires
            old(self).wf(),
        ensures
            final(self).wf(),
            r == (has_role(old(self)@, id@) && rules_contain(role_of(old(self)@, id@).rules, rule@)),
            final(self)@ == if r {
                update_role(
                    old(self)@,
                    id@,
                    RoleRulesView {
                        rules: rules_without(role_of(old(self)@, id@).rules, rule@),
                        ..role_of(old(self)@, id@)
                    },
                )
            } else {
                old(self)@
            },
    {
        let i = match self.find_role(id) {
            Some(i) => i,
            None => {
                return false;
            },
        };
        if !rules_contain_exec(&self.roles[i].identity_rules, rule) {
            return false;
        }
        let mut role = self.roles.remove(i);
        role.identity_rules = rule_list_without(&role.identity_rules, rule);
        self.roles.insert(i, role);
        assert(self@ =~= update_role(
            old(self)@,
            id@,
            RoleRulesView {
                rules: rules_without(role_of(old(self)@, id@).rules, rule@),
                ..role_of(old(self)@, id@)
            },
        ));
        true
    }

    /// Excludes the client application `application_uri` from role `id`; returns `false`
    /// (changing nothing) when the role is unknown or the application is already excluded.
    pub fn add_application(&mut self, id: &NodeId, application_uri: String) -> (r: bool)
        requires
            old(self).wf(),
        ensures
            final(self).wf(),
            r == (has_role(old(self)@, id@) && !texts_contain(
                role_of(old(self)@, id@).applications,
                application_uri@,
            )),
            final(self)@ == if r {
                update_role(
                    old(self)@,
                    id@,
                    RoleRulesView {
                        applications: role_of(old(self)@, id@).applications.push(application_uri@),
                        ..role_of(old(self)@, id@)
                    },
                )
            } else {
                old(self)@
            },
    {
        let i = match self.find_role(id) {
            Some(i) => i,
            None => {
                return false;
            },
        };
        if contains_text(self.roles[i].applications.as_slice(), application_uri.as_str()) {
            return false;
        }
        let mut role = self.roles.remove(i);
        let ghost prev = string_views(role.applications@);
        let ghost uri = application_uri@;
        role.applications.push(application_uri);
        assert(string_views(role.applications@) =~= prev.push(uri));
        self.roles.insert(i, role);
        assert(self@ =~= update_role(
            old(self)@,
            id@,
            RoleRulesView { applications: role_of(old(self)@, id@).applications.push(uri), ..role_of(old(self)@, id@) },
        ));
        true
    }

    /// Stops excluding the client application `application_uri` from role `id`; returns
    /// whether it was excluded.
    pub fn remove_application(&mut self, id: &NodeId, application_uri: &str) -> (r: bool)
        requires
            old(self).wf(),
        ensures
            final(self).wf(),
            r == (has_role(old(self)@, id@) && texts_contain(role_of(old(self)@, id@).applications, application_uri@)),
            final(self)@ == if r {
                update_role(
                    old(self)@,
                    id@,
                    RoleRulesView {
                        applications: texts_without(role_of(old(self)@, id@).applications, application_uri@),
                        ..role_of(old(self)@, id@)
                    },
                )
            } else {
                old(self)@
            },
    {
        let i = match self.find_role(id) {
            Some(i) => i,
            None => {
                return false;
            },
        };
        if !contains_text(self.roles[i].applications.as_slice(), application_uri) {
            return false;
        }
        let mut role = self.roles.remove(i);
        role.applications = strings_without(&role.applications, application_uri);
        self.roles.insert(i, role);
        assert(self@ =~= update_role(
            old(self)@,
            id@,
            RoleRulesView {
                applications: texts_without(role_of(old(self)@, id@).applications, application_uri@),
                ..role_of(old(self)@, id@)
            },
        ));
        true
    }

    /// Excludes the endpoint `endpoint_url` from role `id`; returns `false` (changing nothing)
    /// when the role is unknown or the endpoint is already excluded.
    pub fn add_endpoint(&mut self, id: &NodeId, endpoint_url: String) -> (r: bool)
        requires
            old(self).wf(),
        ensures
            final(self).wf(),
            r == (has_role(old(self)@, id@) && !texts_contain(role_of(old(self)@, id@).endpoints, endpoint_url@)),
            final(self)@ == if r {
                update_role(
                    old(self)@,
                    id@,
                    RoleRulesView {
                        endpoints: role_of(old(self)@, id@).endpoints.push(endpoint_url@),
                        ..role_of(old(self)@, id@)
                    },
                )
            } else {
                old(self)@
            },
    {
        let i = match self.find_role(id) {
            Some(i) => i,
            None => {
                return false;
            },
        };
        if contains_text(self.roles[i].endpoints.as_slice(), endpoint_url.as_str()) {
            return false;
        }
        let mut role = self.roles.remove(i);
        let ghost prev = string_views(role.endpoints@);
        let ghost url = endpoint_url@;
        role.endpoints.push(endpoint_url);
        assert(string_views(role.endpoints@) =~= prev.push(url));
        self.roles.insert(i, role);
        assert(self@ =~= update_role(
            old(self)@,
            id@,
            RoleRulesView { endpoints: role_of(old(self)@, id@).endpoints.push(url), ..role_of(old(self)@, id@) },
        ));
        true
    }

    /// Stops excluding the endpoint `endpoint_url` from role `id`; returns whether it was excluded.
    pub fn remove_endpoint(&mut self, id: &NodeId, endpoint_url: &str) -> (r: bool)
        requires
            old(self).wf(),
        ensures
            final(self).wf(),
            r == (has_role(old(self)@, id@) && texts_contain(role_of(old(self)@, id@).endpoints, endpoint_url@)),
            final(self)@ == if r {
                update_role(
                    old(self)@,
                    id@,
                    RoleRulesView {
                        endpoints: texts_without(role_of(old(self)@, id@).endpoints, endpoint_url@),
                        ..role_of(old(self)@, id@)
                    },
                )
            } else {
                old(self)@
            },
    {
        let i = match self.find_role(id) {
            Some(i) => i,
            None => {
                return false;
            },
        };
        if !contains_text(self.roles[i].endpoints.as_slice(), endpoint_url) {
            return false;
        }
        let mut role = self.roles.remove(i);
        role.endpoints = strings_without(&role.endpoints, endpoint_url);
        self.roles.insert(i, role);
        assert(self@ =~= update_role(
            old(self)@,
            id@,
            RoleRulesView {
                endpoints: texts_without(role_of(old(self)@, id@).endpoints, endpoint_url@),
                ..role_of(old(self)@, id@)
            },
        ));
        true
    }

    /// Registers a role created at runtime (no rules, no exclusions); a known role is left as is.
    pub fn register_role(&mut self, id: NodeId)
        requires
            old(self).wf(),
        ensures
            final(self).wf(),
            final(self)@ == if has_role(old(self)@, id@) {
                old(self)@
            } else {
                old(self)@.push(
                    RoleRulesView {
                        node_id: id@,
                        rules: Seq::<RuleView>::empty(),
                        applications: Seq::<Seq<char>>::empty(),
                        endpoints: Seq::<Seq<char>>::empty(),
                        runtime: true,
                    },
                )
            },
    {
        if self.find_role(&id).is_some() {
            return;
        }
        let entry = RoleRules {
            node_id: id,
            identity_rules: Vec::new(),
            applications: Vec::new(),
            endpoints: Vec::new(),
            runtime: true,
        };
        assert(entry@.rules =~= Seq::<RuleView>::empty());
        assert(entry@.applications =~= Seq::<Seq<char>>::empty());
        assert(entry@.endpoints =~= Seq::<Seq<char>>::empty());
        let ghost ev = entry@;
        self.roles.push(entry);
        assert(self@ =~= old(self)@.push(ev));
    }

    /// Whether role `id` exists and was registered at runtime.
    pub fn is_runtime_role(&self, id: &NodeId) -> (r: bool)
        requires
            self.wf(),
        ensures
            r == is_runtime_spec(self@, id@),
    {
        match self.find_role(id) {
            Some(i) => self.roles[i].runtime,
            None => false,
        }
    }

    /// Removes role `id` if it was registered at runtime; returns whether it was removed.
    pub fn remove_role(&mut self, id: &NodeId) -> (r: bool)
        requires
            old(self).wf(),
        ensures
            final(self).wf(),
            r == is_runtime_spec(old(self)@, id@),
            final(self)@ == if r {
                old(self)@.remove(role_index(old(self)@, id@))
            } else {
                old(self)@
            },
    {
        match self.find_role(id) {
            Some(i) => {
                if self.roles[i].runtime {
                    let _removed = self.roles.remove(i);
                    assert(self@ =~= old(self)@.remove(i as int));
                    true
                } else {
                    false
                }
            },
            None => false,
        }
    }

    /// The roles granted to `identity`.
    pub fn resolve(&self, identity: &ResolvedIdentity) -> (r: Vec<NodeId>)
        ensures
            id_views(r@) == resolve_spec(self@, identity@),
    {
        if identity.is_anonymous() {
            let mut r: Vec<NodeId> = Vec::new();
            r.push(WellKnownRole::Anonymous.node_id());
            assert(id_views(r@) =~= resolve_spec(self@, identity@));
            return r;
        }
        let anonymous = WellKnownRole::Anonymous.node_id();
        let authenticated_user = WellKnownRole::AuthenticatedUser.node_id();
        let mut granted: Vec<NodeId> = Vec::new();
        let mut i: usize = 0;
        assert(id_views(granted@) =~= granted_prefix(self@, identity@, 0));
        while i < self.roles.len()
            invariant
                i <= self.roles.len(),
                self@.len() == self.roles.len(),
                anonymous@ == role_id_view(WellKnownRole::Anonymous),
                authenticated_user@ == role_id_view(WellKnownRole::AuthenticatedUser),
                id_views(granted@) == granted_prefix(self@, identity@, i as nat),
            decreases self.roles.len() - i,
        {
            let role = &self.roles[i];
            assert(self@[i as int] == role@);
            if !role.node_id.equals(&anonymous) && !role.node_id.equals(&authenticated_user)
                && Self::role_granted_to(role, identity) {
                push_unique(&mut granted, role.node_id.duplicate());
            }
            i = i + 1;
        }
        push_unique(&mut granted, authenticated_user);
        granted
    }
}

/// Whether role entry `j` of `roles` contributes its id to a resolution for `identity`.
pub open spec fn contributes(roles: Seq<RoleRulesView>, identity: IdentityView, j: int) -> bool {
    &&& roles[j].node_id != role_id_view(WellKnownRole::Anonymous)
    &&& roles[j].node_id != role_id_view(WellKnownRole::AuthenticatedUser)
    &&& role_granted(roles[j], identity)
}

/// Whether a sequence of ids has no duplicates.
pub open spec fn ids_distinct(ids: Seq<NodeIdView>) -> bool {
    forall|a: int, b: int| 0 <= a < ids.len() && 0 <= b < ids.len() && a != b ==> ids[a] != ids[b]
}

proof fn lemma_push_unique(values: Seq<NodeIdView>, v: NodeIdView)
    requires
        ids_distinct(values),
    ensures
        ids_distinct(push_unique_spec(values, v)),
        forall|x: NodeIdView| ids_contain(push_unique_spec(values, v), x) <==> (ids_contain(values, x) || x == v),
{
    let r = push_unique_spec(values, v);
    if !ids_contain(values, v) {
        assert forall|x: NodeIdView| ids_contain(r, x) <==> (ids_contain(values, x) || x == v) by {
            if ids_contain(r, x) {
                let k = choose|k: int| 0 <= k < r.len() && r[k] == x;
                if k < values.len() {
                    assert(values[k] == x);
                }
            }
            if ids_contain(values, x) {
                let k = choose|k: int| 0 <= k < values.len() && values[k] == x;
                assert(r[k] == x);
            }
            if x == v {
                assert(r[values.len() as int] == x);
            }
        }
    }
}

proof fn lemma_granted_prefix(roles: Seq<RoleRulesView>, identity: IdentityView, n: nat)
    requires
        n <= roles.len(),
    ensures
        ids_distinct(granted_prefix(roles, identity, n)),
        forall|x: NodeIdView| #[trigger] ids_contain(granted_prefix(roles, identity, n), x) <==> (exists|j: int|
            0 <= j < n && roles[j].node_id == x && contributes(roles, identity, j)),
    decreases n,
{
    if n > 0 {
        lemma_granted_prefix(roles, identity, (n - 1) as nat);
        let prev = granted_prefix(roles, identity, (n - 1) as nat);
        lemma_push_unique(prev, roles[n - 1].node_id);
        let cur = granted_prefix(roles, identity, n);
        assert forall|x: NodeIdView| #[trigger] ids_contain(cur, x) <==> (exists|j: int|
            0 <= j < n && roles[j].node_id == x && contributes(roles, identity, j)) by {
            if ids_contain(cur, x) {
                if ids_contain(prev, x) {
                    let j = choose|j: int| 0 <= j < n - 1 && roles[j].node_id == x && contributes(roles, identity, j);
                    assert(0 <= j < n && roles[j].node_id == x && contributes(roles, identity, j));
                } else {
                    assert(roles[n - 1].node_id == x && contributes(roles, identity, n - 1));
                }
            }
            if exists|j: int| 0 <= j < n && roles[j].node_id == x && contributes(roles, identity, j) {
                let j = choose|j: int| 0 <= j < n && roles[j].node_id == x && contributes(roles, identity, j);
                if j < n - 1 {
                    assert(ids_contain(prev, x));
                }
            }
        }
    } else {
        assert forall|x: NodeIdView| #[trigger] ids_contain(granted_prefix(roles, identity, n), x) <==> (exists|j: int|
            0 <= j < n && roles[j].node_id == x && contributes(roles, identity, j)) by {
        }
    }
}

/// An anonymous identity resolves to the Anonymous role only.
pub proof fn law_anonymous_resolves_to_anonymous_only(roles: Seq<RoleRulesView>, identity: IdentityView)
    requires
        identity.kind is Anonymous,
    ensures
        resolve_spec(roles, identity) == seq![role_id_view(WellKnownRole::Anonymous)],
{
}

/// A resolution for a non-anonymous identity has no duplicates, always holds AuthenticatedUser,
/// never holds Anonymous, and holds any other role id exactly when an entry with that id is
/// granted (one of its rules matches and neither the application nor the endpoint is excluded).
pub proof fn law_resolution_membership(roles: Seq<RoleRulesView>, identity: IdentityView, x: NodeIdView)
    requires
        !(identity.kind is Anonymous),
    ensures
        ids_distinct(resolve_spec(roles, identity)),
        ids_contain(resolve_spec(roles, identity), role_id_view(WellKnownRole::AuthenticatedUser)),
        !ids_contain(resolve_spec(roles, identity), role_id_view(WellKnownRole::Anonymous)),
        x != role_id_view(WellKnownRole::AuthenticatedUser) ==> (ids_contain(resolve_spec(roles, identity), x)
            <==> exists|j: int| 0 <= j < roles.len() && roles[j].node_id == x && contributes(roles, identity, j)),
{
    lemma_granted_prefix(roles, identity, roles.len());
    let g = granted_prefix(roles, identity, roles.len());
    lemma_push_unique(g, role_id_view(WellKnownRole::AuthenticatedUser));
    crate::rbac::lemma_role_ids_distinct(WellKnownRole::Anonymous, WellKnownRole::AuthenticatedUser);
    if ids_contain(g, role_id_view(WellKnownRole::Anonymous)) {
        let j = choose|j: int| 0 <= j < roles.len() && roles[j].node_id == role_id_view(WellKnownRole::Anonymous)
            && contributes(roles, identity, j);
    }
    assert(ids_contain(g, x) <==> exists|j: int| 0 <= j < roles.len() && roles[j].node_id == x && contributes(roles, identity, j));
    assert(ids_contain(resolve_spec(roles, identity), x) <==> (ids_contain(g, x) || x == role_id_view(WellKnownRole::AuthenticatedUser)));
}

proof fn lemma_role_index_unique(roles: Seq<RoleRulesView>, id: NodeIdView, i: int)
    requires
        roles_distinct(roles),
        0 <= i < roles.len(),
        roles[i].node_id == id,
    ensures
        has_role(roles, id),
        role_index(roles, id) == i,
{
    assert(has_role(roles, id));
    let k = role_index(roles, id);
    if k != i {
        assert(roles[k].node_id != roles[i].node_id);
    }
}

/// Excluding an application from a role keeps that role from every identity of that
/// application: after `add_application(id, uri)`, an identity whose application URI is `uri`
/// is not granted `id` (unless `id` is AuthenticatedUser, which every identity holds).
pub proof fn law_application_exclusion(roles: Seq<RoleRulesView>, id: NodeIdView, uri: Seq<char>, identity: IdentityView)
    requires
        roles_distinct(roles),
        has_role(roles, id),
        identity.application_uri == Some(uri),
        !(identity.kind is Anonymous),
        id != role_id_view(WellKnownRole::AuthenticatedUser),
    ensures
        !ids_contain(
            resolve_spec(
                update_role(
                    roles,
                    id,
                    RoleRulesView { applications: role_of(roles, id).applications.push(uri), ..role_of(roles, id) },
                ),
                identity,
            ),
            id,
        ),
{
    let i = role_index(roles, id);
    let e = role_of(roles, id);
    let ne = RoleRulesView { applications: e.applications.push(uri), ..e };
    let new_roles = update_role(roles, id, ne);
    assert(new_roles[i].applications[e.applications.len() as int] == uri);
    assert(excluded(new_roles[i].applications, identity.application_uri));
    law_resolution_membership(new_roles, identity, id);
    if exists|j: int| 0 <= j < new_roles.len() && new_roles[j].node_id == id && contributes(new_roles, identity, j) {
        let j = choose|j: int| 0 <= j < new_roles.len() && new_roles[j].node_id == id && contributes(new_roles, identity, j);
        if j != i {
            assert(roles[j].node_id != roles[i].node_id);
        }
    }
}

/// Excluding an endpoint from a role keeps that role from every identity connected through
/// that endpoint (unless the role is AuthenticatedUser, which every identity holds).
pub proof fn law_endpoint_exclusion(roles: Seq<RoleRulesView>, id: NodeIdView, url: Seq<char>, identity: IdentityView)
    requires
        roles_distinct(roles),
        has_role(roles, id),
        identity.endpoint_url == Some(url),
        !(identity.kind is Anonymous),
        id != role_id_view(WellKnownRole::AuthenticatedUser),
    ensures
        !ids_contain(
            resolve_spec(
                update_role(
                    roles,
                    id,
                    RoleRulesView { endpoints: role_of(roles, id).endpoints.push(url), ..role_of(roles, id) },
                ),
                identity,
            ),
            id,
        ),
{
    let i = role_index(roles, id);
    let e = role_of(roles, id);
    let ne = RoleRulesView { endpoints: e.endpoints.push(url), ..e };
    let new_roles = update_role(roles, id, ne);
    assert(new_roles[i].endpoints[e.endpoints.len() as int] == url);
    assert(excluded(new_roles[i].endpoints, identity.endpoint_url));
    law_resolution_membership(new_roles, identity, id);
    if exists|j: int| 0 <= j < new_roles.len() && new_roles[j].node_id == id && contributes(new_roles, identity, j) {
        let j = choose|j: int| 0 <= j < new_roles.len() && new_roles[j].node_id == id && contributes(new_roles, identity, j);
        if j != i {
            assert(roles[j].node_id != roles[i].node_id);
        }
    }
}

proof fn lemma_texts_without_absent(list: Seq<Seq<char>>, v: Seq<char>)
    requires
        !texts_contain(list, v),
    ensures
        texts_without(list, v) == list,
    decreases list.len(),
{
    if list.len() > 0 {
        assert(!texts_contain(list.drop_last(), v)) by {
            if texts_contain(list.drop_last(), v) {
                let k = choose|k: int| 0 <= k < list.drop_last().len() && list.drop_last()[k] == v;
                assert(list[k] == v);
            }
        }
        lemma_texts_without_absent(list.drop_last(), v);
        assert(list.last() != v);
        assert(list.drop_last().push(list.last()) =~= list);
    }
}

/// Removing an exclusion right after adding it restores the role table: for a role whose
/// applications do not hold `uri`, `add_application` then `remove_application` of `uri`
/// leaves the table as it was.
pub proof fn law_application_add_remove_round_trip(roles: Seq<RoleRulesView>, id: NodeIdView, uri: Seq<char>)
    requires
        roles_distinct(roles),
        has_role(roles, id),
        !texts_contain(role_of(roles, id).applications, uri),
    ensures
        ({
            let mid = update_role(
                roles,
                id,
                RoleRulesView { applications: role_of(roles, id).applications.push(uri), ..role_of(roles, id) },
            );
            update_role(
                mid,
                id,
                RoleRulesView { applications: texts_without(role_of(mid, id).applications, uri), ..role_of(mid, id) },
            )
        }) == roles,
{
    let i = role_index(roles, id);
    let e = role_of(roles, id);
    let mid = update_role(roles, id, RoleRulesView { applications: e.applications.push(uri), ..e });
    assert(roles_distinct(mid)) by {
        assert forall|a: int, b: int| 0 <= a < mid.len() && 0 <= b < mid.len() && a != b implies mid[a].node_id
            != mid[b].node_id by {
            assert(mid[a].node_id == roles[a].node_id);
            assert(mid[b].node_id == roles[b].node_id);
        }
    }
    lemma_role_index_unique(mid, id, i);
    lemma_texts_without_absent(e.applications, uri);
    assert(e.applications.push(uri).drop_last() =~= e.applications);
    assert(texts_without(e.applications.push(uri), uri) == e.applications);
    let fin = update_role(
        mid,
        id,
        RoleRulesView { applications: texts_without(role_of(mid, id).applications, uri), ..role_of(mid, id) },
    );
    assert(fin =~= roles);
}

/// Mapping a rule to a role grants that role: after `add_mapping(id, rule)`, a non-anonymous
/// identity that `rule` matches, whose application and endpoint the role does not exclude,
/// resolves to a set holding `id`.
pub proof fn law_mapping_grants_role(roles: Seq<RoleRulesView>, id: NodeIdView, rule: RuleView, identity: IdentityView)
    requires
        roles_distinct(roles),
        !(identity.kind is Anonymous),
        rule_matches(rule, identity),
        id != role_id_view(WellKnownRole::Anonymous),
        has_role(roles, id) ==> !excluded(role_of(roles, id).applications, identity.application_uri)
            && !excluded(role_of(roles, id).endpoints, identity.endpoint_url),
    ensures
        ids_contain(resolve_spec(with_mapping(roles, id, rule), identity), id),
{
    let new_roles = with_mapping(roles, id, rule);
    law_resolution_membership(new_roles, identity, id);
    if id != role_id_view(WellKnownRole::AuthenticatedUser) {
        if has_role(roles, id) {
            let i = role_index(roles, id);
            let rules = roles[i].rules.push(rule);
            assert(rules[rules.len() - 1] == rule);
            assert(some_rule_matches(new_roles[i].rules, identity));
            assert(contributes(new_roles, identity, i));
        } else {
            let i = roles.len() as int;
            assert(new_roles[i].rules[0] == rule);
            assert(some_rule_matches(new_roles[i].rules, identity));
            assert(contributes(new_roles, identity, i));
        }
    }
}

/// A Role mapping rule matches exactly the issued-token identities that carry that role:
/// `Role(x)` matches an identity if and only if it is an issued token whose role ids
/// hold `x`.
pub proof fn law_role_rule_matches_carried_role(x: NodeIdView, identity: IdentityView)
    ensures
        rule_matches(RuleView::Role(x), identity) <==> (identity.kind matches IdentityKindView::IssuedToken {
            role_ids,
            ..
        } && role_ids.contains(x)),
{
    if let IdentityKindView::IssuedToken { role_ids, .. } = identity.kind {
        if role_ids.contains(x) {
            let i = choose|i: int| 0 <= i < role_ids.len() && role_ids[i] == x;
            assert(ids_contain(role_ids, x));
        }
        if ids_contain(role_ids, x) {
            let i = choose|i: int| 0 <= i < role_ids.len() && role_ids[i] == x;
            assert(role_ids[i] == x);
            assert(role_ids.contains(x));
        }
    }
}

proof fn lemma_push_unique_contains(values: Seq<NodeIdView>, v: NodeIdView, w: NodeIdView)
    ensures
        push_unique_spec(values, v).contains(w) <==> (values.contains(w) || w == v),
{
    if ids_contain(values, v) {
        let i = choose|i: int| 0 <= i < values.len() && values[i] == v;
        assert(values.contains(v));
    } else {
        let p = values.push(v);
        assert(p[values.len() as int] == v);
        if values.contains(w) {
            let i = choose|i: int| 0 <= i < values.len() && values[i] == w;
            assert(p[i] == w);
        }
        if p.contains(w) && w != v {
            let i = choose|i: int| 0 <= i < p.len() && p[i] == w;
            assert(values[i] == w);
        }
    }
}

proof fn lemma_granted_prefix_contains(roles: Seq<RoleRulesView>, identity: IdentityView, n: nat, j: int)
    requires
        0 <= j < n <= roles.len(),
        roles[j].node_id != role_id_view(WellKnownRole::Anonymous),
        roles[j].node_id != role_id_view(WellKnownRole::AuthenticatedUser),
        role_granted(roles[j], identity),
    ensures
        granted_prefix(roles, identity, n).contains(roles[j].node_id),
    decreases n,
{
    let prev = granted_prefix(roles, identity, (n - 1) as nat);
    let role = roles[n - 1];
    if j < n - 1 {
        lemma_granted_prefix_contains(roles, identity, (n - 1) as nat, j);
        if role.node_id != role_id_view(WellKnownRole::Anonymous) && role.node_id != role_id_view(
            WellKnownRole::AuthenticatedUser,
        ) && role_granted(role, identity) {
            lemma_push_unique_contains(prev, role.node_id, roles[j].node_id);
        }
    } else {
        lemma_push_unique_contains(prev, role.node_id, roles[j].node_id);
    }
}

/// Mapping a Role rule onto a role grants that role to every issued-token identity that
/// carries the rule's role id: after `add_mapping(id, Role(x))`, an issued token whose
/// role ids hold `x` resolves to roles that include `id` (a role other than Anonymous and
/// AuthenticatedUser, from which the identity's application and endpoint are not
/// excluded).
pub proof fn law_role_mapping_grants_role(
    roles: Seq<RoleRulesView>,
    id: NodeIdView,
    x: NodeIdView,
    identity: IdentityView,
)
    requires
        id != role_id_view(WellKnownRole::Anonymous),
        id != role_id_view(WellKnownRole::AuthenticatedUser),
        identity.kind matches IdentityKindView::IssuedToken { role_ids, .. } && role_ids.contains(x),
        forall|i: int|
            0 <= i < roles.len() && (#[trigger] roles[i]).node_id == id ==> !excluded(roles[i].applications, identity.application_uri)
                && !excluded(roles[i].endpoints, identity.endpoint_url),
    ensures
        resolve_spec(with_mapping(roles, id, RuleView::Role(x)), identity).contains(id),
{
    let after = with_mapping(roles, id, RuleView::Role(x));
    law_role_rule_matches_carried_role(x, identity);
    let j: int = if has_role(roles, id) {
        role_index(roles, id)
    } else {
        roles.len() as int
    };
    let role = after[j];
    assert(role.node_id == id);
    assert(role.rules.last() == RuleView::Role(x));
    assert(rule_matches(role.rules[role.rules.len() - 1], identity));
    assert(some_rule_matches(role.rules, identity));
    if has_role(roles, id) {
        assert(roles[j].node_id == id);
    }
    assert(role_granted(role, identity));
    lemma_granted_prefix_contains(after, identity, after.len(), j);
    lemma_push_unique_contains(
        granted_prefix(after, identity, after.len()),
        role_id_view(WellKnownRole::AuthenticatedUser),
        id,
    );
}

} // verus!
