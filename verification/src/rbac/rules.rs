//! Identity mapping rules (OPC UA Part 18 `IdentityMappingRuleType` criteria) as used for
//! role resolution.

use vstd::prelude::*;
use crate::node_id::{
    NodeId, NodeIdView, format_node_id, node_id_text, parse_node_id, parsed_node_id, simple_node_id_text, text_form_reads_back,
};
use crate::status::StatusCode;

verus! {

/// The kinds of identity mapping criteria (OPC UA Part 18, `IdentityCriteriaType`).
#[derive(Debug, Clone, Copy, PartialEq, Eq, Structural)]
pub enum IdentityCriteriaType {
    UserName,
    Thumbprint,
    Role,
    GroupId,
    Anonymous,
    AuthenticatedUser,
    Application,
    X509Subject,
    TrustedApplication,
}

/// The wire form of an identity mapping rule: a criteria type and a (possibly null) criteria text.
#[derive(Debug)]
pub struct IdentityMappingRuleType {
    pub criteria_type: IdentityCriteriaType,
    pub criteria: Option<String>,
}

/// Runtime representation of an identity mapping rule used for role resolution.
#[derive(Debug)]
pub enum IdentityMappingRule {
    /// Matches anonymous identities.
    AnonymousIdentity,
    /// Matches any successfully authenticated non-anonymous identity.
    AuthenticatedUser,
    /// Matches a user-name identity by user name.
    UserName(String),
    /// Matches an X.509 identity by certificate thumbprint.
    Thumbprint(String),
    /// Matches an identity that has already been granted the referenced role.
    Role(NodeId),
    /// Matches an issued-token identity by group identifier.
    GroupId(String),
    /// Matches a client application URI.
    Application(String),
}

/// Mathematical view of an [`IdentityMappingRule`].
pub enum RuleView {
    AnonymousIdentity,
    AuthenticatedUser,
    UserName(Seq<char>),
    Thumbprint(Seq<char>),
    Role(NodeIdView),
    GroupId(Seq<char>),
    Application(Seq<char>),
}

impl View for IdentityMappingRule {
    type V = RuleView;

    open spec fn view(&self) -> RuleView {
        match self {
            IdentityMappingRule::AnonymousIdentity => RuleView::AnonymousIdentity,
            IdentityMappingRule::AuthenticatedUser => RuleView::AuthenticatedUser,
            IdentityMappingRule::UserName(s) => RuleView::UserName(s@),
            IdentityMappingRule::Thumbprint(s) => RuleView::Thumbprint(s@),
            IdentityMappingRule::Role(id) => RuleView::Role(id@),
            IdentityMappingRule::GroupId(s) => RuleView::GroupId(s@),
            IdentityMappingRule::Application(s) => RuleView::Application(s@),
        }
    }
}

/// Error returned when a wire rule cannot be represented by the runtime model.
#[derive(Debug, Clone, Copy, PartialEq, Eq, Structural)]
pub enum IdentityMappingRuleConversionError {
    /// The rule used a criteria type that the runtime resolver does not support.
    UnsupportedCriteriaType(IdentityCriteriaType),
    /// The role criteria could not be parsed as a node id.
    InvalidRoleNodeId(StatusCode),
}

/// The criteria type of a rule.
pub open spec fn criteria_type_of(rule: RuleView) -> IdentityCriteriaType {
    match rule {
        RuleView::AnonymousIdentity => IdentityCriteriaType::Anonymous,
        RuleView::AuthenticatedUser => IdentityCriteriaType::AuthenticatedUser,
        RuleView::UserName(_) => IdentityCriteriaType::UserName,
        RuleView::Thumbprint(_) => IdentityCriteriaType::Thumbprint,
        RuleView::Role(_) => IdentityCriteriaType::Role,
        RuleView::GroupId(_) => IdentityCriteriaType::GroupId,
        RuleView::Application(_) => IdentityCriteriaType::Application,
    }
}

/// The criteria text of a rule; `None` stands for the null string.
pub open spec fn criteria_of(rule: RuleView) -> Option<Seq<char>> {
    match rule {
        RuleView::AnonymousIdentity | RuleView::AuthenticatedUser => None,
        RuleView::UserName(s) | RuleView::Thumbprint(s) | RuleView::GroupId(s) | RuleView::Application(
            s,
        ) => Some(s),
        RuleView::Role(id) => Some(
            if id.identifier is Numeric || id.identifier is Text {
                simple_node_id_text(id)
            } else {
                node_id_text(id)
            },
        ),
    }
}

/// The text of a possibly null criteria string (the null string reads as empty).
pub open spec fn criteria_text(c: Option<String>) -> Seq<char> {
    match c {
        Some(s) => s@,
        None => Seq::<char>::empty(),
    }
}

/// The runtime rule for a wire rule, or the conversion error.
pub open spec fn rule_from_wire(
    criteria_type: IdentityCriteriaType,
    text: Seq<char>,
) -> Result<RuleView, IdentityMappingRuleConversionError> {
    match criteria_type {
        IdentityCriteriaType::Anonymous => Ok(RuleView::AnonymousIdentity),
        IdentityCriteriaType::AuthenticatedUser => Ok(RuleView::AuthenticatedUser),
        IdentityCriteriaType::UserName => Ok(RuleView::UserName(text)),
        IdentityCriteriaType::Thumbprint => Ok(RuleView::Thumbprint(text)),
        IdentityCriteriaType::Role => match parsed_node_id(text) {
            Some(id) => Ok(RuleView::Role(id)),
            None => Err(
                IdentityMappingRuleConversionError::InvalidRoleNodeId(StatusCode::BadNodeIdInvalid),
            ),
        },
        IdentityCriteriaType::GroupId => Ok(RuleView::GroupId(text)),
        IdentityCriteriaType::Application => Ok(RuleView::Application(text)),
        _ => Err(IdentityMappingRuleConversionError::UnsupportedCriteriaType(criteria_type)),
    }
}

/// The view of a conversion result.
pub open spec fn rule_result_view(
    r: Result<IdentityMappingRule, IdentityMappingRuleConversionError>,
) -> Result<RuleView, IdentityMappingRuleConversionError> {
    match r {
        Ok(rule) => Ok(rule@),
        Err(e) => Err(e),
    }
}

impl IdentityMappingRule {
    /// Creates a rule that matches anonymous identities.
    pub fn anonymous() -> (r: Self)
        ensures
            r@ == RuleView::AnonymousIdentity,
    {
        IdentityMappingRule::AnonymousIdentity
    }

    /// Creates a rule that matches any successfully authenticated non-anonymous identity.
    pub fn authenticated_user() -> (r: Self)
        ensures
            r@ == RuleView::AuthenticatedUser,
    {
        IdentityMappingRule::AuthenticatedUser
    }

    /// Creates a rule that matches a user-name identity by user name.
    pub fn user_name(user_name: &str) -> (r: Self)
        ensures
            r@ == RuleView::UserName(user_name@),
    {
        IdentityMappingRule::UserName(user_name.to_owned())
    }

    /// Creates a rule that matches an X.509 identity by certificate thumbprint.
    pub fn thumbprint(thumbprint: &str) -> (r: Self)
        ensures
            r@ == RuleView::Thumbprint(thumbprint@),
    {
        IdentityMappingRule::Thumbprint(thumbprint.to_owned())
    }

    /// Creates a rule that matches an identity already granted the referenced role.
    pub fn role(role_node_id: NodeId) -> (r: Self)
        ensures
            r@ == RuleView::Role(role_node_id@),
    {
        IdentityMappingRule::Role(role_node_id)
    }

    /// Creates a rule that matches an issued-token identity by group identifier.
    pub fn group_id(group_id: &str) -> (r: Self)
        ensures
            r@ == RuleView::GroupId(group_id@),
    {
        IdentityMappingRule::GroupId(group_id.to_owned())
    }

    /// Creates a rule that matches a client application URI.
    pub fn application(application_uri: &str) -> (r: Self)
        ensures
            r@ == RuleView::Application(application_uri@),
    {
        IdentityMappingRule::Application(application_uri.to_owned())
    }

    /// The criteria type of this rule.
    pub fn criteria_type(&self) -> (r: IdentityCriteriaType)
        ensures
            r == criteria_type_of(self@),
    {
        match self {
            IdentityMappingRule::AnonymousIdentity => IdentityCriteriaType::Anonymous,
            IdentityMappingRule::AuthenticatedUser => IdentityCriteriaType::AuthenticatedUser,
            IdentityMappingRule::UserName(_) => IdentityCriteriaType::UserName,
            IdentityMappingRule::Thumbprint(_) => IdentityCriteriaType::Thumbprint,
            IdentityMappingRule::Role(_) => IdentityCriteriaType::Role,
            IdentityMappingRule::GroupId(_) => IdentityCriteriaType::GroupId,
            IdentityMappingRule::Application(_) => IdentityCriteriaType::Application,
        }
    }

    /// The criteria text of this rule; `None` is the null string.
    pub fn criteria(&self) -> (r: Option<String>)
        ensures
            match r {
                Some(s) => criteria_of(self@) == Some(s@),
                None => criteria_of(self@) is None,
            },
    {
        match self {
            IdentityMappingRule::AnonymousIdentity | IdentityMappingRule::AuthenticatedUser => None,
            IdentityMappingRule::UserName(v) | IdentityMappingRule::Thumbprint(v)
            | IdentityMappingRule::GroupId(v) | IdentityMappingRule::Application(v) => Some(v.clone()),
            IdentityMappingRule::Role(id) => Some(format_node_id(id)),
        }
    }

    /// The wire form of this rule.
    pub fn to_wire(&self) -> (r: IdentityMappingRuleType)
        ensures
            r.criteria_type == criteria_type_of(self@),
            match r.criteria {
                Some(s) => criteria_of(self@) == Some(s@),
                None => criteria_of(self@) is None,
            },
    {
        IdentityMappingRuleType { criteria_type: self.criteria_type(), criteria: self.criteria() }
    }

    /// The runtime rule for a wire rule.
    pub fn try_from_wire(value: &IdentityMappingRuleType) -> (r: Result<IdentityMappingRule, IdentityMappingRuleConversionError>)
        ensures
            rule_result_view(r) == rule_from_wire(value.criteria_type, criteria_text(value.criteria)),
            value.criteria_type == IdentityCriteriaType::Role ==> forall|id: NodeIdView|
                text_form_reads_back(id) && #[trigger] criteria_of(RuleView::Role(id)) == Some(criteria_text(value.criteria))
                    ==> rule_result_view(r) == Ok::<RuleView, IdentityMappingRuleConversionError>(RuleView::Role(id)),
    {
        let criteria: String = match &value.criteria {
            Some(s) => s.clone(),
            None => String::new(),
        };
        match value.criteria_type {
            IdentityCriteriaType::Anonymous => Ok(IdentityMappingRule::AnonymousIdentity),
            IdentityCriteriaType::AuthenticatedUser => Ok(IdentityMappingRule::AuthenticatedUser),
            IdentityCriteriaType::UserName => Ok(IdentityMappingRule::UserName(criteria)),
            IdentityCriteriaType::Thumbprint => Ok(IdentityMappingRule::Thumbprint(criteria)),
            IdentityCriteriaType::Role => match parse_node_id(criteria.as_str()) {
                Some(id) => Ok(IdentityMappingRule::Role(id)),
                None => Err(
                    IdentityMappingRuleConversionError::InvalidRoleNodeId(StatusCode::BadNodeIdInvalid),
                ),
            },
            IdentityCriteriaType::GroupId => Ok(IdentityMappingRule::GroupId(criteria)),
            IdentityCriteriaType::Application => Ok(IdentityMappingRule::Application(criteria)),
            IdentityCriteriaType::X509Subject | IdentityCriteriaType::TrustedApplication => Err(
                IdentityMappingRuleConversionError::UnsupportedCriteriaType(value.criteria_type),
            ),
        }
    }

    /// Whether two rules are equal.
    pub fn equals(&self, other: &IdentityMappingRule) -> (r: bool)
        ensures
            r == (self@ == other@),
    {
        match (self, other) {
            (IdentityMappingRule::AnonymousIdentity, IdentityMappingRule::AnonymousIdentity) => true,
            (IdentityMappingRule::AuthenticatedUser, IdentityMappingRule::AuthenticatedUser) => true,
            (IdentityMappingRule::UserName(a), IdentityMappingRule::UserName(b)) => *a == *b,
            (IdentityMappingRule::Thumbprint(a), IdentityMappingRule::Thumbprint(b)) => *a == *b,
            (IdentityMappingRule::Role(a), IdentityMappingRule::Role(b)) => a.equals(b),
            (IdentityMappingRule::GroupId(a), IdentityMappingRule::GroupId(b)) => *a == *b,
            (IdentityMappingRule::Application(a), IdentityMappingRule::Application(b)) => *a == *b,
            _ => false,
        }
    }

    /// A copy of this rule.
    pub fn duplicate(&self) -> (r: IdentityMappingRule)
        ensures
            r@ == self@,
    {
        match self {
            IdentityMappingRule::AnonymousIdentity => IdentityMappingRule::AnonymousIdentity,
            IdentityMappingRule::AuthenticatedUser => IdentityMappingRule::AuthenticatedUser,
            IdentityMappingRule::UserName(v) => IdentityMappingRule::UserName(v.clone()),
            IdentityMappingRule::Thumbprint(v) => IdentityMappingRule::Thumbprint(v.clone()),
            IdentityMappingRule::Role(id) => IdentityMappingRule::Role(id.duplicate()),
            IdentityMappingRule::GroupId(v) => IdentityMappingRule::GroupId(v.clone()),
            IdentityMappingRule::Application(v) => IdentityMappingRule::Application(v.clone()),
        }
    }
}

/// Converting a rule of a supported kind to its wire form and back gives the same rule, for
/// every rule whose criteria is text. For a `Role` rule the round trip goes through the
/// `opcua_types` node id text and parser; [`IdentityMappingRule::try_from_wire`] states it
/// for every role id whose text form reads back.
pub proof fn law_wire_round_trip(rule: RuleView)
    requires
        !(rule is Role),
    ensures
        rule_from_wire(
            criteria_type_of(rule),
            match criteria_of(rule) {
                Some(s) => s,
                None => Seq::<char>::empty(),
            },
        ) == Ok::<RuleView, IdentityMappingRuleConversionError>(rule),
{
}

} // verus!
