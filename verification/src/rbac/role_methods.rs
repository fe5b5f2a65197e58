//! Which role-management handler serves a method: the AddIdentity, RemoveIdentity,
//! AddApplication, RemoveApplication, AddEndpoint and RemoveEndpoint methods of the
//! RoleType and of every well-known Role, and AddRole and RemoveRole of the RoleSetType
//! and of the server's RoleSet (OPC UA Part 18), by their numeric ids in namespace 0.

use vstd::prelude::*;
use crate::node_id::{Identifier, IdentifierView, NodeId, NodeIdView};

verus! {

/// The role-management handler a method runs.
#[derive(Debug, Clone, Copy, PartialEq, Eq, Structural)]
pub enum RoleMethod {
    AddIdentity,
    RemoveIdentity,
    AddApplication,
    RemoveApplication,
    AddEndpoint,
    RemoveEndpoint,
    AddRole,
    RemoveRole,
}

/// The handler of the method with numeric id `v` in namespace 0, if it is a
/// role-management method.
pub open spec fn role_method_spec(v: u32) -> Option<RoleMethod> {
    match v {
        15624 => Some(RoleMethod::AddIdentity),
        15626 => Some(RoleMethod::RemoveIdentity),
        16176 => Some(RoleMethod::AddApplication),
        16178 => Some(RoleMethod::RemoveApplication),
        16180 => Some(RoleMethod::AddEndpoint),
        16182 => Some(RoleMethod::RemoveEndpoint),
        15997 => Some(RoleMethod::AddRole),
        16000 => Some(RoleMethod::RemoveRole),
        16301 => Some(RoleMethod::AddRole),
        16304 => Some(RoleMethod::RemoveRole),
        15648 => Some(RoleMethod::AddIdentity),
        15650 => Some(RoleMethod::RemoveIdentity),
        16195 => Some(RoleMethod::AddApplication),
        16197 => Some(RoleMethod::RemoveApplication),
        16199 => Some(RoleMethod::AddEndpoint),
        16201 => Some(RoleMethod::RemoveEndpoint),
        15660 => Some(RoleMethod::AddIdentity),
        15662 => Some(RoleMethod::RemoveIdentity),
        16206 => Some(RoleMethod::AddApplication),
        16208 => Some(RoleMethod::RemoveApplication),
        16210 => Some(RoleMethod::AddEndpoint),
        16212 => Some(RoleMethod::RemoveEndpoint),
        15672 => Some(RoleMethod::AddIdentity),
        15674 => Some(RoleMethod::RemoveIdentity),
        16217 => Some(RoleMethod::AddApplication),
        16219 => Some(RoleMethod::RemoveApplication),
        16221 => Some(RoleMethod::AddEndpoint),
        16223 => Some(RoleMethod::RemoveEndpoint),
        15684 => Some(RoleMethod::AddIdentity),
        15686 => Some(RoleMethod::RemoveIdentity),
        16228 => Some(RoleMethod::AddApplication),
        16230 => Some(RoleMethod::RemoveApplication),
        16232 => Some(RoleMethod::AddEndpoint),
        16234 => Some(RoleMethod::RemoveEndpoint),
        16041 => Some(RoleMethod::AddIdentity),
        16043 => Some(RoleMethod::RemoveIdentity),
        16239 => Some(RoleMethod::AddApplication),
        16241 => Some(RoleMethod::RemoveApplication),
        16243 => Some(RoleMethod::AddEndpoint),
        16245 => Some(RoleMethod::RemoveEndpoint),
        15696 => Some(RoleMethod::AddIdentity),
        15698 => Some(RoleMethod::RemoveIdentity),
        16250 => Some(RoleMethod::AddApplication),
        16252 => Some(RoleMethod::RemoveApplication),
        16254 => Some(RoleMethod::AddEndpoint),
        16256 => Some(RoleMethod::RemoveEndpoint),
        15720 => Some(RoleMethod::AddIdentity),
        15722 => Some(RoleMethod::RemoveIdentity),
        16272 => Some(RoleMethod::AddApplication),
        16274 => Some(RoleMethod::RemoveApplication),
        16276 => Some(RoleMethod::AddEndpoint),
        16278 => Some(RoleMethod::RemoveEndpoint),
        15708 => Some(RoleMethod::AddIdentity),
        15710 => Some(RoleMethod::RemoveIdentity),
        16261 => Some(RoleMethod::AddApplication),
        16263 => Some(RoleMethod::RemoveApplication),
        16265 => Some(RoleMethod::AddEndpoint),
        16267 => Some(RoleMethod::RemoveEndpoint),
        _ => None,
    }
}

/// The handler of the method `id`: only numeric ids in namespace 0 name one.
pub open spec fn role_method_of(id: NodeIdView) -> Option<RoleMethod> {
    match id.identifier {
        IdentifierView::Numeric(v) => if id.namespace == 0 {
            role_method_spec(v)
        } else {
            None
        },
        _ => None,
    }
}

fn role_method_by_number(v: u32) -> (r: Option<RoleMethod>)
    ensures
        r == role_method_spec(v),
{
    match v {
        15624 => Some(RoleMethod::AddIdentity),
        15626 => Some(RoleMethod::RemoveIdentity),
        16176 => Some(RoleMethod::AddApplication),
        16178 => Some(RoleMethod::RemoveApplication),
        16180 => Some(RoleMethod::AddEndpoint),
        16182 => Some(RoleMethod::RemoveEndpoint),
        15997 => Some(RoleMethod::AddRole),
        16000 => Some(RoleMethod::RemoveRole),
        16301 => Some(RoleMethod::AddRole),
        16304 => Some(RoleMethod::RemoveRole),
        15648 => Some(RoleMethod::AddIdentity),
        15650 => Some(RoleMethod::RemoveIdentity),
        16195 => Some(RoleMethod::AddApplication),
        16197 => Some(RoleMethod::RemoveApplication),
        16199 => Some(RoleMethod::AddEndpoint),
        16201 => Some(RoleMethod::RemoveEndpoint),
        15660 => Some(RoleMethod::AddIdentity),
        15662 => Some(RoleMethod::RemoveIdentity),
        16206 => Some(RoleMethod::AddApplication),
        16208 => Some(RoleMethod::RemoveApplication),
        16210 => Some(RoleMethod::AddEndpoint),
        16212 => Some(RoleMethod::RemoveEndpoint),
        15672 => Some(RoleMethod::AddIdentity),
        15674 => Some(RoleMethod::RemoveIdentity),
        16217 => Some(RoleMethod::AddApplication),
        16219 => Some(RoleMethod::RemoveApplication),
        16221 => Some(RoleMethod::AddEndpoint),
        16223 => Some(RoleMethod::RemoveEndpoint),
        15684 => Some(RoleMethod::AddIdentity),
        15686 => Some(RoleMethod::RemoveIdentity),
        16228 => Some(RoleMethod::AddApplication),
        16230 => Some(RoleMethod::RemoveApplication),
        16232 => Some(RoleMethod::AddEndpoint),
        16234 => Some(RoleMethod::RemoveEndpoint),
        16041 => Some(RoleMethod::AddIdentity),
        16043 => Some(RoleMethod::RemoveIdentity),
        16239 => Some(RoleMethod::AddApplication),
        16241 => Some(RoleMethod::RemoveApplication),
        16243 => Some(RoleMethod::AddEndpoint),
        16245 => Some(RoleMethod::RemoveEndpoint),
        15696 => Some(RoleMethod::AddIdentity),
        15698 => Some(RoleMethod::RemoveIdentity),
        16250 => Some(RoleMethod::AddApplication),
        16252 => Some(RoleMethod::RemoveApplication),
        16254 => Some(RoleMethod::AddEndpoint),
        16256 => Some(RoleMethod::RemoveEndpoint),
        15720 => Some(RoleMethod::AddIdentity),
        15722 => Some(RoleMethod::RemoveIdentity),
        16272 => Some(RoleMethod::AddApplication),
        16274 => Some(RoleMethod::RemoveApplication),
        16276 => Some(RoleMethod::AddEndpoint),
        16278 => Some(RoleMethod::RemoveEndpoint),
        15708 => Some(RoleMethod::AddIdentity),
        15710 => Some(RoleMethod::RemoveIdentity),
        16261 => Some(RoleMethod::AddApplication),
        16263 => Some(RoleMethod::RemoveApplication),
        16265 => Some(RoleMethod::AddEndpoint),
        16267 => Some(RoleMethod::RemoveEndpoint),
        _ => None,
    }
}

/// The role-management handler that serves calls of the method `method_id` (see
/// [`role_method_spec`]), or `None` when it is no role-management method.
pub fn role_method_for(method_id: &NodeId) -> (r: Option<RoleMethod>)
    ensures
        r == role_method_of(method_id@),
{
    if method_id.namespace != 0 {
        return None;
    }
    match method_id.identifier {
        Identifier::Numeric(v) => role_method_by_number(v),
        _ => None,
    }
}

} // verus!
