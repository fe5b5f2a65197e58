//! The client user id that node-management audit events carry, from the identity the
//! session was activated with.

use vstd::prelude::*;

verus! {

/// The kind of identity a session was activated with; a user-name identity carries
/// its user name.
#[derive(Debug)]
pub enum SessionIdentity {
    Anonymous,
    UserName(String),
    X509,
    IssuedToken,
    /// No identity, or one that could not be decoded.
    Unknown,
}

/// The client user id of an audit event: `ANONYMOUS` for anonymous sessions, the user
/// name for user-name sessions, `x509` for certificate sessions; for issued tokens the
/// session's user token id, else `issued-token`; for any other identity the user token
/// id, else the empty (null) text.
pub open spec fn client_user_id_spec(identity: SessionIdentity, user_token: Option<Seq<char>>) -> Seq<char> {
    match identity {
        SessionIdentity::Anonymous => "ANONYMOUS"@,
        SessionIdentity::UserName(name) => name@,
        SessionIdentity::X509 => "x509"@,
        SessionIdentity::IssuedToken => match user_token {
            Some(t) => t,
            None => "issued-token"@,
        },
        SessionIdentity::Unknown => match user_token {
            Some(t) => t,
            None => Seq::empty(),
        },
    }
}

/// The client user id of an audit event (see [`client_user_id_spec`]).
pub fn client_user_id(identity: &SessionIdentity, user_token: Option<&str>) -> (r: String)
    ensures
        r@ == client_user_id_spec(
            *identity,
            match user_token {
                Some(t) => Some(t@),
                None => None,
            },
        ),
{
    match identity {
        SessionIdentity::Anonymous => "ANONYMOUS".to_owned(),
        SessionIdentity::UserName(name) => name.clone(),
        SessionIdentity::X509 => "x509".to_owned(),
        SessionIdentity::IssuedToken => match user_token {
            Some(t) => t.to_owned(),
            None => "issued-token".to_owned(),
        },
        SessionIdentity::Unknown => match user_token {
            Some(t) => t.to_owned(),
            None => {
                let r = String::new();
                assert(r@ =~= Seq::<char>::empty());
                r
            },
        },
    }
}

} // verus!
