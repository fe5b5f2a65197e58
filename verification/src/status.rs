//! Status codes reported by the server logic.

use vstd::prelude::*;

verus! {

/// The OPC UA status codes that the server logic reports.
#[derive(Debug, Clone, Copy, PartialEq, Eq, Structural)]
pub enum StatusCode {
    Good,
    BadUserAccessDenied,
    BadSecurityModeInsufficient,
    BadNodeIdUnknown,
    BadNodeIdInvalid,
    BadNodeIdExists,
    BadNodeIdRejected,
    BadAlreadyExists,
    BadNotFound,
    BadBrowseNameInvalid,
    BadBrowseNameDuplicated,
    BadRequestNotAllowed,
    BadArgumentsMissing,
    BadTooManyArguments,
    BadInvalidArgument,
    BadServerUriInvalid,
    BadServerNameMissing,
    BadDiscoveryUrlMissing,
    BadTooManyOperations,
    BadTcpEndpointUrlInvalid,
    BadCertificateHostNameInvalid,
    BadCertificateUntrusted,
    BadNodeAttributesInvalid,
    BadTypeDefinitionInvalid,
    BadReferenceTypeIdInvalid,
    BadParentNodeIdInvalid,
    BadSourceNodeIdInvalid,
    BadTargetNodeIdInvalid,
    BadNodeClassInvalid,
    BadReferenceNotAllowed,
    BadDuplicateReferenceNotAllowed,
    BadInvalidSelfReference,
    BadServiceUnsupported,
    BadNotSupported,
    BadOutOfRange,
    BadInvalidState,
}

impl StatusCode {
    /// Whether the code is a bad (failure) code.
    pub fn is_bad(&self) -> (r: bool)
        ensures
            r == !(*self is Good),
    {
        !matches!(self, StatusCode::Good)
    }
}

} // verus!
