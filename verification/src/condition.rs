//! Conditions: the named outcomes, successful or not, that peers report,
//! each with its canonical text, its category and its numeric code.

use vstd::prelude::*;
use crate::text::str_eq;

verus! {

/// A success or error condition. Anything that is not one of the named
/// conditions is carried as `Custom` with its text.
#[derive(Debug, PartialEq, Eq, Hash)]
pub enum AmqpCondition {
    /// `amqp:ok`
    Okay,
    /// `amqp:accepted`
    Accepted,
    /// `amqp:released`
    Released,
    /// `amqp:modified`
    Modified,
    /// `amqp:connection:forced`
    AmqpErrorConnectionForced,
    /// `amqp:connection:framing-error`
    AmqpErrorFramingError,
    /// `amqp:connection:redirect`
    AmqpErrorConnectionRedirect,
    /// `amqp:session:window-violation`
    AmqpErrorWindowViolation,
    /// `amqp:session:errant-link`
    AmqpErrorErrantLink,
    /// `amqp:session:handle-in-use`
    AmqpErrorHandleInUse,
    /// `amqp:session:detach-forced`
    AmqpErrorDetachForced,
    /// `amqp:session:transfer-limit-exceeded`
    AmqpErrorTransferLimitExceeded,
    /// `amqp:link:message-size-exceeded`
    AmqpErrorMessageSizeExceeded,
    /// `amqp:link:redirect`
    AmqpErrorLinkRedirect,
    /// `amqp:link:transfer-refused`
    AmqpErrorTransferRefused,
    /// `amqp:link:stolen`
    AmqpErrorStolen,
    /// `amqp:resource:deleted`
    AmqpErrorResourceDeleted,
    /// `amqp:resource:limit-exceeded`
    AmqpErrorResourceLimitExceeded,
    /// `amqp:resource:locked`
    AmqpErrorResourceLocked,
    /// `amqp:resource:precondition-failed`
    AmqpErrorPreconditionFailed,
    /// `amqp:resource:name-collision`
    AmqpErrorResourceNameCollision,
    /// `amqp:access:unauthorized`
    AmqpErrorUnauthorizedAccess,
    /// `amqp:access:not-allowed`
    AmqpErrorNotAllowed,
    /// `amqp:not-implemented`
    AmqpErrorNotImplemented,
    /// `amqp:not-modified`
    AmqpErrorNotModified,
    /// `amqp:decode-error`
    AmqpErrorDecodeError,
    /// `amqp:invalid-field`
    AmqpErrorInvalidField,
    /// `amqp:not-accepted`
    AmqpErrorNotAccepted,
    /// `amqp:rejected`
    AmqpErrorRejected,
    /// `amqp:internal-error`
    AmqpErrorInternalError,
    /// `amqp:illegal-state`
    AmqpErrorIllegalState,
    /// A condition outside the named set, with its text.
    Custom(String),
}

/// Categories of conditions.
#[derive(Debug, Clone, Copy, PartialEq, Eq, Structural)]
pub enum ConditionCategory {
    Success,
    Connection,
    Session,
    Link,
    Resource,
    Access,
    Content,
    Internal,
    Custom,
}

/// Earlier name of [`AmqpCondition`].
pub type AmqpErrorCondition = AmqpCondition;

/// True when `s` is the canonical text of one of the named conditions.
pub open spec fn is_named_condition(s: Seq<char>) -> bool {
    ||| s == "amqp:ok"@
    ||| s == "amqp:accepted"@
    ||| s == "amqp:released"@
    ||| s == "amqp:modified"@
    ||| s == "amqp:connection:forced"@
    ||| s == "amqp:connection:framing-error"@
    ||| s == "amqp:connection:redirect"@
    ||| s == "amqp:session:window-violation"@
    ||| s == "amqp:session:errant-link"@
    ||| s == "amqp:session:handle-in-use"@
    ||| s == "amqp:session:detach-forced"@
    ||| s == "amqp:session:transfer-limit-exceeded"@
    ||| s == "amqp:link:message-size-exceeded"@
    ||| s == "amqp:link:redirect"@
    ||| s == "amqp:link:transfer-refused"@
    ||| s == "amqp:link:stolen"@
    ||| s == "amqp:resource:deleted"@
    ||| s == "amqp:resource:limit-exceeded"@
    ||| s == "amqp:resource:locked"@
    ||| s == "amqp:resource:precondition-failed"@
    ||| s == "amqp:resource:name-collision"@
    ||| s == "amqp:access:unauthorized"@
    ||| s == "amqp:access:not-allowed"@
    ||| s == "amqp:not-implemented"@
    ||| s == "amqp:not-modified"@
    ||| s == "amqp:decode-error"@
    ||| s == "amqp:invalid-field"@
    ||| s == "amqp:not-accepted"@
    ||| s == "amqp:rejected"@
    ||| s == "amqp:internal-error"@
    ||| s == "amqp:illegal-state"@
}

impl AmqpCondition {
    /// The canonical text of the condition.
    pub open spec fn name(&self) -> Seq<char> {
        match self {
            AmqpCondition::Okay => "amqp:ok"@,
            AmqpCondition::Accepted => "amqp:accepted"@,
            AmqpCondition::Released => "amqp:released"@,
            AmqpCondition::Modified => "amqp:modified"@,
            AmqpCondition::AmqpErrorConnectionForced => "amqp:connection:forced"@,
            AmqpCondition::AmqpErrorFramingError => "amqp:connection:framing-error"@,
            AmqpCondition::AmqpErrorConnectionRedirect => "amqp:connection:redirect"@,
            AmqpCondition::AmqpErrorWindowViolation => "amqp:session:window-violation"@,
            AmqpCondition::AmqpErrorErrantLink => "amqp:session:errant-link"@,
            AmqpCondition::AmqpErrorHandleInUse => "amqp:session:handle-in-use"@,
            AmqpCondition::AmqpErrorDetachForced => "amqp:session:detach-forced"@,
            AmqpCondition::AmqpErrorTransferLimitExceeded => "amqp:session:transfer-limit-exceeded"@,
            AmqpCondition::AmqpErrorMessageSizeExceeded => "amqp:link:message-size-exceeded"@,
            AmqpCondition::AmqpErrorLinkRedirect => "amqp:link:redirect"@,
            AmqpCondition::AmqpErrorTransferRefused => "amqp:link:transfer-refused"@,
            AmqpCondition::AmqpErrorStolen => "amqp:link:stolen"@,
            AmqpCondition::AmqpErrorResourceDeleted => "amqp:resource:deleted"@,
            AmqpCondition::AmqpErrorResourceLimitExceeded => "amqp:resource:limit-exceeded"@,
            AmqpCondition::AmqpErrorResourceLocked => "amqp:resource:locked"@,
            AmqpCondition::AmqpErrorPreconditionFailed => "amqp:resource:precondition-failed"@,
            AmqpCondition::AmqpErrorResourceNameCollision => "amqp:resource:name-collision"@,
            AmqpCondition::AmqpErrorUnauthorizedAccess => "amqp:access:unauthorized"@,
            AmqpCondition::AmqpErrorNotAllowed => "amqp:access:not-allowed"@,
            AmqpCondition::AmqpErrorNotImplemented => "amqp:not-implemented"@,
            AmqpCondition::AmqpErrorNotModified => "amqp:not-modified"@,
            AmqpCondition::AmqpErrorDecodeError => "amqp:decode-error"@,
            AmqpCondition::AmqpErrorInvalidField => "amqp:invalid-field"@,
            AmqpCondition::AmqpErrorNotAccepted => "amqp:not-accepted"@,
            AmqpCondition::AmqpErrorRejected => "amqp:rejected"@,
            AmqpCondition::AmqpErrorInternalError => "amqp:internal-error"@,
            AmqpCondition::AmqpErrorIllegalState => "amqp:illegal-state"@,
            AmqpCondition::Custom(s) => s@,
        }
    }

    /// The numeric code of the condition: 2xx for success, 3xx to 5xx for
    /// errors, 0 for a custom condition.
    pub open spec fn code(&self) -> u16 {
        match self {
            AmqpCondition::Okay => 200,
            AmqpCondition::Accepted => 202,
            AmqpCondition::Released => 200,
            AmqpCondition::Modified => 200,
            AmqpCondition::AmqpErrorConnectionForced => 301,
            AmqpCondition::AmqpErrorFramingError => 501,
            AmqpCondition::AmqpErrorConnectionRedirect => 302,
            AmqpCondition::AmqpErrorWindowViolation => 503,
            AmqpCondition::AmqpErrorErrantLink => 504,
            AmqpCondition::AmqpErrorHandleInUse => 505,
            AmqpCondition::AmqpErrorDetachForced => 506,
            AmqpCondition::AmqpErrorTransferLimitExceeded => 507,
            AmqpCondition::AmqpErrorMessageSizeExceeded => 311,
            AmqpCondition::AmqpErrorLinkRedirect => 404,
            AmqpCondition::AmqpErrorTransferRefused => 405,
            AmqpCondition::AmqpErrorStolen => 406,
            AmqpCondition::AmqpErrorResourceDeleted => 404,
            AmqpCondition::AmqpErrorResourceLimitExceeded => 405,
            AmqpCondition::AmqpErrorResourceLocked => 406,
            AmqpCondition::AmqpErrorPreconditionFailed => 412,
            AmqpCondition::AmqpErrorResourceNameCollision => 409,
            AmqpCondition::AmqpErrorUnauthorizedAccess => 401,
            AmqpCondition::AmqpErrorNotAllowed => 403,
            AmqpCondition::AmqpErrorNotImplemented => 501,
            AmqpCondition::AmqpErrorNotModified => 304,
            AmqpCondition::AmqpErrorDecodeError => 502,
            AmqpCondition::AmqpErrorInvalidField => 503,
            AmqpCondition::AmqpErrorNotAccepted => 400,
            AmqpCondition::AmqpErrorRejected => 400,
            AmqpCondition::AmqpErrorInternalError => 500,
            AmqpCondition::AmqpErrorIllegalState => 500,
            AmqpCondition::Custom(_) => 0,
        }
    }

    /// True for `Ok`, `Accepted`, `Released` and `Modified`.
    pub open spec fn success(&self) -> bool {
        self is Okay || self is Accepted || self is Released || self is Modified
    }

    /// The category of the condition.
    pub open spec fn category_of(&self) -> ConditionCategory {
        match self {
            AmqpCondition::Okay => ConditionCategory::Success,
            AmqpCondition::Accepted => ConditionCategory::Success,
            AmqpCondition::Released => ConditionCategory::Success,
            AmqpCondition::Modified => ConditionCategory::Success,
            AmqpCondition::AmqpErrorConnectionForced => ConditionCategory::Connection,
            AmqpCondition::AmqpErrorFramingError => ConditionCategory::Connection,
            AmqpCondition::AmqpErrorConnectionRedirect => ConditionCategory::Connection,
            AmqpCondition::AmqpErrorWindowViolation => ConditionCategory::Session,
            AmqpCondition::AmqpErrorErrantLink => ConditionCategory::Session,
            AmqpCondition::AmqpErrorHandleInUse => ConditionCategory::Session,
            AmqpCondition::AmqpErrorDetachForced => ConditionCategory::Session,
            AmqpCondition::AmqpErrorTransferLimitExceeded => ConditionCategory::Session,
            AmqpCondition::AmqpErrorMessageSizeExceeded => ConditionCategory::Link,
            AmqpCondition::AmqpErrorLinkRedirect => ConditionCategory::Link,
            AmqpCondition::AmqpErrorTransferRefused => ConditionCategory::Link,
            AmqpCondition::AmqpErrorStolen => ConditionCategory::Link,
            AmqpCondition::AmqpErrorResourceDeleted => ConditionCategory::Resource,
            AmqpCondition::AmqpErrorResourceLimitExceeded => ConditionCategory::Resource,
            AmqpCondition::AmqpErrorResourceLocked => ConditionCategory::Resource,
            AmqpCondition::AmqpErrorPreconditionFailed => ConditionCategory::Resource,
            AmqpCondition::AmqpErrorResourceNameCollision => ConditionCategory::Resource,
            AmqpCondition::AmqpErrorUnauthorizedAccess => ConditionCategory::Access,
            AmqpCondition::AmqpErrorNotAllowed => ConditionCategory::Access,
            AmqpCondition::AmqpErrorNotImplemented => ConditionCategory::Internal,
            AmqpCondition::AmqpErrorNotModified => ConditionCategory::Internal,
            AmqpCondition::AmqpErrorDecodeError => ConditionCategory::Internal,
            AmqpCondition::AmqpErrorInvalidField => ConditionCategory::Internal,
            AmqpCondition::AmqpErrorNotAccepted => ConditionCategory::Internal,
            AmqpCondition::AmqpErrorRejected => ConditionCategory::Internal,
            AmqpCondition::AmqpErrorInternalError => ConditionCategory::Internal,
            AmqpCondition::AmqpErrorIllegalState => ConditionCategory::Internal,
            AmqpCondition::Custom(_) => ConditionCategory::Custom,
        }
    }

    /// Get the string representation of the condition.
    pub fn as_str(&self) -> (s: &str)
        ensures
            s@ == self.name(),
    {
        match self {
            AmqpCondition::Okay => "amqp:ok",
            AmqpCondition::Accepted => "amqp:accepted",
            AmqpCondition::Released => "amqp:released",
            AmqpCondition::Modified => "amqp:modified",
            AmqpCondition::AmqpErrorConnectionForced => "amqp:connection:forced",
            AmqpCondition::AmqpErrorFramingError => "amqp:connection:framing-error",
            AmqpCondition::AmqpErrorConnectionRedirect => "amqp:connection:redirect",
            AmqpCondition::AmqpErrorWindowViolation => "amqp:session:window-violation",
            AmqpCondition::AmqpErrorErrantLink => "amqp:session:errant-link",
            AmqpCondition::AmqpErrorHandleInUse => "amqp:session:handle-in-use",
            AmqpCondition::AmqpErrorDetachForced => "amqp:session:detach-forced",
            AmqpCondition::AmqpErrorTransferLimitExceeded => "amqp:session:transfer-limit-exceeded",
            AmqpCondition::AmqpErrorMessageSizeExceeded => "amqp:link:message-size-exceeded",
            AmqpCondition::AmqpErrorLinkRedirect => "amqp:link:redirect",
            AmqpCondition::AmqpErrorTransferRefused => "amqp:link:transfer-refused",
            AmqpCondition::AmqpErrorStolen => "amqp:link:stolen",
            AmqpCondition::AmqpErrorResourceDeleted => "amqp:resource:deleted",
            AmqpCondition::AmqpErrorResourceLimitExceeded => "amqp:resource:limit-exceeded",
            AmqpCondition::AmqpErrorResourceLocked => "amqp:resource:locked",
            AmqpCondition::AmqpErrorPreconditionFailed => "amqp:resource:precondition-failed",
            AmqpCondition::AmqpErrorResourceNameCollision => "amqp:resource:name-collision",
            AmqpCondition::AmqpErrorUnauthorizedAccess => "amqp:access:unauthorized",
            AmqpCondition::AmqpErrorNotAllowed => "amqp:access:not-allowed",
            AmqpCondition::AmqpErrorNotImplemented => "amqp:not-implemented",
            AmqpCondition::AmqpErrorNotModified => "amqp:not-modified",
            AmqpCondition::AmqpErrorDecodeError => "amqp:decode-error",
            AmqpCondition::AmqpErrorInvalidField => "amqp:invalid-field",
            AmqpCondition::AmqpErrorNotAccepted => "amqp:not-accepted",
            AmqpCondition::AmqpErrorRejected => "amqp:rejected",
            AmqpCondition::AmqpErrorInternalError => "amqp:internal-error",
            AmqpCondition::AmqpErrorIllegalState => "amqp:illegal-state",
            AmqpCondition::Custom(s) => s.as_str(),
        }
    }

    /// Return the numeric code of the condition.
    pub fn code_num(&self) -> (code: u16)
        ensures
            code == self.code(),
    {
        match self {
            AmqpCondition::Okay => 200,
            AmqpCondition::Accepted => 202,
            AmqpCondition::Released => 200,
            AmqpCondition::Modified => 200,
            AmqpCondition::AmqpErrorConnectionForced => 301,
            AmqpCondition::AmqpErrorFramingError => 501,
            AmqpCondition::AmqpErrorConnectionRedirect => 302,
            AmqpCondition::AmqpErrorWindowViolation => 503,
            AmqpCondition::AmqpErrorErrantLink => 504,
            AmqpCondition::AmqpErrorHandleInUse => 505,
            AmqpCondition::AmqpErrorDetachForced => 506,
            AmqpCondition::AmqpErrorTransferLimitExceeded => 507,
            AmqpCondition::AmqpErrorMessageSizeExceeded => 311,
            AmqpCondition::AmqpErrorLinkRedirect => 404,
            AmqpCondition::AmqpErrorTransferRefused => 405,
            AmqpCondition::AmqpErrorStolen => 406,
            AmqpCondition::AmqpErrorResourceDeleted => 404,
            AmqpCondition::AmqpErrorResourceLimitExceeded => 405,
            AmqpCondition::AmqpErrorResourceLocked => 406,
            AmqpCondition::AmqpErrorPreconditionFailed => 412,
            AmqpCondition::AmqpErrorResourceNameCollision => 409,
            AmqpCondition::AmqpErrorUnauthorizedAccess => 401,
            AmqpCondition::AmqpErrorNotAllowed => 403,
            AmqpCondition::AmqpErrorNotImplemented => 501,
            AmqpCondition::AmqpErrorNotModified => 304,
            AmqpCondition::AmqpErrorDecodeError => 502,
            AmqpCondition::AmqpErrorInvalidField => 503,
            AmqpCondition::AmqpErrorNotAccepted => 400,
            AmqpCondition::AmqpErrorRejected => 400,
            AmqpCondition::AmqpErrorInternalError => 500,
            AmqpCondition::AmqpErrorIllegalState => 500,
            AmqpCondition::Custom(_) => 0,
        }
    }

    /// Check if this is a success condition.
    pub fn is_success(&self) -> (yes: bool)
        ensures
            yes == self.success(),
    {
        match self {
            AmqpCondition::Okay => true,
            AmqpCondition::Accepted => true,
            AmqpCondition::Released => true,
            AmqpCondition::Modified => true,
            _ => false,
        }
    }

    /// Check if this is an error condition: anything but a success.
    pub fn is_error(&self) -> (yes: bool)
        ensures
            yes == !self.success(),
    {
        !self.is_success()
    }

    /// Get the category of this condition.
    pub fn category(&self) -> (cat: ConditionCategory)
        ensures
            cat == self.category_of(),
    {
        match self {
            AmqpCondition::Okay => ConditionCategory::Success,
            AmqpCondition::Accepted => ConditionCategory::Success,
            AmqpCondition::Released => ConditionCategory::Success,
            AmqpCondition::Modified => ConditionCategory::Success,
            AmqpCondition::AmqpErrorConnectionForced => ConditionCategory::Connection,
            AmqpCondition::AmqpErrorFramingError => ConditionCategory::Connection,
            AmqpCondition::AmqpErrorConnectionRedirect => ConditionCategory::Connection,
            AmqpCondition::AmqpErrorWindowViolation => ConditionCategory::Session,
            AmqpCondition::AmqpErrorErrantLink => ConditionCategory::Session,
            AmqpCondition::AmqpErrorHandleInUse => ConditionCategory::Session,
            AmqpCondition::AmqpErrorDetachForced => ConditionCategory::Session,
            AmqpCondition::AmqpErrorTransferLimitExceeded => ConditionCategory::Session,
            AmqpCondition::AmqpErrorMessageSizeExceeded => ConditionCategory::Link,
            AmqpCondition::AmqpErrorLinkRedirect => ConditionCategory::Link,
            AmqpCondition::AmqpErrorTransferRefused => ConditionCategory::Link,
            AmqpCondition::AmqpErrorStolen => ConditionCategory::Link,
            AmqpCondition::AmqpErrorResourceDeleted => ConditionCategory::Resource,
            AmqpCondition::AmqpErrorResourceLimitExceeded => ConditionCategory::Resource,
            AmqpCondition::AmqpErrorResourceLocked => ConditionCategory::Resource,
            AmqpCondition::AmqpErrorPreconditionFailed => ConditionCategory::Resource,
            AmqpCondition::AmqpErrorResourceNameCollision => ConditionCategory::Resource,
            AmqpCondition::AmqpErrorUnauthorizedAccess => ConditionCategory::Access,
            AmqpCondition::AmqpErrorNotAllowed => ConditionCategory::Access,
            AmqpCondition::AmqpErrorNotImplemented => ConditionCategory::Internal,
            AmqpCondition::AmqpErrorNotModified => ConditionCategory::Internal,
            AmqpCondition::AmqpErrorDecodeError => ConditionCategory::Internal,
            AmqpCondition::AmqpErrorInvalidField => ConditionCategory::Internal,
            AmqpCondition::AmqpErrorNotAccepted => ConditionCategory::Internal,
            AmqpCondition::AmqpErrorRejected => ConditionCategory::Internal,
            AmqpCondition::AmqpErrorInternalError => ConditionCategory::Internal,
            AmqpCondition::AmqpErrorIllegalState => ConditionCategory::Internal,
            AmqpCondition::Custom(_) => ConditionCategory::Custom,
        }
    }

    /// The canonical text as an owned string.
    pub fn to_string(&self) -> (s: String)
        ensures
            s@ == self.name(),
    {
        self.as_str().to_owned()
    }

    /// Parses a condition from its text. Parsing is total: a text that
    /// names none of the conditions becomes `Custom` with that text.
    pub fn parse(s: &str) -> (c: AmqpCondition)
        ensures
            c.name() == s@,
            c is Custom <==> !is_named_condition(s@),
    {
        if str_eq(s, "amqp:ok") {
            AmqpCondition::Okay
        } else if str_eq(s, "amqp:accepted") {
            AmqpCondition::Accepted
        } else if str_eq(s, "amqp:released") {
            AmqpCondition::Released
        } else if str_eq(s, "amqp:modified") {
            AmqpCondition::Modified
        } else if str_eq(s, "amqp:connection:forced") {
            AmqpCondition::AmqpErrorConnectionForced
        } else if str_eq(s, "amqp:connection:framing-error") {
            AmqpCondition::AmqpErrorFramingError
        } else if str_eq(s, "amqp:connection:redirect") {
            AmqpCondition::AmqpErrorConnectionRedirect
        } else if str_eq(s, "amqp:session:window-violation") {
            AmqpCondition::AmqpErrorWindowViolation
        } else if str_eq(s, "amqp:session:errant-link") {
            AmqpCondition::AmqpErrorErrantLink
        } else if str_eq(s, "amqp:session:handle-in-use") {
            AmqpCondition::AmqpErrorHandleInUse
        } else if str_eq(s, "amqp:session:detach-forced") {
            AmqpCondition::AmqpErrorDetachForced
        } else if str_eq(s, "amqp:session:transfer-limit-exceeded") {
            AmqpCondition::AmqpErrorTransferLimitExceeded
        } else if str_eq(s, "amqp:link:message-size-exceeded") {
            AmqpCondition::AmqpErrorMessageSizeExceeded
        } else if str_eq(s, "amqp:link:redirect") {
            AmqpCondition::AmqpErrorLinkRedirect
        } else if str_eq(s, "amqp:link:transfer-refused") {
            AmqpCondition::AmqpErrorTransferRefused
        } else if str_eq(s, "amqp:link:stolen") {
            AmqpCondition::AmqpErrorStolen
        } else if str_eq(s, "amqp:resource:deleted") {
            AmqpCondition::AmqpErrorResourceDeleted
        } else if str_eq(s, "amqp:resource:limit-exceeded") {
            AmqpCondition::AmqpErrorResourceLimitExceeded
        } else if str_eq(s, "amqp:resource:locked") {
            AmqpCondition::AmqpErrorResourceLocked
        } else if str_eq(s, "amqp:resource:precondition-failed") {
            AmqpCondition::AmqpErrorPreconditionFailed
        } else if str_eq(s, "amqp:resource:name-collision") {
            AmqpCondition::AmqpErrorResourceNameCollision
        } else if str_eq(s, "amqp:access:unauthorized") {
            AmqpCondition::AmqpErrorUnauthorizedAccess
        } else if str_eq(s, "amqp:access:not-allowed") {
            AmqpCondition::AmqpErrorNotAllowed
        } else if str_eq(s, "amqp:not-implemented") {
            AmqpCondition::AmqpErrorNotImplemented
        } else if str_eq(s, "amqp:not-modified") {
            AmqpCondition::AmqpErrorNotModified
        } else if str_eq(s, "amqp:decode-error") {
            AmqpCondition::AmqpErrorDecodeError
        } else if str_eq(s, "amqp:invalid-field") {
            AmqpCondition::AmqpErrorInvalidField
        } else if str_eq(s, "amqp:not-accepted") {
            AmqpCondition::AmqpErrorNotAccepted
        } else if str_eq(s, "amqp:rejected") {
            AmqpCondition::AmqpErrorRejected
        } else if str_eq(s, "amqp:internal-error") {
            AmqpCondition::AmqpErrorInternalError
        } else if str_eq(s, "amqp:illegal-state") {
            AmqpCondition::AmqpErrorIllegalState
        } else {
            AmqpCondition::Custom(s.to_owned())
        }
    }
}

impl Clone for AmqpCondition {
    fn clone(&self) -> (copy: Self)
        ensures
            copy == *self,
    {
        match self {
            AmqpCondition::Okay => AmqpCondition::Okay,
            AmqpCondition::Accepted => AmqpCondition::Accepted,
            AmqpCondition::Released => AmqpCondition::Released,
            AmqpCondition::Modified => AmqpCondition::Modified,
            AmqpCondition::AmqpErrorConnectionForced => AmqpCondition::AmqpErrorConnectionForced,
            AmqpCondition::AmqpErrorFramingError => AmqpCondition::AmqpErrorFramingError,
            AmqpCondition::AmqpErrorConnectionRedirect => AmqpCondition::AmqpErrorConnectionRedirect,
            AmqpCondition::AmqpErrorWindowViolation => AmqpCondition::AmqpErrorWindowViolation,
            AmqpCondition::AmqpErrorErrantLink => AmqpCondition::AmqpErrorErrantLink,
            AmqpCondition::AmqpErrorHandleInUse => AmqpCondition::AmqpErrorHandleInUse,
            AmqpCondition::AmqpErrorDetachForced => AmqpCondition::AmqpErrorDetachForced,
            AmqpCondition::AmqpErrorTransferLimitExceeded => AmqpCondition::AmqpErrorTransferLimitExceeded,
            AmqpCondition::AmqpErrorMessageSizeExceeded => AmqpCondition::AmqpErrorMessageSizeExceeded,
            AmqpCondition::AmqpErrorLinkRedirect => AmqpCondition::AmqpErrorLinkRedirect,
            AmqpCondition::AmqpErrorTransferRefused => AmqpCondition::AmqpErrorTransferRefused,
            AmqpCondition::AmqpErrorStolen => AmqpCondition::AmqpErrorStolen,
            AmqpCondition::AmqpErrorResourceDeleted => AmqpCondition::AmqpErrorResourceDeleted,
            AmqpCondition::AmqpErrorResourceLimitExceeded => AmqpCondition::AmqpErrorResourceLimitExceeded,
            AmqpCondition::AmqpErrorResourceLocked => AmqpCondition::AmqpErrorResourceLocked,
            AmqpCondition::AmqpErrorPreconditionFailed => AmqpCondition::AmqpErrorPreconditionFailed,
            AmqpCondition::AmqpErrorResourceNameCollision => AmqpCondition::AmqpErrorResourceNameCollision,
            AmqpCondition::AmqpErrorUnauthorizedAccess => AmqpCondition::AmqpErrorUnauthorizedAccess,
            AmqpCondition::AmqpErrorNotAllowed => AmqpCondition::AmqpErrorNotAllowed,
            AmqpCondition::AmqpErrorNotImplemented => AmqpCondition::AmqpErrorNotImplemented,
            AmqpCondition::AmqpErrorNotModified => AmqpCondition::AmqpErrorNotModified,
            AmqpCondition::AmqpErrorDecodeError => AmqpCondition::AmqpErrorDecodeError,
            AmqpCondition::AmqpErrorInvalidField => AmqpCondition::AmqpErrorInvalidField,
            AmqpCondition::AmqpErrorNotAccepted => AmqpCondition::AmqpErrorNotAccepted,
            AmqpCondition::AmqpErrorRejected => AmqpCondition::AmqpErrorRejected,
            AmqpCondition::AmqpErrorInternalError => AmqpCondition::AmqpErrorInternalError,
            AmqpCondition::AmqpErrorIllegalState => AmqpCondition::AmqpErrorIllegalState,
            AmqpCondition::Custom(s) => AmqpCondition::Custom(s.clone()),
        }
    }
}

impl ConditionCategory {
    /// The category's name.
    pub open spec fn name(&self) -> Seq<char> {
        match self {
            ConditionCategory::Success => "Success"@,
            ConditionCategory::Connection => "Connection"@,
            ConditionCategory::Session => "Session"@,
            ConditionCategory::Link => "Link"@,
            ConditionCategory::Resource => "Resource"@,
            ConditionCategory::Access => "Access"@,
            ConditionCategory::Content => "Content"@,
            ConditionCategory::Internal => "Internal"@,
            ConditionCategory::Custom => "Custom"@,
        }
    }

    /// The category's name as an owned string.
    pub fn to_string(&self) -> (s: String)
        ensures
            s@ == self.name(),
    {
        let name = match self {
            ConditionCategory::Success => "Success",
            ConditionCategory::Connection => "Connection",
            ConditionCategory::Session => "Session",
            ConditionCategory::Link => "Link",
            ConditionCategory::Resource => "Resource",
            ConditionCategory::Access => "Access",
            ConditionCategory::Content => "Content",
            ConditionCategory::Internal => "Internal",
            ConditionCategory::Custom => "Custom",
        };
        name.to_owned()
    }
}

impl From<&str> for AmqpCondition {
    fn from(s: &str) -> (c: Self)
        ensures
            c.name() == s@,
            c is Custom <==> !is_named_condition(s@),
    {
        AmqpCondition::parse(s)
    }
}

impl vstd::std_specs::convert::FromSpecImpl<&str> for AmqpCondition {
    open spec fn obeys_from_spec() -> bool {
        false
    }

    open spec fn from_spec(s: &str) -> Self {
        AmqpCondition::Okay
    }
}

/// The texts of two named conditions differ.
proof fn lemma_names_differ(a: AmqpCondition, b: AmqpCondition)
    requires
        !(a is Custom),
        !(b is Custom),
        a != b,
    ensures
        a.name() != b.name(),
        a.name().len() > 0,
{
    reveal_strlit("amqp:ok");
    reveal_strlit("amqp:accepted");
    reveal_strlit("amqp:released");
    reveal_strlit("amqp:modified");
    reveal_strlit("amqp:connection:forced");
    reveal_strlit("amqp:connection:framing-error");
    reveal_strlit("amqp:connection:redirect");
    reveal_strlit("amqp:session:window-violation");
    reveal_strlit("amqp:session:errant-link");
    reveal_strlit("amqp:session:handle-in-use");
    reveal_strlit("amqp:session:detach-forced");
    reveal_strlit("amqp:session:transfer-limit-exceeded");
    reveal_strlit("amqp:link:message-size-exceeded");
    reveal_strlit("amqp:link:redirect");
    reveal_strlit("amqp:link:transfer-refused");
    reveal_strlit("amqp:link:stolen");
    reveal_strlit("amqp:resource:deleted");
    reveal_strlit("amqp:resource:limit-exceeded");
    reveal_strlit("amqp:resource:locked");
    reveal_strlit("amqp:resource:precondition-failed");
    reveal_strlit("amqp:resource:name-collision");
    reveal_strlit("amqp:access:unauthorized");
    reveal_strlit("amqp:access:not-allowed");
    reveal_strlit("amqp:not-implemented");
    reveal_strlit("amqp:not-modified");
    reveal_strlit("amqp:decode-error");
    reveal_strlit("amqp:invalid-field");
    reveal_strlit("amqp:not-accepted");
    reveal_strlit("amqp:rejected");
    reveal_strlit("amqp:internal-error");
    reveal_strlit("amqp:illegal-state");
    let x = a.name();
    let y = b.name();
    if x.len() == y.len() {
        if x.len() == 13 {
            assert(x[5] != y[5] || x[7] != y[7]);
        }
        if x.len() == 17 {
            assert(x[5] != y[5] || x[9] != y[9]);
        }
        if x.len() == 18 {
            assert(x[5] != y[5] || x[6] != y[6]);
        }
        if x.len() == 20 {
            assert(x[5] != y[5]);
        }
        if x.len() == 24 {
            assert(x[5] != y[5]);
        }
        if x.len() == 26 {
            assert(x[13] != y[13]);
        }
        if x.len() == 28 {
            assert(x[14] != y[14]);
        }
        if x.len() == 29 {
            assert(x[5] != y[5]);
        }
    }
}

/// Parsing the text of a named condition gives the condition back: what
/// `parse` promises of its result leaves no other result.
pub proof fn named_condition_round_trip(condition: AmqpCondition, parsed: AmqpCondition)
    requires
        !(condition is Custom),
        parsed.name() == condition.name(),
        parsed is Custom <==> !is_named_condition(condition.name()),
    ensures
        parsed == condition,
{
    assert(is_named_condition(condition.name()));
    if parsed != condition {
        lemma_names_differ(parsed, condition);
    }
}

/// Parsing a text that names no condition gives the custom condition
/// with that text, which is an error of the category `Custom` with the
/// code 0.
pub proof fn unknown_text_is_custom(text: Seq<char>, parsed: AmqpCondition)
    requires
        !is_named_condition(text),
        parsed.name() == text,
        parsed is Custom <==> !is_named_condition(text),
    ensures
        parsed is Custom,
        parsed->Custom_0@ == text,
        parsed.code() == 0,
        !parsed.success(),
        parsed.category_of() == ConditionCategory::Custom,
{
}

} // verus!
