//! The request channel's typed outcomes.
//!
//! The gateway relays GET/PUT/POST calls to the control plane. The transport
//! work happens at the host's edge; what comes back — no credential, no
//! connection, or a status and a body that parsed or did not — is settled
//! here into the one typed result callers see. Settling is pure and touches
//! no shared state: a call in flight cannot block an independent call, and a
//! failed call leaves the gateway exactly as it was.

use vstd::prelude::*;

use crate::json::{json_model, JsonModel, JsonValue};

verus! {

/// The verb of a control-plane call.
#[derive(Clone, Copy, PartialEq, Eq, Structural, Debug)]
pub enum Method {
    Get,
    Put,
    Post,
}

/// The verb a call is written with on the wire.
pub open spec fn method_text(m: Method) -> Seq<char> {
    match m {
        Method::Get => "GET"@,
        Method::Put => "PUT"@,
        Method::Post => "POST"@,
    }
}

/// Spell a verb out for the transport.
pub fn method_token(m: Method) -> (r: String)
    ensures
        r@ == method_text(m),
{
    match m {
        Method::Get => "GET".to_owned(),
        Method::Put => "PUT".to_owned(),
        Method::Post => "POST".to_owned(),
    }
}

/// Why a call failed. One variant per distinct cause: no resolvable
/// credential, no connection, a non-success status, a body that did not
/// parse. A call never panics the gateway; it returns one of these.
#[derive(Clone, Copy, PartialEq, Eq, Structural, Debug)]
pub enum RequestError {
    Unauthenticated,
    Unreachable,
    Rejected(u16),
    Malformed,
}

/// What the transport reported for one call: the raw material settling works
/// on. A `Response` carries the status and the parsed body, or `None` where
/// the body did not parse.
pub enum WireOutcome {
    NoCredential,
    ConnectFailed,
    Response(u16, Option<JsonValue>),
}

/// The mathematical shadow of a wire outcome.
pub enum WireOutcomeModel {
    NoCredential,
    ConnectFailed,
    Response(u16, Option<JsonModel>),
}

impl View for WireOutcome {
    type V = WireOutcomeModel;

    open spec fn view(&self) -> WireOutcomeModel {
        match *self {
            WireOutcome::NoCredential => WireOutcomeModel::NoCredential,
            WireOutcome::ConnectFailed => WireOutcomeModel::ConnectFailed,
            WireOutcome::Response(status, body) => WireOutcomeModel::Response(
                status,
                match body {
                    Some(v) => Some(json_model(v)),
                    None => None,
                },
            ),
        }
    }
}

/// A success status in the control plane's convention.
pub open spec fn spec_is_success(status: u16) -> bool {
    200 <= status < 300
}

/// The typed result of one call, from what the transport reported, if and
/// only if: no credential is `Unauthenticated`; no connection is
/// `Unreachable`; a non-success status is `Rejected` with that status,
/// whatever the body; a success status whose body did not parse is
/// `Malformed`; and a success status with a parsed body is that body.
pub open spec fn spec_settle(o: WireOutcomeModel) -> Result<JsonModel, RequestError> {
    match o {
        WireOutcomeModel::NoCredential => Err(RequestError::Unauthenticated),
        WireOutcomeModel::ConnectFailed => Err(RequestError::Unreachable),
        WireOutcomeModel::Response(status, body) => if !spec_is_success(status) {
            Err(RequestError::Rejected(status))
        } else {
            match body {
                Some(v) => Ok(v),
                None => Err(RequestError::Malformed),
            }
        },
    }
}

/// Settle one call's outcome into the typed result the caller gets.
pub fn settle_response(o: WireOutcome) -> (r: Result<JsonValue, RequestError>)
    ensures
        match r {
            Ok(v) => spec_settle(o@) == Ok::<JsonModel, RequestError>(json_model(v)),
            Err(err) => spec_settle(o@) == Err::<JsonModel, RequestError>(err),
        },
{
    match o {
        WireOutcome::NoCredential => Err(RequestError::Unauthenticated),
        WireOutcome::ConnectFailed => Err(RequestError::Unreachable),
        WireOutcome::Response(status, body) => {
            if status < 200 || status >= 300 {
                Err(RequestError::Rejected(status))
            } else {
                match body {
                    Some(v) => Ok(v),
                    None => Err(RequestError::Malformed),
                }
            }
        },
    }
}

/// The read-call convention: an absent result is semantically valid for
/// read-style calls (a listing that may not exist yet) and is signalled
/// outward as a JSON `null`, not as an error.
pub fn absent_to_null(r: Option<JsonValue>) -> (v: JsonValue)
    ensures
        match r {
            Some(x) => json_model(v) == json_model(x),
            None => json_model(v) == JsonModel::Null,
        },
{
    match r {
        Some(x) => x,
        None => JsonValue::Null,
    }
}

/// The outer boundary's conversion: a typed failure leaves the gateway as a
/// JSON `null` toward the host, a success as its payload.
pub fn or_null(r: Result<JsonValue, RequestError>) -> (v: JsonValue)
    ensures
        match r {
            Ok(x) => json_model(v) == json_model(x),
            Err(_) => json_model(v) == JsonModel::Null,
        },
{
    match r {
        Ok(x) => x,
        Err(_) => JsonValue::Null,
    }
}

} // verus!
