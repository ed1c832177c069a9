//! The decision procedure that guards a protected service.
//!
//! Each request is intercepted once, as a small machine: it starts in
//! [`Stage::Start`], receives at most three events (the request itself, the
//! outcome of verifying and decoding its credential, the outcome of checking
//! the decoded claims against policy), and answers each with an [`Action`]
//! for the host to perform. The host owns the request, the token checker and
//! the downstream service; this module owns every decision.

use vstd::prelude::*;
use crate::token::{bearer_scheme, bearer_token, equals_ascii, get_token};

verus! {

/// What a request carries under the authorization header name.
#[derive(Clone, Debug, PartialEq, Eq)]
pub enum Authorization {
    /// No such header.
    Absent,
    /// A header whose value cannot be read as text.
    NotText,
    /// A header whose value reads as this text.
    Text(String),
}

/// The mathematical value of an [`Authorization`].
pub ghost enum AuthorizationModel {
    Absent,
    NotText,
    Text(Seq<char>),
}

impl View for Authorization {
    type V = AuthorizationModel;

    open spec fn view(&self) -> AuthorizationModel {
        match self {
            Authorization::Absent => AuthorizationModel::Absent,
            Authorization::NotText => AuthorizationModel::NotText,
            Authorization::Text(s) => AuthorizationModel::Text(s@),
        }
    }
}

/// An input to the interception of one request.
#[derive(Clone, Debug, PartialEq, Eq)]
pub enum Event {
    /// The request, by its method and what it carries for authorization.
    Arrived { method: String, authorization: Authorization },
    /// Whether the checker verified and decoded the credential.
    Decoded { ok: bool },
    /// Whether the checker accepted the decoded claims.
    Checked { ok: bool },
}

/// The mathematical value of an [`Event`].
pub ghost enum EventModel {
    Arrived { method: Seq<char>, authorization: AuthorizationModel },
    Decoded { ok: bool },
    Checked { ok: bool },
}

impl View for Event {
    type V = EventModel;

    open spec fn view(&self) -> EventModel {
        match self {
            Event::Arrived { method, authorization } => EventModel::Arrived {
                method: method@,
                authorization: authorization@,
            },
            Event::Decoded { ok } => EventModel::Decoded { ok: *ok },
            Event::Checked { ok } => EventModel::Checked { ok: *ok },
        }
    }
}

/// Where the interception of one request stands.
#[derive(Clone, Copy, Debug, PartialEq, Eq, Structural)]
pub enum Stage {
    /// Nothing seen yet.
    Start,
    /// The credential is with the checker.
    Verifying,
    /// The decoded claims are with the checker.
    Validating,
    /// Handed to the downstream service (terminal).
    Forwarded,
    /// Rejected as unauthorized (terminal).
    Unauthorized,
    /// Rejected with the checker's own decode failure (terminal).
    DecodeFailed,
}

/// What the host is to do next.
#[derive(Clone, Debug, PartialEq, Eq)]
pub enum Action {
    /// Pass the original request to the downstream service and return its
    /// response or error unchanged.
    Forward,
    /// Answer with an unauthorized rejection; the downstream service is not
    /// called.
    RejectUnauthorized,
    /// Hand this token to the checker to verify and decode.
    Verify { token: String },
    /// Have the checker judge the decoded claims against the validation
    /// options.
    Validate,
    /// Answer with the checker's decode failure as it came; the downstream
    /// service is not called.
    PropagateDecodeError,
}

/// The mathematical value of an [`Action`].
pub ghost enum ActionModel {
    Forward,
    RejectUnauthorized,
    Verify { token: Seq<char> },
    Validate,
    PropagateDecodeError,
}

impl View for Action {
    type V = ActionModel;

    open spec fn view(&self) -> ActionModel {
        match self {
            Action::Forward => ActionModel::Forward,
            Action::RejectUnauthorized => ActionModel::RejectUnauthorized,
            Action::Verify { token } => ActionModel::Verify { token: token@ },
            Action::Validate => ActionModel::Validate,
            Action::PropagateDecodeError => ActionModel::PropagateDecodeError,
        }
    }
}

/// The method that passes without authentication.
pub open spec fn bypass_method() -> Seq<char> {
    seq!['O', 'P', 'T', 'I', 'O', 'N', 'S']
}

/// The event that `stage` is waiting for is of the kind of `event`.
pub open spec fn awaits(stage: Stage, event: EventModel) -> bool {
    match event {
        EventModel::Arrived { .. } => stage == Stage::Start,
        EventModel::Decoded { .. } => stage == Stage::Verifying,
        EventModel::Checked { .. } => stage == Stage::Validating,
    }
}

/// The stage reached, and the action asked for, on `event`.
pub open spec fn transition(stage: Stage, event: EventModel) -> (Stage, ActionModel) {
    match event {
        EventModel::Arrived { method, authorization } => {
            if method == bypass_method() {
                (Stage::Forwarded, ActionModel::Forward)
            } else {
                match authorization {
                    AuthorizationModel::Text(h) => match bearer_token(h) {
                        Some(t) => (Stage::Verifying, ActionModel::Verify { token: t }),
                        None => (Stage::Unauthorized, ActionModel::RejectUnauthorized),
                    },
                    _ => (Stage::Unauthorized, ActionModel::RejectUnauthorized),
                }
            }
        },
        EventModel::Decoded { ok } => {
            if ok {
                (Stage::Validating, ActionModel::Validate)
            } else {
                (Stage::DecodeFailed, ActionModel::PropagateDecodeError)
            }
        },
        EventModel::Checked { ok } => {
            if ok {
                (Stage::Forwarded, ActionModel::Forward)
            } else {
                (Stage::Unauthorized, ActionModel::RejectUnauthorized)
            }
        },
    }
}

impl Stage {
    /// Whether this stage is waiting for an event of the kind of `event`.
    pub fn accepts(&self, event: &Event) -> (r: bool)
        ensures
            r == awaits(*self, event@),
    {
        match event {
            Event::Arrived { .. } => *self == Stage::Start,
            Event::Decoded { .. } => *self == Stage::Verifying,
            Event::Checked { .. } => *self == Stage::Validating,
        }
    }

    /// Whether the interception has ended.
    pub fn is_terminal(&self) -> (r: bool)
        ensures
            r == (*self == Stage::Forwarded || *self == Stage::Unauthorized || *self
                == Stage::DecodeFailed),
    {
        match self {
            Stage::Forwarded | Stage::Unauthorized | Stage::DecodeFailed => true,
            _ => false,
        }
    }
}

/// Takes the interception of a request one event further: the stage it
/// reaches, and what the host is to do.
pub fn advance(stage: Stage, event: &Event) -> (r: (Stage, Action))
    requires
        awaits(stage, event@),
    ensures
        r.0 == transition(stage, event@).0,
        r.1@ == transition(stage, event@).1,
{
    match event {
        Event::Arrived { method, authorization } => {
            let bypass = "OPTIONS";
            proof {
                reveal_strlit("OPTIONS");
                assert(bypass@ =~= bypass_method());
            }
            if equals_ascii(method.as_str(), bypass) {
                return (Stage::Forwarded, Action::Forward);
            }
            match authorization {
                Authorization::Text(h) => match get_token(h.as_str()) {
                    Some(t) => (Stage::Verifying, Action::Verify { token: t.to_owned() }),
                    None => (Stage::Unauthorized, Action::RejectUnauthorized),
                },
                _ => (Stage::Unauthorized, Action::RejectUnauthorized),
            }
        },
        Event::Decoded { ok } => {
            if *ok {
                (Stage::Validating, Action::Validate)
            } else {
                (Stage::DecodeFailed, Action::PropagateDecodeError)
            }
        },
        Event::Checked { ok } => {
            if *ok {
                (Stage::Forwarded, Action::Forward)
            } else {
                (Stage::Unauthorized, Action::RejectUnauthorized)
            }
        },
    }
}

/// The actions asked for over the whole interception of a request with this
/// method and authorization, when the checker's verify-and-decode succeeds
/// exactly if `decode_ok` and its claims check exactly if `check_ok`.
pub open spec fn run(
    method: Seq<char>,
    authorization: AuthorizationModel,
    decode_ok: bool,
    check_ok: bool,
) -> Seq<ActionModel> {
    let (s1, a1) = transition(Stage::Start, EventModel::Arrived { method, authorization });
    if s1 == Stage::Verifying {
        let (s2, a2) = transition(s1, EventModel::Decoded { ok: decode_ok });
        if s2 == Stage::Validating {
            let (_, a3) = transition(s2, EventModel::Checked { ok: check_ok });
            seq![a1, a2, a3]
        } else {
            seq![a1, a2]
        }
    } else {
        seq![a1]
    }
}

/// The checker is asked to verify some token in `actions`.
pub open spec fn consults_checker(actions: Seq<ActionModel>) -> bool {
    exists|i: int| 0 <= i < actions.len() && actions[i] is Verify
}

/// An `OPTIONS` request is forwarded at once, whatever it carries and however
/// the checker would answer.
pub proof fn lemma_bypass_is_forwarded(
    authorization: AuthorizationModel,
    decode_ok: bool,
    check_ok: bool,
)
    ensures
        run(bypass_method(), authorization, decode_ok, check_ok) == seq![ActionModel::Forward],
{
}

/// Any other request without an authorization header, or with one that is not
/// text, is rejected as unauthorized and the checker is never consulted.
pub proof fn lemma_missing_header_is_unauthorized(
    method: Seq<char>,
    authorization: AuthorizationModel,
    decode_ok: bool,
    check_ok: bool,
)
    requires
        method != bypass_method(),
        !(authorization is Text),
    ensures
        run(method, authorization, decode_ok, check_ok) == seq![ActionModel::RejectUnauthorized],
        !consults_checker(run(method, authorization, decode_ok, check_ok)),
{
    let actions = run(method, authorization, decode_ok, check_ok);
    assert(!(actions[0] is Verify));
}

/// Any other request whose header text does not open with `"Bearer "` is
/// rejected as unauthorized and the checker is never consulted.
pub proof fn lemma_non_bearer_is_unauthorized(
    method: Seq<char>,
    header: Seq<char>,
    decode_ok: bool,
    check_ok: bool,
)
    requires
        method != bypass_method(),
        bearer_token(header) is None,
    ensures
        run(method, AuthorizationModel::Text(header), decode_ok, check_ok) == seq![
            ActionModel::RejectUnauthorized,
        ],
        !consults_checker(run(method, AuthorizationModel::Text(header), decode_ok, check_ok)),
{
    let actions = run(method, AuthorizationModel::Text(header), decode_ok, check_ok);
    assert(!(actions[0] is Verify));
}

/// A request with `"Bearer "` followed by any token is verified with exactly
/// that token, validated, and forwarded, when the checker decodes it and
/// accepts its claims.
pub proof fn lemma_accepted_token_is_forwarded(method: Seq<char>, token: Seq<char>)
    requires
        method != bypass_method(),
    ensures
        run(method, AuthorizationModel::Text(bearer_scheme() + token), true, true) == seq![
            ActionModel::Verify { token },
            ActionModel::Validate,
            ActionModel::Forward,
        ],
{
    lemma_bearer_token_of_scheme(token);
}

/// When the checker decodes the token but rejects its claims, the request is
/// rejected as unauthorized, and the last action is no forward.
pub proof fn lemma_rejected_claims_are_unauthorized(method: Seq<char>, token: Seq<char>)
    requires
        method != bypass_method(),
    ensures
        run(method, AuthorizationModel::Text(bearer_scheme() + token), true, false) == seq![
            ActionModel::Verify { token },
            ActionModel::Validate,
            ActionModel::RejectUnauthorized,
        ],
{
    lemma_bearer_token_of_scheme(token);
}

/// When the checker fails to verify and decode the token, its failure is
/// passed on as it came, and the claims are never checked.
pub proof fn lemma_decode_failure_is_propagated(
    method: Seq<char>,
    token: Seq<char>,
    check_ok: bool,
)
    requires
        method != bypass_method(),
    ensures
        run(method, AuthorizationModel::Text(bearer_scheme() + token), false, check_ok) == seq![
            ActionModel::Verify { token },
            ActionModel::PropagateDecodeError,
        ],
{
    lemma_bearer_token_of_scheme(token);
}

/// The same request, met with the same checker behaviour, is always decided
/// the same way.
pub proof fn lemma_deterministic(
    method: Seq<char>,
    authorization: AuthorizationModel,
    decode_ok: bool,
    check_ok: bool,
    other_method: Seq<char>,
    other_authorization: AuthorizationModel,
    other_decode_ok: bool,
    other_check_ok: bool,
)
    requires
        method == other_method,
        authorization == other_authorization,
        decode_ok == other_decode_ok,
        check_ok == other_check_ok,
    ensures
        run(method, authorization, decode_ok, check_ok) == run(
            other_method,
            other_authorization,
            other_decode_ok,
            other_check_ok,
        ),
{
}

/// A request ends forwarded exactly when it is an `OPTIONS` request, or it
/// carries a text header with a bearer token that the checker decodes and
/// whose claims it accepts; in every other case the downstream service is
/// not called.
pub proof fn lemma_forwarded_iff_authorized(
    method: Seq<char>,
    authorization: AuthorizationModel,
    decode_ok: bool,
    check_ok: bool,
)
    ensures
        ({
            let actions = run(method, authorization, decode_ok, check_ok);
            &&& actions.len() > 0
            &&& forall|i: int| 0 <= i < actions.len() - 1 ==> !(#[trigger] actions[i] is Forward)
            &&& (actions.last() == ActionModel::Forward <==> (method == bypass_method() || (
                authorization is Text && bearer_token(authorization->Text_0) is Some && decode_ok
                && check_ok)))
        }),
{
}

/// What follows `"Bearer "` is read back as the token.
proof fn lemma_bearer_token_of_scheme(token: Seq<char>)
    ensures
        bearer_token(bearer_scheme() + token) == Some(token),
{
    let h = bearer_scheme() + token;
    assert(h.subrange(0, 7) =~= bearer_scheme());
    assert(h.skip(7) =~= token);
}

} // verus!
