//! The pipeline's control logic: the login flow with its single retry, and
//! the single-pass core that turns a login response body into the selected
//! role and the still-encoded assertion.

use vstd::prelude::*;
use vstd::utf8::valid_utf8;
use crate::codec::{base64_encoding, decode_token};
use crate::extract::{
    ParseError, extract_hidden_value, parse_assertion, spec_hidden_value, spec_parse_assertion,
};
use crate::roles::{Principal, PrincipalModel, RoleError, select_role, spec_select_role};
use crate::render::{AdfsConfig, TargetCredentials};

verus! {

/// Any failure of the response-processing core, by stage.
#[derive(Clone, Copy, Debug, PartialEq, Eq, Structural)]
pub enum FlowError {
    Parse(ParseError),
    Role(RoleError),
}

/// One observed outcome of a login attempt.
pub enum LoginEvent {
    /// The provider answered with a success status and this body.
    Success(String),
    /// The provider answered with a non-success status.
    HttpFailure,
    /// The request itself failed.
    TransportFailure,
}

/// The login flow's state: a first attempt, at most one retry, then a
/// terminal outcome.
pub enum LoginState {
    FirstAttempt,
    RetryPending,
    Done(String),
    Failed,
}

/// The login flow's transition: a success is surfaced verbatim; a first
/// HTTP failure earns exactly one retry; everything else is fatal.
pub open spec fn spec_login_step(s: LoginState, e: LoginEvent) -> LoginState {
    match s {
        LoginState::FirstAttempt => match e {
            LoginEvent::Success(b) => LoginState::Done(b),
            LoginEvent::HttpFailure => LoginState::RetryPending,
            LoginEvent::TransportFailure => LoginState::Failed,
        },
        LoginState::RetryPending => match e {
            LoginEvent::Success(b) => LoginState::Done(b),
            LoginEvent::HttpFailure => LoginState::Failed,
            LoginEvent::TransportFailure => LoginState::Failed,
        },
        LoginState::Done(b) => LoginState::Done(b),
        LoginState::Failed => LoginState::Failed,
    }
}

/// Advances the login flow by one observed attempt outcome.
pub fn login_step(state: LoginState, event: LoginEvent) -> (r: LoginState)
    ensures
        r == spec_login_step(state, event),
{
    match state {
        LoginState::FirstAttempt => match event {
            LoginEvent::Success(b) => LoginState::Done(b),
            LoginEvent::HttpFailure => LoginState::RetryPending,
            LoginEvent::TransportFailure => LoginState::Failed,
        },
        LoginState::RetryPending => match event {
            LoginEvent::Success(b) => LoginState::Done(b),
            LoginEvent::HttpFailure => LoginState::Failed,
            LoginEvent::TransportFailure => LoginState::Failed,
        },
        LoginState::Done(b) => LoginState::Done(b),
        LoginState::Failed => LoginState::Failed,
    }
}

/// The login flow retries exactly once: the first attempt's failure status
/// earns a retry and nothing else does, the retry's outcome is surfaced
/// verbatim, and two steps always reach a terminal state, so no third
/// attempt is ever made.
pub proof fn lemma_login_retries_once(e1: LoginEvent, e2: LoginEvent)
    ensures
        spec_login_step(LoginState::FirstAttempt, e1) is RetryPending <==> e1 is HttpFailure,
        e1 matches LoginEvent::Success(b) ==> spec_login_step(LoginState::FirstAttempt, e1)
            == LoginState::Done(b),
        e1 is TransportFailure ==> spec_login_step(LoginState::FirstAttempt, e1) is Failed,
        e2 matches LoginEvent::Success(b) ==> spec_login_step(
            spec_login_step(LoginState::FirstAttempt, LoginEvent::HttpFailure),
            e2,
        ) == LoginState::Done(b),
        !(e2 is Success) ==> spec_login_step(
            spec_login_step(LoginState::FirstAttempt, LoginEvent::HttpFailure),
            e2,
        ) is Failed,
        spec_login_step(spec_login_step(LoginState::FirstAttempt, e1), e2) is Done
            || spec_login_step(spec_login_step(LoginState::FirstAttempt, e1), e2) is Failed,
{
}

/// Temporary session credentials from the federation exchange, used only
/// to scope the client that performs the role assumption.
#[derive(Clone)]
pub struct SessionCredentials {
    pub access_key_id: String,
    pub secret_access_key: String,
    pub session_token: String,
}

/// A fatal failure of the two-call credential exchange.
#[derive(Clone, Copy, Debug, PartialEq, Eq, Structural)]
pub enum ExchangeError {
    /// The federation service rejected the assertion exchange.
    FederationError,
    /// The role assumption or the identity introspection failed.
    AssumeRoleError,
}

/// One observed outcome of an outside exchange call.
pub enum ExchangeEvent {
    FederationSuccess(SessionCredentials),
    FederationFailure,
    AssumeSuccess(TargetCredentials),
    AssumeFailure,
    IdentitySuccess(Option<String>),
    IdentityFailure,
}

/// The credential exchange's state: strictly forward through the federation
/// exchange, the role assumption and the identity introspection, aborting
/// on the first failure.
pub enum ExchangeState {
    RoleSelected,
    SessionCredentialed(SessionCredentials),
    TargetCredentialed(TargetCredentials),
    Done(AdfsConfig),
    Aborted(ExchangeError),
}

/// The exchange's transition: each stage accepts exactly its own call's
/// outcome, failure at any stage aborts with that stage's error, and an
/// event that does not belong to the state leaves the state unchanged.
pub open spec fn spec_exchange_step(s: ExchangeState, e: ExchangeEvent) -> ExchangeState {
    match (s, e) {
        (ExchangeState::RoleSelected, ExchangeEvent::FederationSuccess(c)) =>
            ExchangeState::SessionCredentialed(c),
        (ExchangeState::RoleSelected, ExchangeEvent::FederationFailure) => ExchangeState::Aborted(
            ExchangeError::FederationError,
        ),
        (ExchangeState::SessionCredentialed(_), ExchangeEvent::AssumeSuccess(t)) =>
            ExchangeState::TargetCredentialed(t),
        (ExchangeState::SessionCredentialed(_), ExchangeEvent::AssumeFailure) =>
            ExchangeState::Aborted(ExchangeError::AssumeRoleError),
        (ExchangeState::TargetCredentialed(t), ExchangeEvent::IdentitySuccess(account)) =>
            ExchangeState::Done(AdfsConfig { target_credentials: t, account_id: account }),
        (ExchangeState::TargetCredentialed(_), ExchangeEvent::IdentityFailure) =>
            ExchangeState::Aborted(ExchangeError::AssumeRoleError),
        (other, _) => other,
    }
}

/// Advances the credential exchange by one observed call outcome.
pub fn exchange_step(state: ExchangeState, event: ExchangeEvent) -> (r: ExchangeState)
    ensures
        r == spec_exchange_step(state, event),
{
    match (state, event) {
        (ExchangeState::RoleSelected, ExchangeEvent::FederationSuccess(c)) =>
            ExchangeState::SessionCredentialed(c),
        (ExchangeState::RoleSelected, ExchangeEvent::FederationFailure) => ExchangeState::Aborted(
            ExchangeError::FederationError,
        ),
        (ExchangeState::SessionCredentialed(_), ExchangeEvent::AssumeSuccess(t)) =>
            ExchangeState::TargetCredentialed(t),
        (ExchangeState::SessionCredentialed(_), ExchangeEvent::AssumeFailure) =>
            ExchangeState::Aborted(ExchangeError::AssumeRoleError),
        (ExchangeState::TargetCredentialed(t), ExchangeEvent::IdentitySuccess(account)) =>
            ExchangeState::Done(AdfsConfig { target_credentials: t, account_id: account }),
        (ExchangeState::TargetCredentialed(_), ExchangeEvent::IdentityFailure) =>
            ExchangeState::Aborted(ExchangeError::AssumeRoleError),
        (other, _) => other,
    }
}

/// The exchange chain is a single forward pass: three successful calls
/// carry the selected role to the finished artifact, with exactly the
/// credentials and account the calls returned, and a failure at any stage
/// aborts with that stage's error.
pub proof fn lemma_exchange_chain(c: SessionCredentials, t: TargetCredentials, account: Option<
    String,
>)
    ensures
        spec_exchange_step(
            spec_exchange_step(
                spec_exchange_step(
                    ExchangeState::RoleSelected,
                    ExchangeEvent::FederationSuccess(c),
                ),
                ExchangeEvent::AssumeSuccess(t),
            ),
            ExchangeEvent::IdentitySuccess(account),
        ) matches ExchangeState::Done(cfg) && cfg.target_credentials == t && cfg.account_id
            == account,
        spec_exchange_step(ExchangeState::RoleSelected, ExchangeEvent::FederationFailure)
            == ExchangeState::Aborted(ExchangeError::FederationError),
        spec_exchange_step(
            ExchangeState::SessionCredentialed(c),
            ExchangeEvent::AssumeFailure,
        ) == ExchangeState::Aborted(ExchangeError::AssumeRoleError),
        spec_exchange_step(
            ExchangeState::TargetCredentialed(t),
            ExchangeEvent::IdentityFailure,
        ) == ExchangeState::Aborted(ExchangeError::AssumeRoleError),
{
}

/// What the response-processing core hands on: the still-encoded assertion
/// for the federation exchange, and the selected principal/role pair.
pub struct RoleSelection {
    pub saml_token: Vec<u8>,
    pub principal: Principal,
}

/// The single-pass core after a successful login: extracts the hidden
/// base64 value, decodes it, parses the assertion, and selects the
/// requested role. The token handed on is the still-encoded assertion,
/// exactly as extracted, since the federation exchange expects the encoded
/// form.
pub fn process_login_response(body: &[u8], role_filter: &[u8]) -> (r: Result<
    RoleSelection,
    FlowError,
>)
    ensures
        match r {
            Ok(sel) => spec_hidden_value(body@) == Some(sel.saml_token@) && (exists|d: Seq<u8>|
                {
                    &&& sel.saml_token@ == #[trigger] base64_encoding(d)
                    &&& valid_utf8(d)
                    &&& spec_parse_assertion(d) matches Some(attrs) && spec_select_role(
                        attrs,
                        role_filter@,
                    ) == Ok::<PrincipalModel, RoleError>(sel.principal@)
                }),
            Err(FlowError::Parse(ParseError::MissingToken)) => spec_hidden_value(body@) is None,
            Err(FlowError::Parse(ParseError::InvalidEncoding)) => spec_hidden_value(body@)
                matches Some(t) && (forall|d: Seq<u8>|
                !(t == #[trigger] base64_encoding(d) && valid_utf8(d))),
            Err(FlowError::Parse(ParseError::InvalidAssertion)) => spec_hidden_value(body@)
                matches Some(t) && (exists|d: Seq<u8>|
                t == #[trigger] base64_encoding(d) && valid_utf8(d) && spec_parse_assertion(d)
                    is None),
            Err(FlowError::Role(e)) => spec_hidden_value(body@) matches Some(t) && (exists|
                d: Seq<u8>,
            |
                t == #[trigger] base64_encoding(d) && valid_utf8(d) && (spec_parse_assertion(d)
                    matches Some(attrs) && spec_select_role(attrs, role_filter@) == Err::<
                    PrincipalModel,
                    RoleError,
                >(e))),
        },
{
    let token = match extract_hidden_value(body) {
        Err(e) => {
            return Err(FlowError::Parse(e));
        },
        Ok(t) => t,
    };
    let decoded = match decode_token(token.as_slice()) {
        Err(e) => {
            return Err(FlowError::Parse(e));
        },
        Ok(d) => d,
    };
    let assertion = match parse_assertion(decoded.as_slice()) {
        Err(e) => {
            assert(token@ == base64_encoding(decoded@));
            return Err(FlowError::Parse(e));
        },
        Ok(a) => a,
    };
    match select_role(&assertion, role_filter) {
        Err(e) => {
            assert(token@ == base64_encoding(decoded@));
            Err(FlowError::Role(e))
        },
        Ok(principal) => {
            assert(token@ == base64_encoding(decoded@));
            Ok(RoleSelection { saml_token: token, principal })
        },
    }
}

} // verus!
