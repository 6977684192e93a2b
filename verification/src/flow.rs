//! The decisions of the login and attendance flow.
//!
//! The flow checks the saved access token with the server, obtains a new one by scanning a login
//! QR code when there is none or it is refused, and then submits scanned attendance challenges
//! until the server refuses the token. Requests, scans and prompts happen outside; here each
//! event they produce is turned into the next state and the actions to perform, in order.

use vstd::prelude::*;

use crate::api::{ClientMessage, SubmitChallengeResponse};
use crate::qr::ParsedChallenge;
use crate::scene::BreadcrumbRequest;

verus! {

/// HTTP status with which the server refuses a token.
pub const UNAUTHORIZED: u16 = 401;

/// How a request to the server failed: with an HTTP status, or otherwise; and the message to
/// show.
pub struct RequestError {
    pub status: Option<u16>,
    pub message: String,
}

/// Where the flow is.
pub enum FlowState {
    /// Waiting for the saved settings.
    LoadingSettings,
    /// Waiting for the server to say whose token `token` is.
    Checking { token: String },
    /// A check of `token` failed; waiting for the user to retry.
    AwaitingRetry { token: String },
    /// Waiting for a login QR code.
    ScanningLogin,
    /// Waiting for the server to redeem a login token.
    Redeeming,
    /// Waiting for an attendance QR code, logged in with `token`.
    ScanningChallenge { token: String },
    /// Waiting for the server to accept a challenge submitted with `token`.
    Submitting { token: String },
    /// Showing a successful mark; waiting for the user to go on.
    AwaitingAcknowledge { token: String },
}

/// What happened outside.
pub enum FlowEvent {
    /// The saved settings hold this access token, if any.
    SettingsLoaded(Option<String>),
    /// The server's answer to "whose token is this": the user's name, or an error.
    MeAnswered(Result<String, RequestError>),
    /// The user chose to retry.
    RetryConfirmed,
    /// A login QR code was scanned.
    LoginScanned(String),
    /// The server's answer to redeeming a login token: an access token, or an error.
    RedeemAnswered(Result<String, RequestError>),
    /// An attendance QR code was scanned.
    ChallengeScanned(ParsedChallenge),
    /// The server's answer to a challenge submission.
    SubmitAnswered(Result<SubmitChallengeResponse, RequestError>),
    /// The user acknowledged the success prompt.
    SuccessAcknowledged,
}

/// What to do outside.
pub enum FlowAction {
    LoadSettings,
    AskWhoseToken(String),
    SetBreadcrumb(BreadcrumbRequest),
    PromptRetry(String),
    SetUsername(Option<String>),
    SaveToken(Option<String>),
    AskToScanLogin,
    ScanLogin,
    Redeem(String),
    NotifyError(String),
    AskToScanChallenge,
    ScanChallenge,
    Submit { access_token: String, code: String, secret_code: String },
    PromptSuccess {
        session_title: String,
        attendance_snippet: Vec<String>,
        your_username: String,
        message_of_the_day: Option<ClientMessage>,
    },
}

/// Whether a failed request was refused for an invalid token.
pub open spec fn is_unauthorized(error: RequestError) -> bool {
    error.status == Some(UNAUTHORIZED)
}

/// The actions that start waiting for a login QR code.
pub open spec fn login_prompt() -> Seq<FlowAction> {
    seq![
        FlowAction::SetBreadcrumb(BreadcrumbRequest::Login(true)),
        FlowAction::AskToScanLogin,
        FlowAction::ScanLogin,
    ]
}

/// The actions that start waiting for an attendance QR code.
pub open spec fn challenge_prompt() -> Seq<FlowAction> {
    seq![
        FlowAction::SetBreadcrumb(BreadcrumbRequest::Mark(true)),
        FlowAction::AskToScanChallenge,
        FlowAction::ScanChallenge,
    ]
}

/// If `action` saves a token, that token is the one being checked and the server has said whose
/// it is.
pub open spec fn saves_confirmed_token(state: FlowState, event: FlowEvent, action: FlowAction) -> bool {
    match action {
        FlowAction::SaveToken(Some(saved)) => {
            &&& state matches FlowState::Checking { token } && token == saved
            &&& event matches FlowEvent::MeAnswered(Ok(_))
        },
        _ => true,
    }
}

/// The state the flow starts in and the action it starts with.
pub fn start() -> (first: (FlowState, Vec<FlowAction>))
    ensures
        first.0 == FlowState::LoadingSettings,
        first.1@ == seq![FlowAction::LoadSettings],
{
    (FlowState::LoadingSettings, vec![FlowAction::LoadSettings])
}

fn login_prompt_exec(actions: &mut Vec<FlowAction>)
    ensures
        final(actions)@ == old(actions)@ + login_prompt(),
{
    actions.push(FlowAction::SetBreadcrumb(BreadcrumbRequest::Login(true)));
    actions.push(FlowAction::AskToScanLogin);
    actions.push(FlowAction::ScanLogin);
    assert(actions@ =~= old(actions)@ + login_prompt());
}

fn challenge_prompt_exec(actions: &mut Vec<FlowAction>)
    ensures
        final(actions)@ == old(actions)@ + challenge_prompt(),
{
    actions.push(FlowAction::SetBreadcrumb(BreadcrumbRequest::Mark(true)));
    actions.push(FlowAction::AskToScanChallenge);
    actions.push(FlowAction::ScanChallenge);
    assert(actions@ =~= old(actions)@ + challenge_prompt());
}

/// The next state of the flow, and the actions to perform in order, when `event` happens in
/// `state`. An event that cannot happen in `state` changes nothing.
pub fn step(state: FlowState, event: FlowEvent) -> (next: (FlowState, Vec<FlowAction>))
    ensures
        match (state, event) {
            (FlowState::LoadingSettings, FlowEvent::SettingsLoaded(None)) => next.0
                == FlowState::ScanningLogin && next.1@ == login_prompt(),
            (FlowState::LoadingSettings, FlowEvent::SettingsLoaded(Some(token))) => next.0
                == (FlowState::Checking { token }) && next.1@ == seq![
                FlowAction::AskWhoseToken(token),
            ],
            (FlowState::Checking { token }, FlowEvent::MeAnswered(Ok(name))) => next.0
                == (FlowState::ScanningChallenge { token }) && next.1@ == seq![
                FlowAction::SetUsername(Some(name)),
                FlowAction::SaveToken(Some(token)),
            ] + challenge_prompt(),
            (FlowState::Checking { token }, FlowEvent::MeAnswered(Err(error))) => if is_unauthorized(
                error,
            ) {
                next.0 == FlowState::ScanningLogin && next.1@ == seq![
                    FlowAction::SetUsername(None),
                    FlowAction::SaveToken(None),
                ] + login_prompt()
            } else {
                next.0 == (FlowState::AwaitingRetry { token }) && next.1@ == seq![
                    FlowAction::SetBreadcrumb(BreadcrumbRequest::Login(false)),
                    FlowAction::PromptRetry(error.message),
                ]
            },
            (FlowState::AwaitingRetry { token }, FlowEvent::RetryConfirmed) => next.0
                == (FlowState::Checking { token }) && next.1@ == seq![
                FlowAction::AskWhoseToken(token),
            ],
            (FlowState::ScanningLogin, FlowEvent::LoginScanned(login_token)) => next.0
                == FlowState::Redeeming && next.1@ == seq![FlowAction::Redeem(login_token)],
            (FlowState::Redeeming, FlowEvent::RedeemAnswered(Ok(token))) => next.0
                == (FlowState::Checking { token }) && next.1@ == seq![
                FlowAction::AskWhoseToken(token),
            ],
            (FlowState::Redeeming, FlowEvent::RedeemAnswered(Err(error))) => next.0
                == FlowState::ScanningLogin && next.1@ == seq![
                FlowAction::NotifyError(error.message),
            ] + login_prompt(),
            (FlowState::ScanningChallenge { token }, FlowEvent::ChallengeScanned(challenge)) => next.0
                == (FlowState::Submitting { token }) && next.1@ == seq![
                FlowAction::Submit {
                    access_token: token,
                    code: challenge.code,
                    secret_code: challenge.secret_code,
                },
            ],
            (FlowState::Submitting { token }, FlowEvent::SubmitAnswered(Ok(response))) => next.0
                == (FlowState::AwaitingAcknowledge { token }) && next.1@ == seq![
                FlowAction::SetBreadcrumb(BreadcrumbRequest::Success),
                FlowAction::PromptSuccess {
                    session_title: response.session_title,
                    attendance_snippet: response.attendance_snippet,
                    your_username: response.your_username,
                    message_of_the_day: response.message_of_the_day,
                },
            ],
            (FlowState::Submitting { token }, FlowEvent::SubmitAnswered(Err(error))) => if is_unauthorized(
                error,
            ) {
                next.0 == FlowState::LoadingSettings && next.1@ == seq![FlowAction::LoadSettings]
            } else {
                next.0 == (FlowState::ScanningChallenge { token }) && next.1@ == seq![
                    FlowAction::NotifyError(error.message),
                ] + challenge_prompt()
            },
            (FlowState::AwaitingAcknowledge { token }, FlowEvent::SuccessAcknowledged) => next.0
                == (FlowState::ScanningChallenge { token }) && next.1@ == challenge_prompt(),
            (state, _) => next.0 == state && next.1@.len() == 0,
        },
        // A token is saved only once the server has said whose it is.
        forall|k: int|
            #![trigger next.1@[k]]
            0 <= k < next.1@.len() ==> saves_confirmed_token(state, event, next.1@[k]),
{
    let mut actions: Vec<FlowAction> = Vec::new();
    match (state, event) {
        (FlowState::LoadingSettings, FlowEvent::SettingsLoaded(None)) => {
            login_prompt_exec(&mut actions);
            (FlowState::ScanningLogin, actions)
        },
        (FlowState::LoadingSettings, FlowEvent::SettingsLoaded(Some(token))) => {
            (FlowState::Checking { token: token.clone() }, vec![FlowAction::AskWhoseToken(token)])
        },
        (FlowState::Checking { token }, FlowEvent::MeAnswered(Ok(name))) => {
            actions.push(FlowAction::SetUsername(Some(name)));
            actions.push(FlowAction::SaveToken(Some(token.clone())));
            challenge_prompt_exec(&mut actions);
            (FlowState::ScanningChallenge { token }, actions)
        },
        (FlowState::Checking { token }, FlowEvent::MeAnswered(Err(error))) => {
            if error.status == Some(UNAUTHORIZED) {
                actions.push(FlowAction::SetUsername(None));
                actions.push(FlowAction::SaveToken(None));
                login_prompt_exec(&mut actions);
                (FlowState::ScanningLogin, actions)
            } else {
                actions.push(FlowAction::SetBreadcrumb(BreadcrumbRequest::Login(false)));
                actions.push(FlowAction::PromptRetry(error.message));
                (FlowState::AwaitingRetry { token }, actions)
            }
        },
        (FlowState::AwaitingRetry { token }, FlowEvent::RetryConfirmed) => {
            (FlowState::Checking { token: token.clone() }, vec![FlowAction::AskWhoseToken(token)])
        },
        (FlowState::ScanningLogin, FlowEvent::LoginScanned(login_token)) => {
            (FlowState::Redeeming, vec![FlowAction::Redeem(login_token)])
        },
        (FlowState::Redeeming, FlowEvent::RedeemAnswered(Ok(token))) => {
            (FlowState::Checking { token: token.clone() }, vec![FlowAction::AskWhoseToken(token)])
        },
        (FlowState::Redeeming, FlowEvent::RedeemAnswered(Err(error))) => {
            actions.push(FlowAction::NotifyError(error.message));
            login_prompt_exec(&mut actions);
            (FlowState::ScanningLogin, actions)
        },
        (FlowState::ScanningChallenge { token }, FlowEvent::ChallengeScanned(challenge)) => {
            actions.push(
                FlowAction::Submit {
                    access_token: token.clone(),
                    code: challenge.code,
                    secret_code: challenge.secret_code,
                },
            );
            (FlowState::Submitting { token }, actions)
        },
        (FlowState::Submitting { token }, FlowEvent::SubmitAnswered(Ok(response))) => {
            actions.push(FlowAction::SetBreadcrumb(BreadcrumbRequest::Success));
            actions.push(
                FlowAction::PromptSuccess {
                    session_title: response.session_title,
                    attendance_snippet: response.attendance_snippet,
                    your_username: response.your_username,
                    message_of_the_day: response.message_of_the_day,
                },
            );
            (FlowState::AwaitingAcknowledge { token }, actions)
        },
        (FlowState::Submitting { token }, FlowEvent::SubmitAnswered(Err(error))) => {
            if error.status == Some(UNAUTHORIZED) {
                (FlowState::LoadingSettings, vec![FlowAction::LoadSettings])
            } else {
                actions.push(FlowAction::NotifyError(error.message));
                challenge_prompt_exec(&mut actions);
                (FlowState::ScanningChallenge { token }, actions)
            }
        },
        (FlowState::AwaitingAcknowledge { token }, FlowEvent::SuccessAcknowledged) => {
            challenge_prompt_exec(&mut actions);
            (FlowState::ScanningChallenge { token }, actions)
        },
        (state, _) => (state, actions),
    }
}

} // verus!
