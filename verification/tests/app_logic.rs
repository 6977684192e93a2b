use baam_3ds::api::{
    bearer_authorization, status_error, ClientMessage, ClientMessageVariant, HttpMethod, Me, RedeemLoginToken,
    SubmitChallenge, SubmitChallengeBody,
};
use baam_3ds::flow::{start, step, FlowAction, FlowEvent, FlowState, RequestError};
use baam_3ds::qr::{is_login_token, parse_challenge, parse_challenge_fragment, ProcessingTimings};
use baam_3ds::scene::{BreadcrumbRequest, CameraQrTestRequest};
use baam_3ds::settings::{Settings, SettingsHolder};
use baam_3ds::spmc_buffer::{
    buffer_of_info, readcount_of_info, shared_index_of, spmc_buffer, Output, INFINITE_REFCOUNT,
    INITIAL_LATEST_INFO,
};
use baam_3ds::ui::{
    error_message, logged_in_message, qr_test_request, restart_prompt, scan_challenge_message,
    scan_login_message, success_message,
};
use baam_3ds::viewfinder::{conversion_gives_up, rotate_image_to_screen};

#[test]
fn login_tokens_start_with_the_prefix() {
    assert!(is_login_token("BCT$abc"));
    assert!(is_login_token("BCT$"));
    assert!(!is_login_token("BCT"));
    assert!(!is_login_token("bct$abc"));
    assert!(!is_login_token("xBCT$"));
}

#[test]
fn challenge_fragments_split_at_their_only_dash() {
    let c = parse_challenge_fragment("abc-def").unwrap();
    assert_eq!((c.code.as_str(), c.secret_code.as_str()), ("abc", "def"));
    let c = parse_challenge_fragment("-").unwrap();
    assert_eq!((c.code.as_str(), c.secret_code.as_str()), ("", ""));
    assert!(parse_challenge_fragment("abcdef").is_none());
    assert!(parse_challenge_fragment("a-b-c").is_none());
}

#[test]
fn challenges_are_read_from_the_url_fragment() {
    let c = parse_challenge("https://baam.example/mark#CODE1-secret2").unwrap();
    assert_eq!(c.code, "CODE1");
    assert_eq!(c.secret_code, "secret2");
    assert!(parse_challenge("https://baam.example/mark").is_none());
    assert!(parse_challenge("not a url #a-b").is_none());
    assert!(parse_challenge("https://baam.example/#a-b-c").is_none());
}

#[test]
fn requests_carry_bearer_tokens() {
    assert_eq!(bearer_authorization("tok"), "Bearer tok");
    let call = RedeemLoginToken { login_token: "BCT$x".to_string() }.describe();
    assert!(matches!(call.method, HttpMethod::Post));
    assert_eq!(call.path, "/api/v2/redeem-login-token");
    assert_eq!(call.authorization, "Bearer BCT$x");
    let call = Me { access_token: "a".to_string() }.describe();
    assert!(matches!(call.method, HttpMethod::Get));
    assert_eq!(call.path, "/api/v2/me");
    let (call, body) = SubmitChallenge {
        access_token: "a".to_string(),
        body: SubmitChallengeBody { code: "c".to_string(), secret_code: "s".to_string() },
    }
    .describe();
    assert_eq!(call.path, "/api/v2/submit-challenge");
    assert_eq!(call.authorization, "Bearer a");
    assert_eq!((body.code.as_str(), body.secret_code.as_str()), ("c", "s"));
}

fn variant(kind: &str, value: &str) -> ClientMessageVariant {
    ClientMessageVariant { kind: kind.to_string(), value: value.to_string() }
}

#[test]
fn client_messages_keep_the_last_plain_text() {
    let m = ClientMessage::from_variants(vec![
        variant("plain", "first"),
        variant("html", "<b>x</b>"),
        variant("plain", "second"),
    ]);
    assert_eq!(m.to_display_string(), "second\n");
    let m = ClientMessage::from_variants(vec![variant("html", "<b>x</b>")]);
    assert_eq!(m.to_display_string(), "<Message Unsupported>\n");
}

#[test]
fn settings_are_loaded_once() {
    let mut holder = SettingsHolder::new();
    let s = holder.get(|| Settings { access_token: Some("t".to_string()) });
    assert_eq!(s.access_token.as_deref(), Some("t"));
    let s = holder.get(|| Settings { access_token: None });
    assert_eq!(s.access_token.as_deref(), Some("t"));
    let saved = holder.modify(|| Settings::default(), |mut s| {
        s.access_token = None;
        s
    });
    assert!(saved.access_token.is_none());
    assert!(holder.get(|| Settings { access_token: Some("u".to_string()) }).access_token.is_none());
}

#[test]
fn settings_modify_loads_first() {
    let mut holder = SettingsHolder::new();
    let saved = holder.modify(|| Settings { access_token: Some("old".to_string()) }, |s| {
        Settings { access_token: s.access_token.map(|t| t + "!") }
    });
    assert_eq!(saved.access_token.as_deref(), Some("old!"));
}

#[test]
fn shared_index_layout() {
    assert_eq!(shared_index_of(3), 3 * 1024);
    assert_eq!(buffer_of_info(3 * 1024 + 7), 3);
    assert_eq!(readcount_of_info(3 * 1024 + 7), 7);
    assert_eq!(buffer_of_info(1), 0);
    assert_eq!(readcount_of_info(1), 1);
}

#[test]
fn producer_publishes_and_finds_free_buffers() {
    let (mut input, mut output) = spmc_buffer(2);
    assert_eq!(input.write_buffer(), 1);
    // the first consumer holds the initially published buffer 0 and sees no update yet
    assert_eq!(output.read_buffer(), 0);
    assert!(!output.updated(INITIAL_LATEST_INFO));
    assert_eq!(input.published_info(), 1024);
    // publishing buffer 1 replaces buffer 0, which had one reader
    input.record_replaced(INITIAL_LATEST_INFO);
    // buffer 0: its reader is not done; buffer 1: published; buffers 2, 3: free
    assert!(input.select_write_buffer(&vec![0, 0, 0, 0]));
    assert_eq!(input.write_buffer(), 2);
    assert!(!input.select_write_buffer(&vec![0, INFINITE_REFCOUNT - 1, 1, 1]));
    assert_eq!(input.write_buffer(), 2);
    // once the consumer is done with buffer 0, it is free again
    assert!(input.select_write_buffer(&vec![1, 0, 1, 1]));
    assert_eq!(input.write_buffer(), 0);

    // the consumer moves on to buffer 1, published with 3 readers before it
    assert!(output.updated(1024));
    assert_eq!(output.switch_to(1024 + 3), 0);
    assert_eq!(output.read_buffer(), 1);
    assert!(!output.updated(1024 + 4));
    assert!(output.updated(2 * 1024 + 5));
    assert_eq!(Output::acquired(5 * 1024 + 1).read_buffer(), 5);
}

#[test]
fn ui_texts() {
    assert_eq!(error_message("boom"), "Error: boom\n");
    assert_eq!(restart_prompt("boom"), "Error: boom\nRetry? [A/B]");
    assert_eq!(scan_login_message(), "Scan login QR\n 192.168.12.78:44321/ConnectMobile\n");
    assert_eq!(scan_challenge_message(), "Scan attendance QR\n");
    assert_eq!(logged_in_message(Some("ann")), "Logged in as\n ann\n");
    assert_eq!(logged_in_message(None), "Logged in as\n <unknown>\n");
    assert!(matches!(qr_test_request(1), CameraQrTestRequest::Accepted));
    assert!(matches!(qr_test_request(2), CameraQrTestRequest::Rejected));
    assert!(matches!(qr_test_request(0), CameraQrTestRequest::Idle));
    assert!(matches!(qr_test_request(9), CameraQrTestRequest::Idle));
}

#[test]
fn success_message_lists_attendance() {
    let attendance = vec!["ann@uni.example".to_string(), "bob".to_string()];
    let motd = ClientMessage::from_variants(vec![variant("plain", "hi")]);
    assert_eq!(
        success_message("Lecture", &attendance, "bob", Some(&motd)),
        "Marked in\n Lecture\n   ann\n * bob\n\nMessage of the day:\nhi\n\nAgain? [A/B]"
    );
    assert_eq!(
        success_message("L", &vec![], "x", None),
        "Marked in\n L\nAgain? [A/B]"
    );
}

#[test]
fn rotation_turns_the_image_right() {
    // 3x2 image: row 0 = 1 2 3, row 1 = 4 5 6
    let src = [1u16, 2, 3, 4, 5, 6];
    let mut fb = vec![0u16; 7];
    rotate_image_to_screen(&src, &mut fb, 3, 2);
    assert_eq!(fb, vec![4, 1, 5, 2, 6, 3, 0]);
}

fn error(status: Option<u16>, message: &str) -> RequestError {
    RequestError { status, message: message.to_string() }
}

#[test]
fn flow_checks_saved_token_then_scans_challenges() {
    let (state, actions) = start();
    assert!(matches!(state, FlowState::LoadingSettings));
    assert!(matches!(actions.as_slice(), [FlowAction::LoadSettings]));
    let (state, actions) = step(state, FlowEvent::SettingsLoaded(Some("tok".to_string())));
    assert!(matches!(&state, FlowState::Checking { token } if token == "tok"));
    assert!(matches!(actions.as_slice(), [FlowAction::AskWhoseToken(t)] if t == "tok"));
    let (state, actions) = step(state, FlowEvent::MeAnswered(Ok("ann".to_string())));
    assert!(matches!(&state, FlowState::ScanningChallenge { token } if token == "tok"));
    assert!(matches!(
        actions.as_slice(),
        [
            FlowAction::SetUsername(Some(name)),
            FlowAction::SaveToken(Some(saved)),
            FlowAction::SetBreadcrumb(BreadcrumbRequest::Mark(true)),
            FlowAction::AskToScanChallenge,
            FlowAction::ScanChallenge,
        ] if name == "ann" && saved == "tok"
    ));
}

#[test]
fn flow_handles_refusals_and_failures() {
    let (state, actions) = step(FlowState::Checking { token: "t".to_string() }, FlowEvent::MeAnswered(Err(error(Some(401), "401"))));
    assert!(matches!(state, FlowState::ScanningLogin));
    assert!(matches!(actions.as_slice(), [FlowAction::SetUsername(None), FlowAction::SaveToken(None), FlowAction::SetBreadcrumb(BreadcrumbRequest::Login(true)), FlowAction::AskToScanLogin, FlowAction::ScanLogin]));

    let (state, actions) = step(FlowState::Checking { token: "t".to_string() }, FlowEvent::MeAnswered(Err(error(None, "offline"))));
    assert!(matches!(&state, FlowState::AwaitingRetry { token } if token == "t"));
    assert!(matches!(actions.as_slice(), [FlowAction::SetBreadcrumb(BreadcrumbRequest::Login(false)), FlowAction::PromptRetry(m)] if m == "offline"));
    let (state, _) = step(state, FlowEvent::RetryConfirmed);
    assert!(matches!(&state, FlowState::Checking { token } if token == "t"));

    let (state, actions) = step(FlowState::Submitting { token: "t".to_string() }, FlowEvent::SubmitAnswered(Err(error(Some(401), "401"))));
    assert!(matches!(state, FlowState::LoadingSettings));
    assert!(matches!(actions.as_slice(), [FlowAction::LoadSettings]));

    let (state, actions) = step(FlowState::Submitting { token: "t".to_string() }, FlowEvent::SubmitAnswered(Err(error(Some(500), "oops"))));
    assert!(matches!(&state, FlowState::ScanningChallenge { token } if token == "t"));
    assert!(matches!(actions.as_slice(), [FlowAction::NotifyError(m), _, _, _] if m == "oops"));

    let (state, actions) = step(FlowState::Redeeming, FlowEvent::RedeemAnswered(Err(error(None, "x"))));
    assert!(matches!(state, FlowState::ScanningLogin));
    assert_eq!(actions.len(), 4);

    // an event that cannot happen leaves the state as it was
    let (state, actions) = step(FlowState::ScanningLogin, FlowEvent::RetryConfirmed);
    assert!(matches!(state, FlowState::ScanningLogin));
    assert!(actions.is_empty());
}

#[test]
fn flow_scans_login_and_redeems() {
    let (state, actions) = step(FlowState::LoadingSettings, FlowEvent::SettingsLoaded(None));
    assert!(matches!(state, FlowState::ScanningLogin));
    assert_eq!(actions.len(), 3);
    let (state, actions) = step(state, FlowEvent::LoginScanned("BCT$1".to_string()));
    assert!(matches!(state, FlowState::Redeeming));
    assert!(matches!(actions.as_slice(), [FlowAction::Redeem(t)] if t == "BCT$1"));
    let (state, actions) = step(state, FlowEvent::RedeemAnswered(Ok("acc".to_string())));
    assert!(matches!(&state, FlowState::Checking { token } if token == "acc"));
    assert!(matches!(actions.as_slice(), [FlowAction::AskWhoseToken(t)] if t == "acc"));
}

#[test]
fn processing_timings_start_at_zero() {
    let timings = ProcessingTimings::default();
    assert_eq!(timings.binarize, 0);
    assert_eq!(timings.linear_external_contours, 0);
    assert_eq!(timings.contour_processing, 0);
    assert_eq!(timings.qr_detection, 0);
    assert_eq!(timings.qr_decoding, 0);
}

#[test]
fn only_200_answers_are_read() {
    assert_eq!(status_error(200), None);
    assert_eq!(status_error(401), Some(401));
    assert_eq!(status_error(204), Some(204));
}

#[test]
fn conversion_gives_up_after_two_attempts() {
    assert!(!conversion_gives_up(0));
    assert!(!conversion_gives_up(1));
    assert!(conversion_gives_up(2));
}
