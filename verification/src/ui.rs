//! State shared with the user interface, and the texts the terminal shows.

use vstd::prelude::*;

use crate::api::{ClientMessage, BAAM_HOST};
use crate::scene::CameraQrTestRequest;

verus! {

/// Flags the workers raise for the user interface.
pub struct SystemState {
    pub net_state: std::sync::atomic::AtomicBool,
    pub qr_processing_pulse: std::sync::atomic::AtomicBool,
    pub qr_test_pulse: std::sync::atomic::AtomicU8,
    pub qr_processing_time_us: std::sync::atomic::AtomicU32,
}

impl SystemState {
    /// All flags lowered, all counters zero.
    pub fn new() -> Self {
        Self {
            net_state: std::sync::atomic::AtomicBool::new(false),
            qr_processing_pulse: std::sync::atomic::AtomicBool::new(false),
            qr_test_pulse: std::sync::atomic::AtomicU8::new(0),
            qr_processing_time_us: std::sync::atomic::AtomicU32::new(0),
        }
    }
}

/// The scan light's state for a QR test pulse: 1 accepted, 2 rejected, anything else none.
pub fn qr_test_request(pulse: u8) -> (request: CameraQrTestRequest)
    ensures
        request == if pulse == 1 {
            CameraQrTestRequest::Accepted
        } else if pulse == 2 {
            CameraQrTestRequest::Rejected
        } else {
            CameraQrTestRequest::Idle
        },
{
    match pulse {
        2 => CameraQrTestRequest::Rejected,
        1 => CameraQrTestRequest::Accepted,
        _ => CameraQrTestRequest::Idle,
    }
}

/// Terminal text reporting an error.
pub fn error_message(error: &str) -> (text: String)
    ensures
        text@ == "Error: "@ + error@ + "\n"@,
{
    String::from_str("Error: ").concat(error).concat("\n")
}

/// Terminal text reporting an error and asking whether to retry.
pub fn restart_prompt(error: &str) -> (text: String)
    ensures
        text@ == "Error: "@ + error@ + "\nRetry? [A/B]"@,
{
    String::from_str("Error: ").concat(error).concat("\nRetry? [A/B]")
}

/// Terminal text asking to scan the login QR code.
pub fn scan_login_message() -> (text: String)
    ensures
        text@ == "Scan login QR\n "@ + BAAM_HOST@ + "/ConnectMobile\n"@,
{
    String::from_str("Scan login QR\n ").concat(BAAM_HOST).concat("/ConnectMobile\n")
}

/// Terminal text asking to scan the attendance QR code.
pub fn scan_challenge_message() -> (text: String)
    ensures
        text@ == "Scan attendance QR\n"@,
{
    String::from_str("Scan attendance QR\n")
}

/// Terminal text naming the logged-in user, or `<unknown>`.
pub fn logged_in_message(username: Option<&str>) -> (text: String)
    ensures
        text@ == "Logged in as\n "@ + match username {
            Some(name) => name@,
            None => "<unknown>"@,
        } + "\n"@,
{
    let name = match username {
        Some(name) => name,
        None => "<unknown>",
    };
    String::from_str("Logged in as\n ").concat(name).concat("\n")
}

/// The part of an attendee's address before its first `@` (the whole address if it has none).
pub open spec fn attendee_display(address: Seq<char>) -> Seq<char>
    decreases address.len(),
{
    if address.len() == 0 {
        address
    } else if address[0] == '@' {
        Seq::empty()
    } else {
        seq![address[0]] + attendee_display(address.drop_first())
    }
}

/// One attendance line: a star for the user themself, then the attendee's display name.
pub open spec fn attendance_line(address: Seq<char>, your_username: Seq<char>) -> Seq<char> {
    " "@ + (if address == your_username { "*"@ } else { " "@ }) + " "@ + attendee_display(address) + "\n"@
}

/// The attendance lines of `attendees`, in order.
pub open spec fn attendance_lines(attendees: Seq<String>, your_username: Seq<char>) -> Seq<char>
    decreases attendees.len(),
{
    if attendees.len() == 0 {
        Seq::empty()
    } else {
        attendance_lines(attendees.drop_last(), your_username) + attendance_line(
            attendees.last()@,
            your_username,
        )
    }
}

/// The text shown for a message of the day, as [`ClientMessage::to_display_string`] gives it.
pub open spec fn motd_display(motd: ClientMessage) -> Seq<char> {
    match motd.text() {
        Some(text) => text + "\n"@,
        None => "<Message Unsupported>\n"@,
    }
}

fn attendee_display_exec(address: &str) -> (display: String)
    ensures
        display@ == attendee_display(address@),
{
    let n = address.unicode_len();
    let mut i: usize = 0;
    proof {
        assert(address@.skip(0) =~= address@);
        assert(address@.take(0) =~= Seq::<char>::empty());
    }
    while i < n && address.get_char(i) != '@'
        invariant
            n == address@.len(),
            i <= n,
            forall|q: int| 0 <= q < i ==> address@[q] != '@',
            attendee_display(address@) == address@.take(i as int) + attendee_display(address@.skip(i as int)),
        decreases n - i,
    {
        proof {
            let rest = address@.skip(i as int);
            assert(rest[0] == address@[i as int]);
            assert(rest.drop_first() =~= address@.skip(i + 1));
            assert(address@.take(i + 1) =~= address@.take(i as int) + seq![address@[i as int]]);
        }
        i += 1;
    }
    proof {
        if i < n {
            assert(address@.skip(i as int)[0] == '@');
        } else {
            assert(address@.skip(i as int).len() == 0);
        }
        assert(address@.subrange(0, i as int) =~= address@.take(i as int));
    }
    String::from_str(address.substring_char(0, i))
}

/// Terminal text of a successful attendance mark: the session, the attendance list with the user
/// starred, the message of the day if there is one, and the prompt to mark again.
pub fn success_message(
    session_name: &str,
    attendance_snippet: &Vec<String>,
    your_username: &str,
    motd: Option<&ClientMessage>,
) -> (text: String)
    ensures
        text@ == "Marked in\n "@ + session_name@ + "\n"@ + attendance_lines(attendance_snippet@, your_username@)
            + match motd {
            Some(m) => "\nMessage of the day:\n"@ + motd_display(*m) + "\n"@,
            None => Seq::empty(),
        } + "Again? [A/B]"@,
{
    let mut message = String::from_str("Marked in\n ").concat(session_name).concat("\n");
    let ghost head = message@;
    let me = String::from_str(your_username);
    let mut k: usize = 0;
    while k < attendance_snippet.len()
        invariant
            k <= attendance_snippet@.len(),
            me@ == your_username@,
            message@ == head + attendance_lines(attendance_snippet@.take(k as int), your_username@),
        decreases attendance_snippet@.len() - k,
    {
        let attendance = &attendance_snippet[k];
        let display = attendee_display_exec(attendance.as_str());
        let mark = if *attendance == me { "*" } else { " " };
        message = message.concat(" ").concat(mark).concat(" ").concat(display.as_str()).concat("\n");
        proof {
            assert(attendance_snippet@.take(k + 1).drop_last() =~= attendance_snippet@.take(k as int));
            assert(message@ =~= head + attendance_lines(attendance_snippet@.take(k + 1), your_username@));
        }
        k += 1;
    }
    proof {
        assert(attendance_snippet@.take(attendance_snippet@.len() as int) =~= attendance_snippet@);
    }
    let ghost lines = message@;
    if let Some(motd) = motd {
        let shown = motd.to_display_string();
        message = message.concat("\nMessage of the day:\n").concat(shown.as_str()).concat("\n");
    }
    let text = message.concat("Again? [A/B]");
    proof {
        assert(text@ =~= "Marked in\n "@ + session_name@ + "\n"@ + attendance_lines(attendance_snippet@, your_username@)
            + match motd {
            Some(m) => "\nMessage of the day:\n"@ + motd_display(*m) + "\n"@,
            None => Seq::empty(),
        } + "Again? [A/B]"@);
    }
    text
}

} // verus!
