//! The BAAM web API: its requests and responses, and the rules for building them.

use vstd::prelude::*;

verus! {

/// Host (and port) of the BAAM server.
pub const BAAM_HOST: &'static str = "192.168.12.78:44321";

/// HTTP method of an API request.
/// HTTP status of a successful answer.
pub const HTTP_OK: u16 = 200;

/// How a request answered with HTTP status `status` ends: `None` when the server answered with
/// [`HTTP_OK`] and the body is to be read, else the status to report as the request's error.
pub fn status_error(status: u16) -> (error: Option<u16>)
    ensures
        error == if status == HTTP_OK {
            None
        } else {
            Some(status)
        },
{
    if status == HTTP_OK {
        None
    } else {
        Some(status)
    }
}

#[derive(Clone, Copy)]
pub enum HttpMethod {
    Get,
    Post,
}

/// An API request, in the terms the HTTP client needs: method, path under the API base URL and
/// the value of the `Authorization` header.
pub struct ApiCall {
    pub method: HttpMethod,
    pub path: &'static str,
    pub authorization: String,
}

/// The `Authorization` header value that presents `token` as a bearer token.
pub fn bearer_authorization(token: &str) -> (header: String)
    ensures
        header@ == "Bearer "@ + token@,
{
    String::from_str("Bearer ").concat(token)
}

/// Exchange a scanned login token for an access token.
pub struct RedeemLoginToken {
    pub login_token: String,
}

/// The access token a login token was redeemed for.
pub struct RedeemLoginTokenResponse {
    pub access_token: String,
}

impl RedeemLoginToken {
    /// `POST /api/v2/redeem-login-token`, authorized by the login token.
    pub fn describe(self) -> (call: ApiCall)
        ensures
            call.method == HttpMethod::Post,
            call.path@ == "/api/v2/redeem-login-token"@,
            call.authorization@ == "Bearer "@ + self.login_token@,
    {
        ApiCall {
            method: HttpMethod::Post,
            path: "/api/v2/redeem-login-token",
            authorization: bearer_authorization(self.login_token.as_str()),
        }
    }
}

/// Ask who the access token belongs to.
pub struct Me {
    pub access_token: String,
}

/// The name of the logged-in user.
pub struct MeResponse {
    pub name: String,
}

impl Me {
    /// `GET /api/v2/me`, authorized by the access token.
    pub fn describe(self) -> (call: ApiCall)
        ensures
            call.method == HttpMethod::Get,
            call.path@ == "/api/v2/me"@,
            call.authorization@ == "Bearer "@ + self.access_token@,
    {
        ApiCall {
            method: HttpMethod::Get,
            path: "/api/v2/me",
            authorization: bearer_authorization(self.access_token.as_str()),
        }
    }
}

/// Submit the codes of a scanned attendance challenge.
pub struct SubmitChallenge {
    pub access_token: String,
    pub body: SubmitChallengeBody,
}

/// The JSON body of a challenge submission.
pub struct SubmitChallengeBody {
    pub code: String,
    pub secret_code: String,
}

/// The outcome of a successful challenge submission.
pub struct SubmitChallengeResponse {
    pub session_code: String,
    pub session_title: String,
    pub your_username: String,
    pub attendance_snippet: Vec<String>,
    pub message_of_the_day: Option<ClientMessage>,
}

impl SubmitChallenge {
    /// `POST /api/v2/submit-challenge`, authorized by the access token, with the body as JSON.
    pub fn describe(self) -> (call: (ApiCall, SubmitChallengeBody))
        ensures
            call.0.method == HttpMethod::Post,
            call.0.path@ == "/api/v2/submit-challenge"@,
            call.0.authorization@ == "Bearer "@ + self.access_token@,
            call.1 == self.body,
    {
        (
            ApiCall {
                method: HttpMethod::Post,
                path: "/api/v2/submit-challenge",
                authorization: bearer_authorization(self.access_token.as_str()),
            },
            self.body,
        )
    }
}

/// One rendition of a message: its kind (such as `plain` or `html`) and its text.
pub struct ClientMessageVariant {
    pub kind: String,
    pub value: String,
}

/// The text of the last `plain` rendition among `variants`, if any.
pub open spec fn last_plain(variants: Seq<ClientMessageVariant>) -> Option<Seq<char>>
    decreases variants.len(),
{
    if variants.len() == 0 {
        None
    } else if variants.last().kind@ == "plain"@ {
        Some(variants.last().value@)
    } else {
        last_plain(variants.drop_last())
    }
}

/// A message from the server; only its plain-text rendition is kept.
pub struct ClientMessage(Option<String>);

impl ClientMessage {
    /// The plain text of the message, if it had one.
    pub closed spec fn text(self) -> Option<Seq<char>> {
        match self.0 {
            Some(s) => Some(s@),
            None => None,
        }
    }

    /// The message whose renditions are `variants`: the last `plain` one is kept.
    pub fn from_variants(variants: Vec<ClientMessageVariant>) -> (message: ClientMessage)
        ensures
            message.text() == last_plain(variants@),
    {
        let plain_kind = String::from_str("plain");
        let mut plain: Option<String> = None;
        let mut i: usize = 0;
        while i < variants.len()
            invariant
                i <= variants@.len(),
                plain_kind@ == "plain"@,
                (match plain {
                    Some(s) => Some(s@),
                    None => None,
                }) == last_plain(variants@.take(i as int)),
            decreases variants@.len() - i,
        {
            proof {
                assert(variants@.take(i + 1).drop_last() =~= variants@.take(i as int));
            }
            if variants[i].kind == plain_kind {
                plain = Some(variants[i].value.clone());
            }
            i += 1;
        }
        proof {
            assert(variants@.take(variants@.len() as int) =~= variants@);
        }
        ClientMessage(plain)
    }

    /// The message as shown to the user: its text and a line break, or a placeholder line.
    pub fn to_display_string(&self) -> (shown: String)
        ensures
            shown@ == match self.text() {
                Some(text) => text + "\n"@,
                None => "<Message Unsupported>\n"@,
            },
    {
        match &self.0 {
            Some(message) => message.clone().concat("\n"),
            None => String::from_str("<Message Unsupported>\n"),
        }
    }
}

} // verus!
