//! Recognizing what a scanned QR code holds: a login token or an attendance challenge.

use vstd::prelude::*;

verus! {

/// The prefix that marks a login token.
pub open spec fn login_token_prefix() -> Seq<char> {
    seq!['B', 'C', 'T', '$']
}

/// Whether `token` starts with the login token prefix `BCT$`.
pub fn is_login_token(token: &str) -> (is_token: bool)
    ensures
        is_token == (token@.len() >= 4 && token@.subrange(0, 4) == login_token_prefix()),
{
    let n = token.unicode_len();
    if n < 4 {
        return false;
    }
    let matches = token.get_char(0) == 'B' && token.get_char(1) == 'C' && token.get_char(2) == 'T'
        && token.get_char(3) == '$';
    proof {
        if matches {
            assert(token@.subrange(0, 4) =~= login_token_prefix());
        } else {
            assert(token@.subrange(0, 4)[0] == token@[0]);
            assert(token@.subrange(0, 4)[1] == token@[1]);
            assert(token@.subrange(0, 4)[2] == token@[2]);
            assert(token@.subrange(0, 4)[3] == token@[3]);
        }
    }
    matches
}

/// How long, in ticks, each stage of the QR recognizer took on the last frame.
#[derive(Debug, Clone, Copy)]
pub struct ProcessingTimings {
    pub binarize: u64,
    pub linear_external_contours: u64,
    pub contour_processing: u64,
    pub qr_detection: u64,
    pub qr_decoding: u64,
}

impl Default for ProcessingTimings {
    fn default() -> (timings: ProcessingTimings)
        ensures
            timings.binarize == 0,
            timings.linear_external_contours == 0,
            timings.contour_processing == 0,
            timings.qr_detection == 0,
            timings.qr_decoding == 0,
    {
        ProcessingTimings {
            binarize: 0,
            linear_external_contours: 0,
            contour_processing: 0,
            qr_detection: 0,
            qr_decoding: 0,
        }
    }
}

/// The two codes of an attendance challenge.
pub struct ParsedChallenge {
    pub code: String,
    pub secret_code: String,
}

/// Whether `f` holds exactly one `-`, at position `p`.
pub open spec fn single_dash_at(f: Seq<char>, p: int) -> bool {
    &&& 0 <= p < f.len()
    &&& f[p] == '-'
    &&& forall|q: int| 0 <= q < f.len() && q != p ==> f[q] != '-'
}

/// The code and secret code of a challenge fragment `code-secret`: the parts before and after
/// its only `-`; none when the fragment has no `-` or more than one.
pub open spec fn challenge_parts(f: Seq<char>) -> Option<(Seq<char>, Seq<char>)> {
    if exists|p: int| single_dash_at(f, p) {
        let p = choose|p: int| single_dash_at(f, p);
        Some((f.take(p), f.skip(p + 1)))
    } else {
        None
    }
}

/// Splits the fragment of a challenge URL into its code and secret code.
pub fn parse_challenge_fragment(fragment: &str) -> (parsed: Option<ParsedChallenge>)
    ensures
        match parsed {
            Some(challenge) => challenge_parts(fragment@) == Some(
                (challenge.code@, challenge.secret_code@),
            ),
            None => challenge_parts(fragment@) is None,
        },
{
    let n = fragment.unicode_len();
    let mut first: Option<usize> = None;
    let mut i: usize = 0;
    while i < n
        invariant
            n == fragment@.len(),
            i <= n,
            match first {
                None => forall|q: int| 0 <= q < i ==> fragment@[q] != '-',
                Some(p) => single_dash_at(fragment@.take(i as int), p as int),
            },
        decreases n - i,
    {
        if fragment.get_char(i) == '-' {
            if first.is_some() {
                proof {
                    let p = first.unwrap() as int;
                    assert forall|p2: int| !single_dash_at(fragment@, p2) by {
                        if single_dash_at(fragment@, p2) {
                            assert(fragment@.take(i as int)[p] == '-');
                        }
                    }
                }
                return None;
            }
            first = Some(i);
        }
        i += 1;
    }
    match first {
        None => {
            proof {
                assert forall|p2: int| !single_dash_at(fragment@, p2) by {}
            }
            None
        },
        Some(p) => {
            proof {
                assert(fragment@.take(n as int) =~= fragment@);
                assert(single_dash_at(fragment@, p as int));
                let c = choose|q: int| single_dash_at(fragment@, q);
                assert(c == p);
            }
            let code = String::from_str(fragment.substring_char(0, p));
            let secret_code = String::from_str(fragment.substring_char(p + 1, n));
            proof {
                assert(fragment@.subrange(0, p as int) =~= fragment@.take(p as int));
                assert(fragment@.subrange(p + 1, n as int) =~= fragment@.skip(p + 1));
            }
            Some(ParsedChallenge { code, secret_code })
        },
    }
}

/// What `url::Url::parse` and then `Url::fragment` give for `input`: none when the input is not
/// an absolute URL, else the URL's fragment if it has one.
pub uninterp spec fn url_fragment(input: Seq<char>) -> Option<Option<Seq<char>>>;

/// Parses `input` with `url::Url::parse` and takes the parsed URL's `fragment()` (the text after
/// its `#`). Claimed: the result is the named function `url_fragment` of the input; nothing is
/// claimed about which inputs parse or what their fragments are.
#[verifier::external_body]
fn parse_url_fragment(input: &str) -> (fragment: Option<Option<String>>)
    ensures
        match fragment {
            None => url_fragment(input@) is None,
            Some(None) => url_fragment(input@) == Some(None::<Seq<char>>),
            Some(Some(f)) => url_fragment(input@) == Some(Some(f@)),
        },
{
    match url::Url::parse(input) {
        Ok(url) => Some(url.fragment().map(String::from)),
        Err(_) => None,
    }
}

/// The challenge encoded in a scanned challenge URL: the two parts of its fragment.
pub fn parse_challenge(challenge: &str) -> (parsed: Option<ParsedChallenge>)
    ensures
        match url_fragment(challenge@) {
            Some(Some(f)) => match parsed {
                Some(c) => challenge_parts(f) == Some((c.code@, c.secret_code@)),
                None => challenge_parts(f) is None,
            },
            _ => parsed is None,
        },
{
    match parse_url_fragment(challenge) {
        Some(Some(fragment)) => parse_challenge_fragment(fragment.as_str()),
        _ => None,
    }
}

} // verus!
