//! The addresses the relay talks to and the credentials it presents: the
//! local client's event stream and REST interface, and the remote collector.

use vstd::prelude::*;
use crate::decimal::{decimal, signed_decimal, unsigned_decimal};

verus! {

/// The standard base64 form, with padding, of the UTF-8 bytes of a text, as
/// the `base64` crate writes it.
pub uninterp spec fn base64_text(input: Seq<char>) -> Seq<char>;

/// Calls `base64::encode`, which encodes the bytes of `text` with the
/// standard alphabet and padding.
#[verifier::external_body]
#[allow(deprecated)]
fn base64_of(text: &str) -> (r: String)
    ensures
        r@ == base64_text(text@),
{
    base64::encode(text)
}

/// The token that authenticates against the local client: the base64 form of
/// `riot:` followed by the client's shared secret.
pub fn encode_token(remote_token: &str) -> (r: String)
    ensures
        r@ == base64_text("riot:"@ + remote_token@),
{
    let mut token = String::from_str("riot:");
    token.append(remote_token);
    base64_of(token.as_str())
}

/// The value of the `Authorization` header that carries a token: the scheme
/// `Basic`, a space and the token.
pub fn authorization_header(token: &str) -> (r: String)
    ensures
        r@ == "Basic "@ + token@,
{
    let mut header = String::from_str("Basic ");
    header.append(token);
    header
}

/// The address of the local client's event stream, as characters.
pub open spec fn stream_address(port: u32) -> Seq<char> {
    "wss://127.0.0.1:"@ + decimal(port as int)
}

/// The address under which the local client describes one summoner, as
/// characters.
pub open spec fn summoner_address(port: u32, summoner_id: i64) -> Seq<char> {
    "https://127.0.0.1:"@ + decimal(port as int) + "/lol-summoner/v1/summoners/"@ + decimal(
        summoner_id as int,
    )
}

/// The collector's address for sessions, as characters.
pub open spec fn session_collector_address() -> Seq<char> {
    "https://ternifolia.com/university/champselect"@
}

/// The collector's address for name maps, as characters.
pub open spec fn names_collector_address() -> Seq<char> {
    "https://ternifolia.com/university/summonernames"@
}

/// The address of the local client's event stream.
pub fn stream_url(port: u32) -> (r: String)
    ensures
        r@ == stream_address(port),
{
    let mut url = String::from_str("wss://127.0.0.1:");
    let digits = unsigned_decimal(port as u64);
    url.append(digits.as_str());
    url
}

/// The address under which the local client describes one summoner.
pub fn summoner_url(port: u32, summoner_id: i64) -> (r: String)
    ensures
        r@ == summoner_address(port, summoner_id),
{
    let mut url = String::from_str("https://127.0.0.1:");
    let digits = unsigned_decimal(port as u64);
    url.append(digits.as_str());
    url.append("/lol-summoner/v1/summoners/");
    let id = signed_decimal(summoner_id);
    url.append(id.as_str());
    url
}

/// The control frame that subscribes to champion-select session events. It is
/// sent once, as the first text frame after the stream has opened.
pub fn subscription_frame() -> (r: String)
    ensures
        r@ == "[5, \"OnJsonApiEvent_lol-champ-select_v1_session\"]"@,
{
    String::from_str("[5, \"OnJsonApiEvent_lol-champ-select_v1_session\"]")
}

/// The collector's address for sessions.
pub fn session_collector_url() -> (r: String)
    ensures
        r@ == session_collector_address(),
{
    String::from_str("https://ternifolia.com/university/champselect")
}

/// The collector's address for name maps.
pub fn names_collector_url() -> (r: String)
    ensures
        r@ == names_collector_address(),
{
    String::from_str("https://ternifolia.com/university/summonernames")
}

} // verus!
