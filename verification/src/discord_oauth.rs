//! Linking a Discord account through Discord's OAuth flow: the authorize
//! link, the token exchange request and the authorization header.

use crate::config::Config;
use crate::text::{append_str, chars_of, string_from_chars};
use vstd::prelude::*;

verus! {

/// Response from the Discord OAuth exchange URL.
#[derive(Debug)]
pub struct DiscordAccessToken {
    pub token_type: String,
    pub access_token: String,
}

// ---------------------------------------------------------------------------
// Percent-encoding
// ---------------------------------------------------------------------------

/// The bytes of a character's UTF-8 encoding.
pub open spec fn utf8_bytes(c: char) -> Seq<nat> {
    let cp = c as nat;
    if cp < 0x80 {
        seq![cp]
    } else if cp < 0x800 {
        seq![0xC0 + cp / 64, 0x80 + cp % 64]
    } else if cp < 0x10000 {
        seq![0xE0 + cp / 4096, 0x80 + (cp / 64) % 64, 0x80 + cp % 64]
    } else {
        seq![0xF0 + cp / 262144, 0x80 + (cp / 4096) % 64, 0x80 + (cp / 64) % 64, 0x80 + cp % 64]
    }
}

/// An upper-case hexadecimal digit.
pub open spec fn hex_digit(d: nat) -> char {
    if d < 10 {
        (('0' as nat) + d) as char
    } else {
        (('A' as nat) + d - 10) as char
    }
}

/// A byte written as `%` and two hexadecimal digits.
pub open spec fn percent_byte(b: nat) -> Seq<char> {
    seq!['%', hex_digit(b / 16), hex_digit(b % 16)]
}

/// The bytes, each percent-written.
pub open spec fn percent_bytes(bytes: Seq<nat>) -> Seq<char>
    decreases bytes.len(),
{
    if bytes.len() == 0 {
        Seq::empty()
    } else {
        percent_bytes(bytes.drop_last()) + percent_byte(bytes.last())
    }
}

/// ASCII letters, digits and `-`, `.`, `_`, `~` are written as they are.
pub open spec fn url_unreserved(c: char) -> bool {
    ('0' <= c && c <= '9') || ('A' <= c && c <= 'Z') || ('a' <= c && c <= 'z') || c == '-' || c
        == '.' || c == '_' || c == '~'
}

/// How one character is written in a URL component.
pub open spec fn percent_encoded_char(c: char) -> Seq<char> {
    if url_unreserved(c) {
        seq![c]
    } else {
        percent_bytes(utf8_bytes(c))
    }
}

/// A string percent-encoded: every byte of its UTF-8 encoding except ASCII
/// letters, digits and `-`, `.`, `_`, `~` becomes `%` and two upper-case
/// hexadecimal digits.
pub open spec fn url_encoded(s: Seq<char>) -> Seq<char>
    decreases s.len(),
{
    if s.len() == 0 {
        Seq::empty()
    } else {
        url_encoded(s.drop_last()) + percent_encoded_char(s.last())
    }
}

/// Calls `urlencoding::encode`. Claimed, as its documentation says: every
/// byte of the UTF-8 encoding except alphanumerics and `-`, `_`, `.`, `~` is
/// percent-encoded (upper-case hexadecimal digits, as its `to_hex_digit`
/// writes them).
#[verifier::external_body]
fn url_encode(s: &str) -> (r: String)
    ensures
        r@ == url_encoded(s@),
{
    urlencoding::encode(s).into_owned()
}

// ---------------------------------------------------------------------------
// The OAuth flow
// ---------------------------------------------------------------------------

/// The link that starts Discord's OAuth flow.
pub open spec fn oauth_link(config: Config) -> Seq<char> {
    "https://discord.com/oauth2/authorize?client_id="@ + config.discord.auth.client_id@
        + "&response_type=code&redirect_uri="@ + url_encoded(config.discord.auth.redirect_uri@)
        + "&scope=identify"@
}

/// Generate the URL to navigate users to in order to start the Discord
/// OAuth flow.
pub fn get_oauth_link(config: &Config) -> (link: String)
    ensures
        link@ == oauth_link(*config),
{
    let mut v: Vec<char> = Vec::new();
    append_str(&mut v, "https://discord.com/oauth2/authorize?client_id=");
    append_str(&mut v, config.discord.auth.client_id.as_str());
    append_str(&mut v, "&response_type=code&redirect_uri=");
    let encoded = url_encode(config.discord.auth.redirect_uri.as_str());
    append_str(&mut v, encoded.as_str());
    append_str(&mut v, "&scope=identify");
    string_from_chars(&v)
}

/// The form sent to exchange the callback's code for an access token.
pub fn token_exchange_form(code: &str, config: &Config) -> (form: Vec<(String, String)>)
    ensures
        form@.len() == 3,
        form@[0].0@ == "grant_type"@ && form@[0].1@ == "authorization_code"@,
        form@[1].0@ == "redirect_uri"@ && form@[1].1@ == config.discord.auth.redirect_uri@,
        form@[2].0@ == "code"@ && form@[2].1@ == code@,
{
    let mut form: Vec<(String, String)> = Vec::new();
    form.push((String::from_str("grant_type"), String::from_str("authorization_code")));
    form.push((String::from_str("redirect_uri"), config.discord.auth.redirect_uri.clone()));
    form.push((String::from_str("code"), String::from_str(code)));
    form
}

/// The authorization header that presents an access token: its type, a
/// space and the token.
pub fn authorization_header(token: &DiscordAccessToken) -> (h: String)
    ensures
        h@ == token.token_type@ + " "@ + token.access_token@,
{
    let mut v = chars_of(token.token_type.as_str());
    append_str(&mut v, " ");
    append_str(&mut v, token.access_token.as_str());
    string_from_chars(&v)
}

/// Text without reserved characters is written unchanged.
pub proof fn lemma_unreserved_unchanged(s: Seq<char>)
    requires
        forall|i: int| 0 <= i < s.len() ==> url_unreserved(#[trigger] s[i]),
    ensures
        url_encoded(s) == s,
    decreases s.len(),
{
    if s.len() > 0 {
        lemma_unreserved_unchanged(s.drop_last());
        assert(s.drop_last().push(s.last()) =~= s);
    }
}

} // verus!
