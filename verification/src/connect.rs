//! Spotify Connect start-up decisions and the audio pipeline's routing.

use vstd::prelude::*;

verus! {

/// FIFO the Spotify player writes its PCM stream to.
pub const SPOTIFY_SOURCE_FIFO: &'static str = "/tmp/spotify_source_fifo";

/// Directory below the user's cache directory that holds credentials and audio cache.
pub const CACHE_DIR_NAME: &'static str = "spotifyAudioD";

/// Environment variable that may carry a Spotify access token.
pub const TOKEN_VARIABLE: &'static str = "SPOTIFY_TOKEN";

/// Where the Spotify credentials come from.
#[derive(Debug, Clone, PartialEq, Eq)]
pub enum CredentialSource {
    /// Credentials stored in the cache by an earlier login.
    Cached,
    /// An access token given in the environment.
    AccessToken(String),
    /// A browser login through OAuth.
    OAuth,
}

/// Chooses the credentials: cached ones first, then an access token from the
/// environment, else an OAuth login.
pub fn credential_source(has_cached: bool, env_token: Option<String>) -> (r: CredentialSource)
    ensures
        has_cached ==> r is Cached,
        !has_cached ==> match env_token {
            Some(t) => r == CredentialSource::AccessToken(t),
            None => r is OAuth,
        },
{
    if has_cached {
        CredentialSource::Cached
    } else {
        match env_token {
            Some(t) => CredentialSource::AccessToken(t),
            None => CredentialSource::OAuth,
        }
    }
}

/// The decimal digit `d` (0..10).
pub open spec fn digit_char(d: nat) -> char {
    if d == 0 {
        '0'
    } else if d == 1 {
        '1'
    } else if d == 2 {
        '2'
    } else if d == 3 {
        '3'
    } else if d == 4 {
        '4'
    } else if d == 5 {
        '5'
    } else if d == 6 {
        '6'
    } else if d == 7 {
        '7'
    } else if d == 8 {
        '8'
    } else {
        '9'
    }
}

/// The decimal notation of `n`, without leading zeros.
pub open spec fn decimal(n: nat) -> Seq<char>
    decreases n,
{
    if n < 10 {
        seq![digit_char(n)]
    } else {
        decimal(n / 10) + seq![digit_char(n % 10)]
    }
}

fn digit_str(d: u16) -> (s: &'static str)
    requires
        d < 10,
    ensures
        s@ == seq![digit_char(d as nat)],
{
    proof {
        reveal_strlit("0");
        reveal_strlit("1");
        reveal_strlit("2");
        reveal_strlit("3");
        reveal_strlit("4");
        reveal_strlit("5");
        reveal_strlit("6");
        reveal_strlit("7");
        reveal_strlit("8");
        reveal_strlit("9");
    }
    if d == 0 {
        "0"
    } else if d == 1 {
        "1"
    } else if d == 2 {
        "2"
    } else if d == 3 {
        "3"
    } else if d == 4 {
        "4"
    } else if d == 5 {
        "5"
    } else if d == 6 {
        "6"
    } else if d == 7 {
        "7"
    } else if d == 8 {
        "8"
    } else {
        "9"
    }
}

fn push_decimal(s: &mut String, n: u16)
    ensures
        final(s)@ == old(s)@ + decimal(n as nat),
    decreases n,
{
    if n >= 10 {
        push_decimal(s, n / 10);
    }
    s.append(digit_str(n % 10));
    proof {
        assert(old(s)@ + decimal(n as nat) =~= s@);
    }
}

/// The OAuth redirect address served by this daemon's HTTP API on `port`.
pub fn redirect_uri(port: u16) -> (uri: String)
    ensures
        uri@ == "http://127.0.0.1:"@ + decimal(port as nat) + "/login"@,
{
    let mut uri = String::from_str("http://127.0.0.1:");
    push_decimal(&mut uri, port);
    uri.append("/login");
    uri
}

/// Whether processed audio goes on to the output FIFO: only while the
/// selected source is Spotify.
pub fn forwards_source(source: &str) -> (r: bool)
    ensures
        r == (source@ == "Spotify"@),
{
    String::from_str(source) == String::from_str("Spotify")
}

} // verus!
