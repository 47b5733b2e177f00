//! Rewriting of a peer address's URL scheme for dialing.
//!
//! A peer's configured address uses `http` or `https`; the WebSocket dial
//! uses `ws` or `wss` respectively. Any other scheme is preserved and will
//! simply fail at connect time.

use vstd::prelude::*;

verus! {

/// The scheme a peer address is dialed with: `http` becomes `ws`,
/// `https` becomes `wss`, anything else is preserved.
pub open spec fn spec_rewrite_scheme(s: Seq<char>) -> Seq<char> {
    if s == "http"@ {
        "ws"@
    } else if s == "https"@ {
        "wss"@
    } else {
        s
    }
}

/// Inverse direction: `ws` back to `http`, `wss` back to `https`,
/// anything else preserved.
pub open spec fn spec_unrewrite_scheme(s: Seq<char>) -> Seq<char> {
    if s == "ws"@ {
        "http"@
    } else if s == "wss"@ {
        "https"@
    } else {
        s
    }
}

/// Compares two string slices by their character sequences.
pub fn str_eq(a: &str, b: &str) -> (r: bool)
    ensures
        r == (a@ == b@),
{
    let sa: String = a.to_owned();
    let sb: String = b.to_owned();
    sa == sb
}

/// Maps a configured scheme to the scheme used for the WebSocket dial.
pub fn rewrite_scheme(s: &str) -> (r: String)
    ensures
        r@ == spec_rewrite_scheme(s@),
{
    if str_eq(s, "http") {
        "ws".to_owned()
    } else if str_eq(s, "https") {
        "wss".to_owned()
    } else {
        s.to_owned()
    }
}

/// Maps a dial scheme back to the configured scheme.
pub fn unrewrite_scheme(s: &str) -> (r: String)
    ensures
        r@ == spec_unrewrite_scheme(s@),
{
    if str_eq(s, "ws") {
        "http".to_owned()
    } else if str_eq(s, "wss") {
        "https".to_owned()
    } else {
        s.to_owned()
    }
}

/// The scheme rewrite composed with its inverse is the identity on every
/// scheme that is not itself one of the dial schemes; in particular on
/// `http` and `https`, the two schemes the dial logic rewrites.
pub proof fn lemma_scheme_rewrite_round_trip(s: Seq<char>)
    requires
        s != "ws"@,
        s != "wss"@,
    ensures
        spec_unrewrite_scheme(spec_rewrite_scheme(s)) == s,
{
    reveal_strlit("http");
    reveal_strlit("https");
    reveal_strlit("ws");
    reveal_strlit("wss");
    if s == "http"@ {
        assert(spec_rewrite_scheme(s) == "ws"@);
        assert(spec_unrewrite_scheme("ws"@) == "http"@);
    } else if s == "https"@ {
        assert(spec_rewrite_scheme(s) == "wss"@);
        assert(spec_unrewrite_scheme("wss"@) == "https"@);
    } else {
        assert(spec_rewrite_scheme(s) == s);
        assert(spec_unrewrite_scheme(s) == s);
    }
}

} // verus!
