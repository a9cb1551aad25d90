//! One line of traceroute output, read as a hop.
//!
//! The first two tokens of a hop line (the hop's index and its host name) are
//! passed over. The third is either `*`, for a hop that did not answer, or an
//! address wrapped in one delimiter character on each side, as in
//! `(192.0.2.7)`.

use crate::text::{chars_of, find_token, has_token, token};
use vstd::prelude::*;
use vstd::string::*;

verus! {

/// What a hop line says about its hop.
#[derive(Clone, Debug, PartialEq, Eq)]
pub enum ParsedHop {
    /// The hop did not answer; there is nothing to look up.
    Unresolved,
    /// The hop answered from this address, given without its delimiters.
    Candidate(String),
}

/// The mathematical content of a [`ParsedHop`].
pub enum ParsedHopView {
    Unresolved,
    Candidate(Seq<char>),
}

impl View for ParsedHop {
    type V = ParsedHopView;

    open spec fn view(&self) -> ParsedHopView {
        match *self {
            ParsedHop::Unresolved => ParsedHopView::Unresolved,
            ParsedHop::Candidate(address) => ParsedHopView::Candidate(address@),
        }
    }
}

/// Why a line is not a hop line. Such a line is skipped; it never ends the
/// run.
#[derive(Clone, Copy, Debug, PartialEq, Eq, Structural)]
pub enum HopError {
    /// The line has fewer than three tokens.
    MissingAddress,
    /// The third token is not `*` and is too short to hold two delimiters.
    BareAddress,
}

/// The content of the result of parsing.
pub open spec fn parsed_view(parsed: Result<ParsedHop, HopError>) -> Result<
    ParsedHopView,
    HopError,
> {
    match parsed {
        Ok(hop) => Ok(hop@),
        Err(e) => Err(e),
    }
}

/// The token that marks a hop without an answer.
pub open spec fn star() -> Seq<char> {
    seq!['*']
}

/// Whether the third token of `line` is `*`.
pub open spec fn is_starred(line: Seq<char>) -> bool {
    has_token(line, 2) && token(line, 2) =~= star()
}

/// What `line` says about its hop.
pub open spec fn parse_line(line: Seq<char>) -> Result<ParsedHopView, HopError> {
    let third = token(line, 2);
    if !has_token(line, 2) {
        Err(HopError::MissingAddress)
    } else if third =~= star() {
        Ok(ParsedHopView::Unresolved)
    } else if third.len() < 2 {
        Err(HopError::BareAddress)
    } else {
        Ok(ParsedHopView::Candidate(third.subrange(1, third.len() - 1)))
    }
}

/// Reads one hop line.
pub fn parse_hop(line: &str) -> (parsed: Result<ParsedHop, HopError>)
    ensures
        parsed_view(parsed) == parse_line(line@),
{
    let chars = chars_of(line);
    match find_token(&chars, 2) {
        None => Err(HopError::MissingAddress),
        Some((a, b)) => {
            let ghost third = token(line@, 2);
            assert(third.len() == b - a);
            assert(third[0] == chars[a as int]);
            if b - a == 1 && chars[a] == '*' {
                assert(third =~= star());
                Ok(ParsedHop::Unresolved)
            } else if b - a < 2 {
                Err(HopError::BareAddress)
            } else {
                let address = line.substring_char(a + 1, b - 1);
                assert(address@ =~= third.subrange(1, third.len() - 1));
                Ok(ParsedHop::Candidate(address.to_owned()))
            }
        },
    }
}

/// Where the geolocation service answers lookups.
pub const LOOKUP_BASE_URL: &'static str = "https://www.iplocate.io/api/lookup/";

/// The URL of the lookup for `address`: the address appended to the base.
pub open spec fn url_of(address: Seq<char>) -> Seq<char> {
    LOOKUP_BASE_URL@ + address
}

/// Builds the URL to fetch for one address.
pub fn lookup_url(address: &str) -> (url: String)
    ensures
        url@ == url_of(address@),
{
    String::from_str(LOOKUP_BASE_URL).concat(address)
}

} // verus!
