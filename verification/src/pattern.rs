use crate::text::views;
use vstd::prelude::*;

verus! {

/// The pieces into which the regular expression `pattern` cuts `text`: what
/// lies between its successive matches, in order. `None` where `pattern` is
/// no regular expression that the engine accepts.
pub uninterp spec fn regex_split(pattern: Seq<char>, text: Seq<u8>) -> Option<Seq<Seq<u8>>>;

/// Compiles `pattern` with `regex::bytes::Regex::new` and cuts `text` with
/// `regex::bytes::Regex::split`. Nothing is proved of either: the contract
/// only gives the outcome its name, `regex_split`, with `None` standing for a
/// pattern that did not compile.
#[verifier::external_body]
pub(crate) fn split_by_pattern(pattern: &str, text: &[u8]) -> (parts: Option<Vec<Vec<u8>>>)
    ensures
        match parts {
            Some(v) => regex_split(pattern@, text@) == Some(views(v)),
            None => regex_split(pattern@, text@).is_none(),
        },
{
    match regex::bytes::Regex::new(pattern) {
        Ok(re) => Some(re.split(text).map(|piece| piece.to_vec()).collect()),
        Err(_) => None,
    }
}

} // verus!
