//! Absolute URLs, held as their serialised text.
//!
//! The library never takes a URL apart itself. Every operation on an address
//! is done by the `url` crate; what it returns is a function of the texts
//! handed in, and the contracts of the library speak of those results by
//! name.

use crate::text::str_equal;
use vstd::prelude::*;

verus! {

/// The error of the `url` crate, `url::ParseError`. The library hands it on
/// and never looks into it.
#[verifier::external_type_specification]
#[verifier::external_body]
pub struct ExUrlParseError(url::ParseError);

/// The serialisation of the URL that `url::Url::parse` reads from `input`,
/// or `None` where it reports an error.
pub uninterp spec fn url_parse(input: Seq<char>) -> Option<Seq<char>>;

/// The serialisation of what `url::Url::join` gives for `reference` against
/// the URL that `base` parses to, or `None` where either step reports an error.
pub uninterp spec fn url_join(base: Seq<char>, reference: Seq<char>) -> Option<Seq<char>>;

/// What `url::Url::scheme` returns for the URL that `address` parses to, or
/// `None` where `address` does not parse.
pub uninterp spec fn url_scheme(address: Seq<char>) -> Option<Seq<char>>;

/// The serialisation of the URL that `address` parses to after
/// `url::Url::set_scheme` accepted `scheme` for it, or `None` where the text
/// does not parse or the change was refused.
pub uninterp spec fn url_with_scheme(address: Seq<char>, scheme: Seq<char>) -> Option<Seq<char>>;

/// The serialisation of the URL that `address` parses to after one name/value
/// pair was appended to its query through `url::Url::query_pairs_mut`, or
/// `None` where `address` does not parse.
pub uninterp spec fn url_with_pair(address: Seq<char>, key: Seq<char>, value: Seq<char>) -> Option<
    Seq<char>,
>;

/// The serialisation of the URL that `address` parses to after its path lost
/// an empty last segment, through `pop_if_empty`, and gained `segments`,
/// through `extend`, both of `url::PathSegmentsMut`. `None` where `address`
/// does not parse or its path cannot be changed.
pub uninterp spec fn url_with_segments(address: Seq<char>, segments: Seq<Seq<char>>) -> Option<
    Seq<char>,
>;

/// The texts of a list of strings.
pub open spec fn texts(strings: Seq<String>) -> Seq<Seq<char>> {
    strings.map_values(|string: String| string@)
}

/// The texts of a list of query pairs.
pub open spec fn pair_texts(pairs: Seq<(String, String)>) -> Seq<(Seq<char>, Seq<char>)> {
    pairs.map_values(|pair: (String, String)| (pair.0@, pair.1@))
}

/// The serialisation of the URL `address` after each of `pairs` was appended
/// to its query in turn, or `None` where one of the steps fails.
pub open spec fn url_with_pairs(address: Seq<char>, pairs: Seq<(Seq<char>, Seq<char>)>) -> Option<
    Seq<char>,
>
    decreases pairs.len(),
{
    if pairs.len() == 0 {
        Some(address)
    } else {
        match url_with_pairs(address, pairs.drop_last()) {
            Some(extended) => url_with_pair(extended, pairs.last().0, pairs.last().1),
            None => None,
        }
    }
}

/// Calls `url::Url::parse` and hands back the serialisation of the result.
/// The contract only gives that result its name, [`url_parse`].
#[verifier::external_body]
pub(crate) fn parse_url(input: &str) -> (parsed: Result<String, url::ParseError>)
    ensures
        match parsed {
            Ok(text) => url_parse(input@) == Some(text@),
            Err(_) => url_parse(input@) is None,
        },
{
    url::Url::parse(input).map(String::from)
}

/// Calls `url::Url::join` on the URL that `base` parses to. The contract only
/// gives the serialised result its name, [`url_join`].
#[verifier::external_body]
pub(crate) fn join_url(base: &str, reference: &str) -> (joined: Result<String, url::ParseError>)
    ensures
        match joined {
            Ok(text) => url_join(base@, reference@) == Some(text@),
            Err(_) => url_join(base@, reference@) is None,
        },
{
    url::Url::parse(base)?.join(reference).map(String::from)
}

/// Calls `url::Url::scheme` on the URL that `address` parses to. The contract
/// only gives the result its name, [`url_scheme`].
#[verifier::external_body]
pub(crate) fn scheme_of(address: &str) -> (scheme: Option<String>)
    ensures
        match scheme {
            Some(text) => url_scheme(address@) == Some(text@),
            None => url_scheme(address@) is None,
        },
{
    match url::Url::parse(address) {
        Ok(url) => Some(String::from(url.scheme())),
        Err(_) => None,
    }
}

/// Calls `url::Url::set_scheme` on the URL that `address` parses to. The
/// contract only gives the serialised result its name, [`url_with_scheme`].
#[verifier::external_body]
pub(crate) fn replace_scheme(address: &str, scheme: &str) -> (replaced: Option<String>)
    ensures
        match replaced {
            Some(text) => url_with_scheme(address@, scheme@) == Some(text@),
            None => url_with_scheme(address@, scheme@) is None,
        },
{
    let mut url = url::Url::parse(address).ok()?;
    url.set_scheme(scheme).ok()?;
    Some(String::from(url))
}

/// Appends one pair to the query of the URL that `address` parses to, through
/// `url::Url::query_pairs_mut` and `append_pair` of its serialiser. The
/// contract only gives the serialised result its name, [`url_with_pair`].
#[verifier::external_body]
pub(crate) fn append_query_pair(address: &str, key: &str, value: &str) -> (extended: Option<String>)
    ensures
        match extended {
            Some(text) => url_with_pair(address@, key@, value@) == Some(text@),
            None => url_with_pair(address@, key@, value@) is None,
        },
{
    let mut url = url::Url::parse(address).ok()?;
    url.query_pairs_mut().append_pair(key, value);
    Some(String::from(url))
}

/// Changes the path of the URL that `address` parses to through
/// `url::Url::path_segments_mut`: `pop_if_empty`, then `extend` with
/// `segments`. The contract only gives the serialised result its name,
/// [`url_with_segments`].
#[verifier::external_body]
pub(crate) fn append_path_segments(address: &str, segments: &Vec<String>) -> (extended: Option<
    String,
>)
    ensures
        match extended {
            Some(text) => url_with_segments(address@, texts(segments@)) == Some(text@),
            None => url_with_segments(address@, texts(segments@)) is None,
        },
{
    let mut url = url::Url::parse(address).ok()?;
    url.path_segments_mut().ok()?.pop_if_empty().extend(segments);
    Some(String::from(url))
}

/// Appends each of `pairs` to the query of `address`, in their order.
pub fn with_query_pairs(address: String, pairs: &Vec<(String, String)>) -> (extended: Option<String>)
    ensures
        match extended {
            Some(text) => url_with_pairs(address@, pair_texts(pairs@)) == Some(text@),
            None => url_with_pairs(address@, pair_texts(pairs@)) is None,
        },
{
    let ghost texts = pair_texts(pairs@);
    let mut current = address;
    let mut index: usize = 0;
    proof {
        assert(texts.take(0) =~= Seq::<(Seq<char>, Seq<char>)>::empty());
    }
    while index < pairs.len()
        invariant
            index <= pairs@.len(),
            texts == pair_texts(pairs@),
            url_with_pairs(address@, texts.take(index as int)) == Some(current@),
        decreases pairs@.len() - index,
    {
        proof {
            assert(texts.take(index + 1).drop_last() =~= texts.take(index as int));
            assert(texts.take(index + 1).last() == (pairs@[index as int].0@, pairs@[index as int].1@));
        }
        match append_query_pair(current.as_str(), pairs[index].0.as_str(), pairs[index].1.as_str()) {
            Some(next) => {
                current = next;
            },
            None => {
                proof {
                    lemma_pairs_fail_for_good(address@, texts, index + 1);
                }
                return None;
            },
        }
        index += 1;
    }
    proof {
        assert(texts.take(index as int) =~= texts);
    }
    Some(current)
}

/// Once a pair cannot be appended, nothing after it can.
proof fn lemma_pairs_fail_for_good(
    address: Seq<char>,
    pairs: Seq<(Seq<char>, Seq<char>)>,
    failed: int,
)
    requires
        0 <= failed <= pairs.len(),
        url_with_pairs(address, pairs.take(failed)) is None,
    ensures
        url_with_pairs(address, pairs) is None,
    decreases pairs.len() - failed,
{
    if failed < pairs.len() {
        assert(pairs.take(failed + 1).drop_last() =~= pairs.take(failed));
        lemma_pairs_fail_for_good(address, pairs, failed + 1);
    } else {
        assert(pairs.take(failed) =~= pairs);
    }
}

/// Whether `address` is a URL with exactly this scheme.
pub fn has_scheme(address: &str, scheme: &str) -> (has: bool)
    ensures
        has == (url_scheme(address@) == Some(scheme@)),
{
    match scheme_of(address) {
        Some(found) => str_equal(found.as_str(), scheme),
        None => false,
    }
}

} // verus!
