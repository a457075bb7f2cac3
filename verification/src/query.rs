//! URLs with a query.

use crate::text::text_pairs;
use vstd::prelude::*;

verus! {

/// The text of the URL `base` with the pairs added to its query in form
/// encoding, or the text of the error where `base` is no URL.
pub uninterp spec fn url_with_pairs(
    base: Seq<char>,
    pairs: Seq<(Seq<char>, Seq<char>)>,
) -> Result<Seq<char>, Seq<char>>;

/// `url::Url::parse`, then `append_pair` on `Url::query_pairs_mut` for each pair
/// in order. The resulting text is named by `url_with_pairs`.
#[verifier::external_body]
pub(crate) fn add_query(base: &str, pairs: &Vec<(String, String)>) -> (r: Result<String, String>)
    ensures
        match r {
            Ok(s) => url_with_pairs(base@, text_pairs(pairs@)) == Ok::<Seq<char>, Seq<char>>(s@),
            Err(e) => url_with_pairs(base@, text_pairs(pairs@)) == Err::<Seq<char>, Seq<char>>(e@),
        },
{
    let mut url = url::Url::parse(base).map_err(|e| e.to_string())?;
    url.query_pairs_mut().extend_pairs(pairs);
    Ok(url.to_string())
}

} // verus!
