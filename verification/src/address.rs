//! Addresses, as the `url` crate reads and writes them. An address goes from
//! one function to the next as the text that the crate writes for it.
use vstd::prelude::*;

verus! {

/// The texts that a result holds.
pub open spec fn result_text(r: Result<String, String>) -> Result<Seq<char>, Seq<char>> {
    match r {
        Ok(s) => Ok(s@),
        Err(e) => Err(e@),
    }
}

/// The address that the `url` crate reads from `text`, as the crate writes
/// it; or the crate's error, as text.
pub uninterp spec fn url_parsed(text: Seq<char>) -> Result<Seq<char>, Seq<char>>;

/// What `target` is when it is taken against the address `base`: the
/// address as the `url` crate writes it, or the crate's error as text.
pub uninterp spec fn url_joined(base: Seq<char>, target: Seq<char>) -> Result<Seq<char>, Seq<char>>;

/// The path of an address, as the `url` crate gives it; the crate's error
/// as text where `address` is no address.
pub uninterp spec fn url_path_of(address: Seq<char>) -> Result<Seq<char>, Seq<char>>;

/// The query parameters of an address, decoded and in their order, as the
/// `url` crate gives them; the crate's error as text where `address` is no
/// address.
pub uninterp spec fn url_query_of(address: Seq<char>) -> Result<
    Seq<(Seq<char>, Seq<char>)>,
    Seq<char>,
>;

/// An address with `pairs` added to its query, as the `url` crate writes
/// it; the crate's error as text where `address` is no address.
pub uninterp spec fn url_extended(address: Seq<char>, pairs: Seq<(Seq<char>, Seq<char>)>) -> Result<
    Seq<char>,
    Seq<char>,
>;

/// Wraps `Url::parse` of the `url` crate. The address comes back as the text
/// that the crate writes for it, the error as its text; both are named by
/// `url_parsed`.
#[verifier::external_body]
pub(crate) fn url_parse(text: &str) -> (r: Result<String, String>)
    ensures
        result_text(r) == url_parsed(text@),
{
    match url::Url::parse(text) {
        Ok(u) => Ok(u.into()),
        Err(e) => Err(e.to_string()),
    }
}

/// Wraps `Url::join` of the `url` crate, on the address that the text `base`
/// stands for. The new address comes back as text, the error as its text;
/// both are named by `url_joined`.
#[verifier::external_body]
pub(crate) fn url_join(base: &str, target: &str) -> (r: Result<String, String>)
    ensures
        result_text(r) == url_joined(base@, target@),
{
    match url::Url::parse(base).and_then(|b| b.join(target)) {
        Ok(u) => Ok(u.into()),
        Err(e) => Err(e.to_string()),
    }
}

/// Wraps `Url::path` of the `url` crate, on the address that the text
/// `address` stands for. The path is named by `url_path_of`.
#[verifier::external_body]
pub(crate) fn url_path(address: &str) -> (r: Result<String, String>)
    ensures
        result_text(r) == url_path_of(address@),
{
    match url::Url::parse(address) {
        Ok(u) => Ok(u.path().to_string()),
        Err(e) => Err(e.to_string()),
    }
}

/// Wraps `Url::query_pairs` of the `url` crate, on the address that the text
/// `address` stands for. The pairs are named by `url_query_of`.
#[verifier::external_body]
pub(crate) fn url_query(address: &str) -> (r: Result<Vec<(String, String)>, String>)
    ensures
        match r {
            Ok(pairs) => url_query_of(address@) == Ok::<Seq<(Seq<char>, Seq<char>)>, Seq<char>>(
                pairs.deep_view(),
            ),
            Err(e) => url_query_of(address@) == Err::<Seq<(Seq<char>, Seq<char>)>, Seq<char>>(e@),
        },
{
    match url::Url::parse(address) {
        Ok(u) => Ok(u.query_pairs().into_owned().collect()),
        Err(e) => Err(e.to_string()),
    }
}

/// Wraps `Serializer::extend_pairs` of the `url` crate, on the query of the
/// address that the text `address` stands for. The new address comes back as
/// text; it is named by `url_extended`.
#[verifier::external_body]
pub(crate) fn url_extend(address: &str, pairs: &Vec<(String, String)>) -> (r: Result<String, String>)
    ensures
        result_text(r) == url_extended(address@, pairs.deep_view()),
{
    match url::Url::parse(address) {
        Ok(mut u) => {
            u.query_pairs_mut().extend_pairs(pairs.iter());
            Ok(u.into())
        },
        Err(e) => Err(e.to_string()),
    }
}

} // verus!
