//! Request URLs of the token quote API.
//!
//! A request is a path below [`API_BASE_URL`] and a query of parameters. Each
//! command has parameters that are always sent and takes more from an option
//! text of the form `k1=v1:k2=v2:k3=v3`.

use vstd::prelude::*;
use vstd::string::*;
use crate::params::{distinct_keys, lemma_put, put, Pair, Params};
use crate::split::{split, split_text, texts};

verus! {

/// Where the API lives. Every request URL starts with this.
pub const API_BASE_URL: &'static str = "https://api.coingecko.com/api/v3/";

/// The entries after one item of an option text was applied: an item that
/// `=` cuts into exactly two pieces sets the first piece as key to the second
/// as value, and every other item changes nothing.
pub open spec fn apply_item(entries: Seq<Pair>, item: Seq<char>) -> Seq<Pair> {
    let pieces = split_text(item, '=');
    if pieces.len() == 2 {
        put(entries, pieces[0], pieces[1])
    } else {
        entries
    }
}

/// The entries after the items were applied one after the other.
pub open spec fn apply_items(entries: Seq<Pair>, items: Seq<Seq<char>>) -> Seq<Pair>
    decreases items.len(),
{
    if items.len() == 0 {
        entries
    } else {
        apply_item(apply_items(entries, items.drop_last()), items.last())
    }
}

/// The entries after an option text was applied: its items are the pieces
/// between its colons, applied from left to right.
pub open spec fn apply_options(entries: Seq<Pair>, optional: Seq<char>) -> Seq<Pair> {
    apply_items(entries, split_text(optional, ':'))
}

/// Applying items keeps the keys distinct.
pub proof fn lemma_apply_items_keeps_keys_distinct(entries: Seq<Pair>, items: Seq<Seq<char>>)
    requires
        distinct_keys(entries),
    ensures
        distinct_keys(apply_items(entries, items)),
    decreases items.len(),
{
    if items.len() > 0 {
        lemma_apply_items_keeps_keys_distinct(entries, items.drop_last());
        let before = apply_items(entries, items.drop_last());
        let pieces = split_text(items.last(), '=');
        if pieces.len() == 2 {
            lemma_put(before, pieces[0], pieces[1]);
        }
    }
}

/// Reads an option text of the form `k1=v1:k2=v2:k3=v3` and sets each of its
/// keys in `params`. A later item wins over an earlier one with the same key,
/// and an item that is not one key and one value is passed over.
pub fn update_optional_params(optional: &str, params: &mut Params)
    ensures
        final(params)@ == apply_options(old(params)@, optional@),
        distinct_keys(final(params)@),
{
    let ghost start = params@;
    let list = split(optional, ':');
    let mut at: usize = 0;
    proof {
        use_type_invariant(&*params);
    }
    while at < list.len()
        invariant
            at <= list@.len(),
            texts(list@) == split_text(optional@, ':'),
            params@ == apply_items(start, texts(list@).take(at as int)),
            distinct_keys(params@),
        decreases list@.len() - at,
    {
        let ghost done = texts(list@).take(at as int);
        let ghost more = texts(list@).take(at + 1);
        proof {
            assert(more.drop_last() == done);
            assert(more.last() == list@[at as int]@);
        }
        let pair = split(list[at].as_str(), '=');
        proof {
            assert(pair@.len() == texts(pair@).len());
        }
        if pair.len() == 2 {
            proof {
                assert(texts(pair@)[0] == pair@[0]@);
                assert(texts(pair@)[1] == pair@[1]@);
            }
            params.insert(pair[0].as_str(), pair[1].as_str());
        }
        at += 1;
    }
    proof {
        assert(texts(list@).take(at as int) == texts(list@));
    }
}

/// One entry as it stands in a query, with the `&` that ends it.
pub open spec fn pair_text(pair: Pair) -> Seq<char> {
    pair.0.push('=') + pair.1.push('&')
}

/// The entries as they stand in a query, each with the `&` that ends it.
pub open spec fn query_text(entries: Seq<Pair>) -> Seq<char>
    decreases entries.len(),
{
    if entries.len() == 0 {
        Seq::empty()
    } else {
        query_text(entries.drop_last()) + pair_text(entries.last())
    }
}

/// The URL of a request: the path, `?`, and the entries as `k=v` with `&`
/// between them. Without entries it is the path alone.
pub open spec fn url_text(api_url: Seq<char>, entries: Seq<Pair>) -> Seq<char> {
    (api_url.push('?') + query_text(entries)).drop_last()
}

/// Without parameters the URL is the path alone.
pub proof fn lemma_url_without_params(api_url: Seq<char>)
    ensures
        url_text(api_url, Seq::empty()) == api_url,
{
    assert(api_url.push('?') + Seq::<char>::empty() == api_url.push('?'));
    assert(api_url.push('?').drop_last() == api_url);
}

/// With parameters the URL is the path, `?`, and the query without the `&`
/// that ends its last entry.
pub proof fn lemma_url_with_params(api_url: Seq<char>, entries: Seq<Pair>)
    requires
        entries.len() > 0,
    ensures
        url_text(api_url, entries) == api_url.push('?') + query_text(entries.drop_last())
            + entries.last().0.push('=') + entries.last().1,
{
    let head = api_url.push('?') + query_text(entries.drop_last());
    let last = entries.last();
    assert(api_url.push('?') + query_text(entries) == head + pair_text(last));
    assert(head + pair_text(last) == (head + last.0.push('=') + last.1).push('&'));
    assert((head + last.0.push('=') + last.1).push('&').drop_last() == head + last.0.push('=')
        + last.1);
}

/// Adds the parameters to `api_url` as a query, in the order in which their
/// keys first came: `api_url?k1=v1&k2=v2`.
pub fn fill_url_params(api_url: &String, params: &Params) -> (url: String)
    ensures
        url@ == url_text(api_url@, params@),
{
    let mut url = api_url.clone();
    proof {
        reveal_strlit("?");
        reveal_strlit("=");
        reveal_strlit("&");
    }
    url.append("?");
    assert(url@ == api_url@.push('?'));
    let count = params.len();
    let mut at: usize = 0;
    proof {
        assert(params@.take(0) == Seq::<Pair>::empty());
        assert(api_url@.push('?') + Seq::<char>::empty() == api_url@.push('?'));
    }
    while at < count
        invariant
            at <= count,
            count == params@.len(),
            "="@ == seq!['='],
            "&"@ == seq!['&'],
            url@ == api_url@.push('?') + query_text(params@.take(at as int)),
        decreases count - at,
    {
        let ghost done = params@.take(at as int);
        let ghost more = params@.take(at + 1);
        let ghost head = url@;
        if let Some((key, value)) = params.entry(at) {
            url.append(key.as_str());
            url.append("=");
            url.append(value.as_str());
            url.append("&");
        }
        proof {
            assert(more.drop_last() == done);
            assert(more.last() == params@[at as int]);
            assert(url@ == head + pair_text(params@[at as int]));
            assert(url@ == api_url@.push('?') + (query_text(done) + pair_text(more.last())));
        }
        at += 1;
    }
    proof {
        assert(params@.take(count as int) == params@);
    }
    let total = url.as_str().unicode_len();
    url.as_str().substring_char(0, total - 1).to_owned()
}

/// The text of an option, where one was given.
pub open spec fn option_text(optional: Option<&str>) -> Option<Seq<char>> {
    match optional {
        Some(text) => Some(text@),
        None => None,
    }
}

/// The entries after the option text, where one was given, was applied.
pub open spec fn with_options(entries: Seq<Pair>, optional: Option<Seq<char>>) -> Seq<Pair> {
    match optional {
        Some(text) => apply_options(entries, text),
        None => entries,
    }
}

/// The parameters of a price request: the market capitalisation is asked
/// for, then come the tokens and the currencies, then the options, which may
/// set any of these anew.
pub open spec fn simple_entries(
    ids: Seq<char>,
    vs_currencies: Seq<char>,
    optional: Option<Seq<char>>,
) -> Seq<Pair> {
    with_options(
        put(
            put(put(Seq::empty(), "include_market_cap"@, "true"@), "ids"@, ids),
            "vs_currencies"@,
            vs_currencies,
        ),
        optional,
    )
}

/// The parameters of a request for one token's data: the four large parts
/// of the answer are switched off, then come the options, which may switch
/// them on.
pub open spec fn coins_entries(optional: Option<Seq<char>>) -> Seq<Pair> {
    with_options(
        put(
            put(
                put(put(Seq::empty(), "localization"@, "false"@), "tickers"@, "false"@),
                "market_data"@,
                "false"@,
            ),
            "community_data"@,
            "false"@,
        ),
        optional,
    )
}

/// The parameters of a price request for the tokens `ids` in the currencies
/// `vs_currencies`, both lists with commas.
pub fn simple_params(ids: &str, vs_currencies: &str, optional: Option<&str>) -> (params: Params)
    ensures
        params@ == simple_entries(ids@, vs_currencies@, option_text(optional)),
        distinct_keys(params@),
{
    let mut params = Params::new();
    params.insert("include_market_cap", "true");
    params.insert("ids", ids);
    params.insert("vs_currencies", vs_currencies);
    if let Some(text) = optional {
        update_optional_params(text, &mut params);
    }
    params
}

/// The parameters of a request for one token's data.
pub fn coins_params(optional: Option<&str>) -> (params: Params)
    ensures
        params@ == coins_entries(option_text(optional)),
        distinct_keys(params@),
{
    let mut params = Params::new();
    params.insert("localization", "false");
    params.insert("tickers", "false");
    params.insert("market_data", "false");
    params.insert("community_data", "false");
    if let Some(text) = optional {
        update_optional_params(text, &mut params);
    }
    params
}

/// The URL that asks whether the API is up.
pub fn ping_url() -> (url: String)
    ensures
        url@ == API_BASE_URL@ + "ping"@,
{
    let mut url = API_BASE_URL.to_owned();
    url.append("ping");
    url
}

/// The URL of a price request.
pub fn simple_url(ids: &str, vs_currencies: &str, optional: Option<&str>) -> (url: String)
    ensures
        url@ == url_text(
            API_BASE_URL@ + "simple/price"@,
            simple_entries(ids@, vs_currencies@, option_text(optional)),
        ),
{
    let params = simple_params(ids, vs_currencies, optional);
    let mut api_url = API_BASE_URL.to_owned();
    api_url.append("simple/price");
    fill_url_params(&api_url, &params)
}

/// The URL of a request for the data of the token `id`.
pub fn coins_url(id: &str, optional: Option<&str>) -> (url: String)
    ensures
        url@ == url_text(
            API_BASE_URL@ + "coins/"@ + id@,
            coins_entries(option_text(optional)),
        ),
{
    let params = coins_params(optional);
    let mut api_url = API_BASE_URL.to_owned();
    api_url.append("coins/");
    api_url.append(id);
    fill_url_params(&api_url, &params)
}

} // verus!
