use net_tools::cmd_error::CmdError;
use net_tools::params::Params;
use net_tools::query::{
    coins_params, coins_url, fill_url_params, ping_url, simple_params, simple_url,
    update_optional_params, API_BASE_URL,
};
use net_tools::split::split;

fn entries(params: &Params) -> Vec<(String, String)> {
    (0..params.len())
        .map(|i| {
            let (key, value) = params.entry(i).unwrap();
            (key.clone(), value.clone())
        })
        .collect()
}

fn pairs(list: &[(&str, &str)]) -> Vec<(String, String)> {
    list.iter().map(|(k, v)| (k.to_string(), v.to_string())).collect()
}

#[test]
fn split_cuts_at_every_separator() {
    assert_eq!(split("a:b:c", ':'), vec!["a", "b", "c"]);
    assert_eq!(split("k=v", '='), vec!["k", "v"]);
}

#[test]
fn split_keeps_empty_pieces() {
    assert_eq!(split("", ':'), vec![""]);
    assert_eq!(split(":", ':'), vec!["", ""]);
    assert_eq!(split("a::b", ':'), vec!["a", "", "b"]);
    assert_eq!(split(":a:", ':'), vec!["", "a", ""]);
}

#[test]
fn split_without_separator_gives_the_text() {
    assert_eq!(split("abc", ':'), vec!["abc"]);
}

#[test]
fn split_agrees_with_std() {
    for text in ["", "a", "=", "a=b", "a=b=c", "==", "x:y=z:", "né=ö:日本=語", ":::"] {
        for sep in [':', '='] {
            let expected: Vec<&str> = text.split(sep).collect();
            assert_eq!(split(text, sep), expected);
        }
    }
}

#[test]
fn split_counts_characters_not_bytes() {
    assert_eq!(split("é:ü", ':'), vec!["é", "ü"]);
    assert_eq!(split("日本語=x", '='), vec!["日本語", "x"]);
}

#[test]
fn params_start_empty() {
    let params = Params::new();
    assert!(params.is_empty());
    assert_eq!(params.len(), 0);
    assert_eq!(params.get("a"), None);
}

#[test]
fn params_keep_the_order_of_first_insertion() {
    let mut params = Params::new();
    params.insert("b", "1");
    params.insert("a", "2");
    params.insert("c", "3");
    assert_eq!(entries(&params), pairs(&[("b", "1"), ("a", "2"), ("c", "3")]));
    assert_eq!(params.len(), 3);
    assert!(!params.is_empty());
}

#[test]
fn params_insert_replaces_in_place() {
    let mut params = Params::new();
    params.insert("b", "1");
    params.insert("a", "2");
    params.insert("b", "9");
    assert_eq!(entries(&params), pairs(&[("b", "9"), ("a", "2")]));
    assert_eq!(params.get("b"), Some("9".to_string()));
    assert_eq!(params.get("a"), Some("2".to_string()));
    assert_eq!(params.get("c"), None);
}

#[test]
fn optional_params_are_added() {
    let mut params = Params::new();
    update_optional_params("k1=v1:k2=v2:k3=v3", &mut params);
    assert_eq!(entries(&params), pairs(&[("k1", "v1"), ("k2", "v2"), ("k3", "v3")]));
}

#[test]
fn optional_params_override() {
    let mut params = Params::new();
    params.insert("tickers", "false");
    params.insert("localization", "false");
    update_optional_params("localization=true:extra=1", &mut params);
    assert_eq!(
        entries(&params),
        pairs(&[("tickers", "false"), ("localization", "true"), ("extra", "1")])
    );
}

#[test]
fn optional_params_later_item_wins() {
    let mut params = Params::new();
    update_optional_params("a=1:a=2", &mut params);
    assert_eq!(entries(&params), pairs(&[("a", "2")]));
}

#[test]
fn optional_params_skip_malformed_items() {
    let mut params = Params::new();
    update_optional_params("novalue:a=b=c:ok=1::", &mut params);
    assert_eq!(entries(&params), pairs(&[("ok", "1")]));
}

#[test]
fn optional_params_empty_text_changes_nothing() {
    let mut params = Params::new();
    params.insert("a", "1");
    update_optional_params("", &mut params);
    assert_eq!(entries(&params), pairs(&[("a", "1")]));
}

#[test]
fn optional_params_allow_empty_key_or_value() {
    let mut params = Params::new();
    update_optional_params("k=:=v", &mut params);
    assert_eq!(entries(&params), pairs(&[("k", ""), ("", "v")]));
}

#[test]
fn fill_url_params_joins_with_ampersands() {
    let mut params = Params::new();
    params.insert("k1", "v1");
    params.insert("k2", "v2");
    assert_eq!(fill_url_params(&"api_url".to_string(), &params), "api_url?k1=v1&k2=v2");
}

#[test]
fn fill_url_params_with_one_parameter() {
    let mut params = Params::new();
    params.insert("ids", "bitcoin");
    assert_eq!(fill_url_params(&"http://x/y".to_string(), &params), "http://x/y?ids=bitcoin");
}

#[test]
fn fill_url_params_without_parameters_is_the_path() {
    let params = Params::new();
    assert_eq!(fill_url_params(&"http://x/y".to_string(), &params), "http://x/y");
}

#[test]
fn fill_url_params_keeps_other_characters() {
    let mut params = Params::new();
    params.insert("währung", "€");
    assert_eq!(fill_url_params(&"u".to_string(), &params), "u?währung=€");
}

#[test]
fn ping_url_is_below_the_base() {
    assert_eq!(API_BASE_URL, "https://api.coingecko.com/api/v3/");
    assert_eq!(ping_url(), "https://api.coingecko.com/api/v3/ping");
}

#[test]
fn simple_params_defaults_then_required() {
    let params = simple_params("bitcoin,ethereum", "usd", None);
    assert_eq!(
        entries(&params),
        pairs(&[
            ("include_market_cap", "true"),
            ("ids", "bitcoin,ethereum"),
            ("vs_currencies", "usd"),
        ])
    );
}

#[test]
fn simple_url_without_options() {
    assert_eq!(
        simple_url("bitcoin", "usd", None),
        "https://api.coingecko.com/api/v3/simple/price?include_market_cap=true&ids=bitcoin&vs_currencies=usd"
    );
}

#[test]
fn simple_url_with_options() {
    assert_eq!(
        simple_url("bitcoin,ethereum", "usd", Some("include_market_cap=false:include_24hr_vol=true")),
        "https://api.coingecko.com/api/v3/simple/price?include_market_cap=false&ids=bitcoin,ethereum&vs_currencies=usd&include_24hr_vol=true"
    );
}

#[test]
fn coins_params_defaults() {
    let params = coins_params(None);
    assert_eq!(
        entries(&params),
        pairs(&[
            ("localization", "false"),
            ("tickers", "false"),
            ("market_data", "false"),
            ("community_data", "false"),
        ])
    );
}

#[test]
fn coins_url_without_options() {
    assert_eq!(
        coins_url("bitcoin", None),
        "https://api.coingecko.com/api/v3/coins/bitcoin?localization=false&tickers=false&market_data=false&community_data=false"
    );
}

#[test]
fn coins_url_with_options() {
    assert_eq!(
        coins_url("bitcoin", Some("localization=true:tickers=false:market_data=true")),
        "https://api.coingecko.com/api/v3/coins/bitcoin?localization=true&tickers=false&market_data=true&community_data=false"
    );
}

#[test]
fn cmd_error_messages() {
    assert_eq!(CmdError::SimpleCmdError.message(), "invalid format of Simple command parameter");
    assert_eq!(CmdError::CoinsCmdError.message(), "invalid format of Coins command parameter");
    assert_ne!(CmdError::SimpleCmdError, CmdError::CoinsCmdError);
}

#[test]
fn params_entry_beyond_the_end_is_nothing() {
    let mut params = Params::new();
    assert!(params.entry(0).is_none());
    params.insert("a", "1");
    assert_eq!(params.entry(0), Some((&"a".to_string(), &"1".to_string())));
    assert!(params.entry(1).is_none());
}
