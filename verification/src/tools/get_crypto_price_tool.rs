//! Cryptocurrency prices: the `get_crypto_price` tool, over the CoinGecko API.
use vstd::prelude::*;
use crate::json::{
    field_views, json_index, json_index_of, json_member, json_member_spec, json_object,
    json_quote, json_quote_spec, json_str_field, write_json_object,
};
use crate::text::push_str;
use crate::tools::{
    degraded, function_schema, is_success_code, missing_parameter, non_retryable_error,
    required_str_argument, retryable_error, schema_parameters, schema_property, url_encode,
    url_encoded, write_function_schema, write_schema_parameters, write_schema_property,
    HttpStatus,
};
use crate::tools::search_web_tool::{body_view, result_matches};
use crate::types::{ToolError, ToolErrorView};

verus! {

pub const TOOL_NAME: &'static str = "get_crypto_price";

pub const DESCRIPTION: &'static str = "Get the current price and 24h stats for a cryptocurrency. \n                        Use for research questions about crypto markets, prices, or \n                        market cap. Pass the CoinGecko coin ID: 'bitcoin', 'ethereum', \n                        'solana' etc.";

pub const COIN_PARAMETER_DESCRIPTION: &'static str = "CoinGecko coin ID in lowercase: 'bitcoin', \n                                    'ethereum', 'solana', 'cardano'";

/// The schema that the model is given for this tool.
pub open spec fn schema() -> Seq<char> {
    function_schema(
        TOOL_NAME@,
        DESCRIPTION@,
        schema_parameters(
            seq![("coin_id"@, schema_property("string"@, COIN_PARAMETER_DESCRIPTION@))],
            "coin_id"@,
        ),
    )
}

pub fn name() -> (res: &'static str)
    ensures
        res@ == TOOL_NAME@,
{
    TOOL_NAME
}

/// The tool's schema, as JSON text.
pub fn description() -> (res: String)
    ensures
        res@ == schema(),
{
    let mut props: Vec<(String, String)> = Vec::new();
    props.push(("coin_id".to_string(), write_schema_property("string", COIN_PARAMETER_DESCRIPTION)));
    assert(field_views(props@) =~= seq![
        ("coin_id"@, schema_property("string"@, COIN_PARAMETER_DESCRIPTION@)),
    ]);
    let params = write_schema_parameters(&props, "coin_id");
    write_function_schema(TOOL_NAME, DESCRIPTION, params)
}

/// Reads the `coin_id` argument.
pub fn parse_arguments(args: &str) -> (res: Result<String, ToolError>)
    ensures
        match json_str_field(args@, "coin_id"@) {
            Some(v) => res matches Ok(s) && s@ == v,
            None => res matches Err(e) && e@ == missing_parameter("coin_id"@),
        },
{
    required_str_argument(args, "coin_id")
}

/// The request URL: the coin percent-encoded, priced in USD with the 24h change and the
/// market cap.
pub open spec fn price_url_spec(coin_id: Seq<char>) -> Seq<char> {
    "https://api.coingecko.com/api/v3/simple/price?ids="@ + url_encoded(coin_id)
        + "&vs_currencies=usd&include_24hr_change=true&include_market_cap=true"@
}

pub fn price_url(coin_id: &str) -> (res: String)
    ensures
        res@ == price_url_spec(coin_id@),
{
    let mut url = "https://api.coingecko.com/api/v3/simple/price?ids=".to_string();
    push_str(&mut url, url_encode(coin_id).as_str());
    push_str(&mut url, "&vs_currencies=usd&include_24hr_change=true&include_market_cap=true");
    url
}

/// A request that was not answered can be retried.
pub fn send_error(message: &str) -> (res: ToolError)
    ensures
        res@ == ToolErrorView::Retryable("crypto price request failed: "@ + message@),
{
    retryable_error("crypto price request failed: ", message)
}

/// The error for a response status: the rate limit (429) and any other failing status are
/// retryable; none for 2xx.
pub fn status_error(status: &HttpStatus) -> (res: Option<ToolError>)
    ensures
        status.code == 429 ==> (res matches Some(e) && e@ == ToolErrorView::Retryable(
            "CoinGecko rate limit hit"@,
        )),
        (status.code != 429 && !is_success_code(status.code)) ==> (res matches Some(e) && e@
            == ToolErrorView::Retryable("CoinGecko API error: "@ + status.text@)),
        is_success_code(status.code) ==> res is None,
{
    if status.code == 429 {
        return Some(ToolError::Retryable("CoinGecko rate limit hit".to_string()));
    }
    if !(200 <= status.code && status.code <= 299) {
        return Some(retryable_error("CoinGecko API error: ", status.text.as_str()));
    }
    None
}

/// The price report of `coin_id`: the coin's entry of the body, or a degraded failure where
/// the body has none.
pub open spec fn price_result_spec(coin_id: Seq<char>, body: Result<Seq<char>, Seq<char>>) -> Result<
    Seq<char>,
    ToolErrorView,
> {
    match body {
        Err(e) => Err(ToolErrorView::NonRetryable("failed to parse CoinGecko response: "@ + e)),
        Ok(text) => match json_member_spec(text, coin_id) {
            None => Err(
                degraded(
                    "coingecko:"@ + coin_id,
                    "coin '"@ + coin_id + "' not found — check the CoinGecko coin ID"@,
                ),
            ),
            Some(coin) => Ok(
                json_object(
                    seq![
                        ("coin_id"@, json_quote_spec(coin_id)),
                        ("price_usd"@, json_index(coin, "usd"@)),
                        ("change_24h_pct"@, json_index(coin, "usd_24h_change"@)),
                        ("market_cap_usd"@, json_index(coin, "usd_market_cap"@)),
                    ],
                ),
            ),
        },
    }
}

/// Where the body has an entry for the coin, the output gives the coin's id and, from that
/// entry, `usd` as the price, `usd_24h_change` as the 24-hour change and `usd_market_cap` as
/// the market capitalisation; without an entry the coin is degraded as not found.
pub proof fn law_price_fields_come_from_the_coin_entry(coin_id: Seq<char>, body: Seq<char>)
    ensures
        json_member_spec(body, coin_id) matches Some(coin) ==> price_result_spec(coin_id, Ok(body))
            == Ok::<Seq<char>, ToolErrorView>(
            json_object(
                seq![
                    ("coin_id"@, json_quote_spec(coin_id)),
                    ("price_usd"@, json_index(coin, "usd"@)),
                    ("change_24h_pct"@, json_index(coin, "usd_24h_change"@)),
                    ("market_cap_usd"@, json_index(coin, "usd_market_cap"@)),
                ],
            ),
        ),
        json_member_spec(body, coin_id) is None ==> price_result_spec(coin_id, Ok(body)) == Err::<
            Seq<char>,
            ToolErrorView,
        >(
            degraded(
                "coingecko:"@ + coin_id,
                "coin '"@ + coin_id + "' not found — check the CoinGecko coin ID"@,
            ),
        ),
{
}

/// Shapes a response body (or the error of reading it) into the tool's output.
pub fn price_result(coin_id: &str, body: &Result<String, String>) -> (res: Result<String, ToolError>)
    ensures
        result_matches(res, price_result_spec(coin_id@, body_view(body))),
{
    let text = match body {
        Err(e) => {
            return Err(non_retryable_error("failed to parse CoinGecko response: ", e.as_str()));
        },
        Ok(t) => t,
    };
    let coin = match json_member(text.as_str(), coin_id) {
        Some(c) => c,
        None => {
            let mut url = "coingecko:".to_string();
            push_str(&mut url, coin_id);
            let mut reason = "coin '".to_string();
            push_str(&mut reason, coin_id);
            push_str(&mut reason, "' not found — check the CoinGecko coin ID");
            return Err(ToolError::Degraded { url, reason });
        },
    };
    let mut fields: Vec<(String, String)> = Vec::new();
    fields.push(("coin_id".to_string(), json_quote(coin_id)));
    fields.push(("price_usd".to_string(), json_index_of(coin.as_str(), "usd")));
    fields.push(("change_24h_pct".to_string(), json_index_of(coin.as_str(), "usd_24h_change")));
    fields.push(("market_cap_usd".to_string(), json_index_of(coin.as_str(), "usd_market_cap")));
    assert(field_views(fields@) =~= seq![
        ("coin_id"@, json_quote_spec(coin_id@)),
        ("price_usd"@, json_index(coin@, "usd"@)),
        ("change_24h_pct"@, json_index(coin@, "usd_24h_change"@)),
        ("market_cap_usd"@, json_index(coin@, "usd_market_cap"@)),
    ]);
    Ok(write_json_object(&fields))
}

} // verus!
