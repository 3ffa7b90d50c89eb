//! Current weather for a city: the `get_weather` tool, over the OpenWeatherMap API.
use vstd::prelude::*;
use crate::json::{
    field_views, json_first, json_first_of, json_index, json_index_of, json_object,
    json_quote, json_quote_spec, json_str_field, write_json_object,
};
use crate::text::push_str;
use crate::tools::{
    degraded, function_schema, is_success_code, missing_parameter, non_retryable_error,
    required_str_argument, retryable_error, schema_parameters, schema_property, url_encode,
    url_encoded, write_function_schema, write_schema_parameters, write_schema_property,
    HttpStatus,
};
use crate::tools::search_web_tool::{body_view, result_matches};
use crate::types::{ToolError, ToolErrorView};

verus! {

pub const TOOL_NAME: &'static str = "get_weather";

pub const DESCRIPTION: &'static str = "Get current weather conditions for a city. \n                        Use when the research question involves weather, \n                        climate, or current conditions in a location. \n                        Returns temperature, conditions, humidity, and wind speed.";

pub const CITY_PARAMETER_DESCRIPTION: &'static str = "City name, optionally with country code: 'London' or 'London,UK'";

/// The schema that the model is given for this tool.
pub open spec fn schema() -> Seq<char> {
    function_schema(
        TOOL_NAME@,
        DESCRIPTION@,
        schema_parameters(
            seq![("city"@, schema_property("string"@, CITY_PARAMETER_DESCRIPTION@))],
            "city"@,
        ),
    )
}

pub fn name() -> (res: &'static str)
    ensures
        res@ == TOOL_NAME@,
{
    TOOL_NAME
}

/// The tool's schema, as JSON text.
pub fn description() -> (res: String)
    ensures
        res@ == schema(),
{
    let mut props: Vec<(String, String)> = Vec::new();
    props.push(("city".to_string(), write_schema_property("string", CITY_PARAMETER_DESCRIPTION)));
    assert(field_views(props@) =~= seq![
        ("city"@, schema_property("string"@, CITY_PARAMETER_DESCRIPTION@)),
    ]);
    let params = write_schema_parameters(&props, "city");
    write_function_schema(TOOL_NAME, DESCRIPTION, params)
}

/// Reads the `city` argument.
pub fn parse_arguments(args: &str) -> (res: Result<String, ToolError>)
    ensures
        match json_str_field(args@, "city"@) {
            Some(v) => res matches Ok(s) && s@ == v,
            None => res matches Err(e) && e@ == missing_parameter("city"@),
        },
{
    required_str_argument(args, "city")
}

/// The request URL: the city percent-encoded, the key, metric units.
pub open spec fn weather_url_spec(city: Seq<char>, api_key: Seq<char>) -> Seq<char> {
    "https://api.openweathermap.org/data/2.5/weather?q="@ + url_encoded(city) + "&appid="@
        + api_key + "&units=metric"@
}

pub fn weather_url(city: &str, api_key: &str) -> (res: String)
    ensures
        res@ == weather_url_spec(city@, api_key@),
{
    let mut url = "https://api.openweathermap.org/data/2.5/weather?q=".to_string();
    push_str(&mut url, url_encode(city).as_str());
    push_str(&mut url, "&appid=");
    push_str(&mut url, api_key);
    push_str(&mut url, "&units=metric");
    url
}

/// A request that was not answered can be retried.
pub fn send_error(message: &str) -> (res: ToolError)
    ensures
        res@ == ToolErrorView::Retryable("weather request failed: "@ + message@),
{
    retryable_error("weather request failed: ", message)
}

/// The error for a response status: a bad key (401), an unknown city (404, degraded), any
/// other failing status (retryable); none for 2xx.
pub fn status_error(city: &str, status: &HttpStatus) -> (res: Option<ToolError>)
    ensures
        status.code == 401 ==> (res matches Some(e) && e@ == ToolErrorView::NonRetryable(
            "OpenWeatherMap API key is invalid"@,
        )),
        status.code == 404 ==> (res matches Some(e) && e@ == degraded(
            "weather for "@ + city@,
            "city '"@ + city@ + "' not found"@,
        )),
        (status.code != 401 && status.code != 404 && !is_success_code(status.code)) ==> (res matches Some(
            e,
        ) && e@ == ToolErrorView::Retryable("weather API error: "@ + status.text@)),
        is_success_code(status.code) ==> res is None,
{
    if status.code == 401 {
        return Some(ToolError::NonRetryable("OpenWeatherMap API key is invalid".to_string()));
    }
    if status.code == 404 {
        let mut url = "weather for ".to_string();
        push_str(&mut url, city);
        let mut reason = "city '".to_string();
        push_str(&mut reason, city);
        push_str(&mut reason, "' not found");
        return Some(ToolError::Degraded { url, reason });
    }
    if !(200 <= status.code && status.code <= 299) {
        return Some(retryable_error("weather API error: ", status.text.as_str()));
    }
    None
}

/// The weather report for `city` from a response body: temperature, felt temperature,
/// conditions, humidity and wind speed, each as the body gives it (`null` where it does not).
pub open spec fn weather_output(city: Seq<char>, body: Seq<char>) -> Seq<char> {
    let main = json_index(body, "main"@);
    json_object(
        seq![
            ("city"@, json_quote_spec(city)),
            ("temperature_celsius"@, json_index(main, "temp"@)),
            ("feels_like_celsius"@, json_index(main, "feels_like"@)),
            ("conditions"@, json_index(json_first(json_index(body, "weather"@)), "description"@)),
            ("humidity_percent"@, json_index(main, "humidity"@)),
            ("wind_speed_ms"@, json_index(json_index(body, "wind"@), "speed"@)),
        ],
    )
}

pub open spec fn weather_result_spec(city: Seq<char>, body: Result<Seq<char>, Seq<char>>) -> Result<
    Seq<char>,
    ToolErrorView,
> {
    match body {
        Err(e) => Err(ToolErrorView::NonRetryable("failed to parse weather response: "@ + e)),
        Ok(text) => Ok(weather_output(city, text)),
    }
}

/// A read weather body gives the city and, from the body, `main.temp` as the temperature,
/// `main.feels_like` as the felt temperature, the first `weather` entry's `description` as
/// the conditions, `main.humidity` as the humidity and `wind.speed` as the wind speed; a body
/// that could not be read is a non-retryable failure naming the reader's error.
pub proof fn law_weather_fields_come_from_the_body(city: Seq<char>, body: Seq<char>, e: Seq<char>)
    ensures
        weather_result_spec(city, Ok(body)) == Ok::<Seq<char>, ToolErrorView>(
            json_object(
                seq![
                    ("city"@, json_quote_spec(city)),
                    ("temperature_celsius"@, json_index(json_index(body, "main"@), "temp"@)),
                    ("feels_like_celsius"@, json_index(json_index(body, "main"@), "feels_like"@)),
                    ("conditions"@, json_index(json_first(json_index(body, "weather"@)), "description"@)),
                    ("humidity_percent"@, json_index(json_index(body, "main"@), "humidity"@)),
                    ("wind_speed_ms"@, json_index(json_index(body, "wind"@), "speed"@)),
                ],
            ),
        ),
        weather_result_spec(city, Err(e)) == Err::<Seq<char>, ToolErrorView>(
            ToolErrorView::NonRetryable("failed to parse weather response: "@ + e),
        ),
{
}

/// Shapes a response body (or the error of reading it) into the tool's output.
pub fn weather_result(city: &str, body: &Result<String, String>) -> (res: Result<String, ToolError>)
    ensures
        result_matches(res, weather_result_spec(city@, body_view(body))),
{
    let text = match body {
        Err(e) => {
            return Err(non_retryable_error("failed to parse weather response: ", e.as_str()));
        },
        Ok(t) => t,
    };
    let main = json_index_of(text.as_str(), "main");
    let weather = json_index_of(text.as_str(), "weather");
    let first = json_first_of(weather.as_str());
    let wind = json_index_of(text.as_str(), "wind");
    let mut fields: Vec<(String, String)> = Vec::new();
    fields.push(("city".to_string(), json_quote(city)));
    fields.push(("temperature_celsius".to_string(), json_index_of(main.as_str(), "temp")));
    fields.push(("feels_like_celsius".to_string(), json_index_of(main.as_str(), "feels_like")));
    fields.push(("conditions".to_string(), json_index_of(first.as_str(), "description")));
    fields.push(("humidity_percent".to_string(), json_index_of(main.as_str(), "humidity")));
    fields.push(("wind_speed_ms".to_string(), json_index_of(wind.as_str(), "speed")));
    let ghost m = json_index(text@, "main"@);
    assert(field_views(fields@) =~= seq![
        ("city"@, json_quote_spec(city@)),
        ("temperature_celsius"@, json_index(m, "temp"@)),
        ("feels_like_celsius"@, json_index(m, "feels_like"@)),
        ("conditions"@, json_index(json_first(json_index(text@, "weather"@)), "description"@)),
        ("humidity_percent"@, json_index(m, "humidity"@)),
        ("wind_speed_ms"@, json_index(json_index(text@, "wind"@), "speed"@)),
    ]);
    Ok(write_json_object(&fields))
}

} // verus!
