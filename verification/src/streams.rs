use vstd::prelude::*;

verus! {

use vstd::string::StringExecFns;
use crate::activity::ActivityStreams;

/// Whether a body parses as JSON at all. What the remote streams endpoint
/// answers must at least be JSON before any series can be read from it.
pub uninterp spec fn json_text_wf(text: Seq<char>) -> bool;

/// The integer sample series stored in `text` under `key` -> `data`, when
/// `text` is a JSON object holding such a well-formed series there.
pub uninterp spec fn json_int_series(text: Seq<char>, key: Seq<char>) -> Option<Seq<i32>>;

/// The fractional sample series stored in `text` under `key` -> `data`,
/// each sample carried opaquely as decimal text.
pub uninterp spec fn json_number_series(text: Seq<char>, key: Seq<char>) -> Option<Seq<Seq<char>>>;

/// Relies on serde_json::from_str::<Value>: whether the body is valid
/// JSON. The answer is a function of the text alone.
#[verifier::external_body]
fn json_parses(text: &str) -> (r: bool)
    ensures
        r == json_text_wf(text@),
{
    serde_json::from_str::<serde_json::Value>(text).is_ok()
}

/// Relies on serde_json (from_str, Value::get, from_value): the integer
/// array under `key` -> `data` of the JSON object in `text`. Absent key,
/// absent `data`, unparseable text or a malformed array all answer `None`;
/// the answer is a function of the text and the key alone.
#[verifier::external_body]
fn extract_int_series(text: &str, key: &str) -> (r: Option<Vec<i32>>)
    ensures
        r.deep_view() == json_int_series(text@, key@),
{
    let root: serde_json::Value = match serde_json::from_str(text) {
        Ok(v) => v,
        Err(_) => return None,
    };
    root.get(key).and_then(|v| v.get("data")).and_then(|d| serde_json::from_value(d.clone()).ok())
}

/// Relies on serde_json (from_str, Value::get, from_value): the numeric
/// array under `key` -> `data` of the JSON object in `text`, each sample
/// rendered one for one as its decimal text. Absent key, absent `data`,
/// unparseable text or a malformed array all answer `None`; the answer is
/// a function of the text and the key alone.
#[verifier::external_body]
fn extract_number_series(text: &str, key: &str) -> (r: Option<Vec<String>>)
    ensures
        r.deep_view() == json_number_series(text@, key@),
{
    let root: serde_json::Value = match serde_json::from_str(text) {
        Ok(v) => v,
        Err(_) => return None,
    };
    let data: Option<Vec<serde_json::Number>> = root.get(key).and_then(|v| v.get("data"))
        .and_then(|d| serde_json::from_value(d.clone()).ok());
    data.map(|v| v.into_iter().map(|n| n.to_string()).collect())
}

/// Decode a streams-endpoint body into the six optional series. Each of
/// the six keys is read independently: an absent or malformed series
/// leaves only its own field empty and never spoils the others. Only a
/// body that is not JSON at all fails the decode as a whole.
pub fn decode_streams(body: &str) -> (r: Option<ActivityStreams>)
    ensures
        r is Some <==> json_text_wf(body@),
        match r {
            Some(s) => {
                &&& s.time.deep_view() == json_int_series(body@, "time"@)
                &&& s.watts.deep_view() == json_number_series(body@, "watts"@)
                &&& s.heartrate.deep_view() == json_int_series(body@, "heartrate"@)
                &&& s.cadence.deep_view() == json_int_series(body@, "cadence"@)
                &&& s.velocity_smooth.deep_view() == json_number_series(body@, "velocity_smooth"@)
                &&& s.altitude.deep_view() == json_number_series(body@, "altitude"@)
            },
            None => true,
        },
{
    if !json_parses(body) {
        return None;
    }
    Some(
        ActivityStreams {
            time: extract_int_series(body, "time"),
            watts: extract_number_series(body, "watts"),
            heartrate: extract_int_series(body, "heartrate"),
            cadence: extract_int_series(body, "cadence"),
            velocity_smooth: extract_number_series(body, "velocity_smooth"),
            altitude: extract_number_series(body, "altitude"),
        },
    )
}

/// The query the streams endpoint is asked with: exactly the six known
/// stream keys, in the keyed-by-type response mode.
pub fn stream_request_query() -> (q: Vec<(String, String)>)
    ensures
        q@.len() == 2,
        q@[0].0@ == "keys"@,
        q@[0].1@ == "time,watts,heartrate,cadence,velocity_smooth,altitude"@,
        q@[1].0@ == "key_by_type"@,
        q@[1].1@ == "true"@,
{
    vec![
        (
            String::from_str("keys"),
            String::from_str("time,watts,heartrate,cadence,velocity_smooth,altitude"),
        ),
        (String::from_str("key_by_type"), String::from_str("true")),
    ]
}

} // verus!
