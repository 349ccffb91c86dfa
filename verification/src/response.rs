//! Deciding the outcome of a completed HTTP exchange: status check,
//! JSON parsing of the body, and extraction of the server-assigned
//! identifier.
//!
//! JSON parsing is serde_json's work.  The library models a response
//! body by its top-level integer-valued fields: `doc_int_fields` names,
//! for a body text, the map from field name to value of every top-level
//! field that reads as an `i64` (and is `None` where the text is not
//! JSON at all); `value_int_fields` names the same map on a parsed
//! value.
use vstd::prelude::*;
use vstd::string::*;

use crate::textfmt::dec_digits;
use crate::textfmt::u64_to_dec;
use crate::LocationGroupResponse;
use crate::ScheduleGroupResponse;

verus! {

#[verifier::external_type_specification]
#[verifier::external_body]
pub struct ExJsonValue(serde_json::Value);

#[verifier::external_type_specification]
#[verifier::external_body]
pub struct ExJsonError(serde_json::Error);

/// The top-level integer fields of a JSON text, or `None` where the
/// text does not parse as JSON; both depend on the text alone.
pub uninterp spec fn doc_int_fields(s: Seq<char>) -> Option<Map<Seq<char>, i64>>;

/// The top-level integer fields of a parsed JSON value.
pub uninterp spec fn value_int_fields(v: serde_json::Value) -> Map<Seq<char>, i64>;

/// Relies on serde_json::from_str::<Value>: whether a text parses, and
/// what the parsed value holds, depend on the text alone.
#[verifier::external_body]
fn parse_json_document(s: &str) -> (r: Result<serde_json::Value, serde_json::Error>)
    ensures
        r is Ok <==> doc_int_fields(s@) is Some,
        (r matches Ok(v) ==> Some(value_int_fields(v)) == doc_int_fields(s@)),
{
    serde_json::from_str(s)
}

/// Relies on serde_json::Value::get and Value::as_i64: looks up a
/// top-level field by name and reads it as an `i64` where it is an
/// integer in range.
#[verifier::external_body]
fn get_int_field(v: &serde_json::Value, key: &str) -> (r: Option<i64>)
    ensures
        r == (if value_int_fields(*v).dom().contains(key@) {
            Some(value_int_fields(*v)[key@])
        } else {
            Option::<i64>::None
        }),
{
    match v.get(key) {
        Some(field) => field.as_i64(),
        None => None,
    }
}

/// Relies on the Display impl of serde_json::Error for the parse-error
/// description shown to the caller.
#[verifier::external_body]
fn json_error_text(e: &serde_json::Error) -> String {
    format!("{}", e)
}

/// Whether an HTTP status lies in the success range.
pub open spec fn spec_status_success(status: u16) -> bool {
    200 <= status <= 299
}

/// The message reported for a response outside the success range.
pub open spec fn spec_status_error_msg(status: u16, body: Seq<char>) -> Seq<char> {
    "API error ("@ + dec_digits(status as nat) + "): "@ + body
}

/// The message reported when the body parses but the identifier field
/// is absent or not an integer.
pub open spec fn spec_missing_field_msg(field: Seq<char>) -> Seq<char> {
    field + " not found in response"@
}

/// The fixed prefix of the message reported when the body is not JSON.
pub open spec fn spec_parse_error_prefix() -> Seq<char> {
    "Failed to parse response: "@
}

/// Whether a completed exchange counts as a success: status in the
/// success range, body valid JSON, and the named integer field present.
pub open spec fn spec_exchange_ok(status: u16, body: Seq<char>, field: Seq<char>) -> bool {
    &&& spec_status_success(status)
    &&& doc_int_fields(body) matches Some(m) && m.dom().contains(field)
}

/// Decide the outcome of an exchange and extract the named integer
/// field from the response body.
pub fn extract_id_field(status: u16, body: &str, field: &str) -> (r: Result<i64, String>)
    ensures
        r is Ok <==> spec_exchange_ok(status, body@, field@),
        (r matches Ok(id) ==> doc_int_fields(body@) matches Some(m) && m.dom().contains(field@)
            && id == m[field@]),
        !spec_status_success(status) ==> (r matches Err(m) && m@ == spec_status_error_msg(
            status,
            body@,
        )),
        spec_status_success(status) && doc_int_fields(body@) is None ==> (r matches Err(m)
            && spec_parse_error_prefix().is_prefix_of(m@)),
        spec_status_success(status) && (doc_int_fields(body@) matches Some(fm)
            && !fm.dom().contains(field@)) ==> (r matches Err(m) && m@ == spec_missing_field_msg(
            field@,
        )),
{
    if !(200 <= status && status <= 299) {
        let mut msg = String::from_str("API error (");
        let code = u64_to_dec(status as u64);
        msg.append(code.as_str());
        msg.append("): ");
        msg.append(body);
        proof {
            assert(msg@ =~= spec_status_error_msg(status, body@));
        }
        return Err(msg);
    }
    match parse_json_document(body) {
        Err(e) => {
            let mut msg = String::from_str("Failed to parse response: ");
            let detail = json_error_text(&e);
            msg.append(detail.as_str());
            proof {
                assert(spec_parse_error_prefix().is_prefix_of(msg@));
            }
            Err(msg)
        },
        Ok(v) => {
            match get_int_field(&v, field) {
                Some(id) => Ok(id),
                None => {
                    let mut msg = field.to_owned();
                    msg.append(" not found in response");
                    proof {
                        assert(msg@ =~= spec_missing_field_msg(field@));
                    }
                    Err(msg)
                },
            }
        },
    }
}

/// Decide the outcome of a location-group creation from the status and
/// body of the completed POST.
pub fn location_group_outcome(status: u16, body: &str) -> (r: Result<
    LocationGroupResponse,
    String,
>)
    ensures
        r is Ok <==> spec_exchange_ok(status, body@, "LocationGroupID"@),
        (r matches Ok(resp) ==> doc_int_fields(body@) matches Some(m) && m.dom().contains(
            "LocationGroupID"@,
        ) && resp.location_group_id == m["LocationGroupID"@]),
        !spec_status_success(status) ==> (r matches Err(m) && m@ == spec_status_error_msg(
            status,
            body@,
        )),
        spec_status_success(status) && doc_int_fields(body@) is None ==> (r matches Err(m)
            && spec_parse_error_prefix().is_prefix_of(m@)),
        spec_status_success(status) && (doc_int_fields(body@) matches Some(fm)
            && !fm.dom().contains("LocationGroupID"@)) ==> (r matches Err(m) && m@
            == spec_missing_field_msg("LocationGroupID"@)),
{
    match extract_id_field(status, body, "LocationGroupID") {
        Ok(id) => Ok(LocationGroupResponse { location_group_id: id }),
        Err(m) => Err(m),
    }
}

/// Decide the outcome of a schedule-group creation from the status and
/// body of the completed POST.
pub fn schedule_group_outcome(status: u16, body: &str) -> (r: Result<
    ScheduleGroupResponse,
    String,
>)
    ensures
        r is Ok <==> spec_exchange_ok(status, body@, "ScheduleGroupID"@),
        (r matches Ok(resp) ==> doc_int_fields(body@) matches Some(m) && m.dom().contains(
            "ScheduleGroupID"@,
        ) && resp.schedule_group_id == m["ScheduleGroupID"@]),
        !spec_status_success(status) ==> (r matches Err(m) && m@ == spec_status_error_msg(
            status,
            body@,
        )),
        spec_status_success(status) && doc_int_fields(body@) is None ==> (r matches Err(m)
            && spec_parse_error_prefix().is_prefix_of(m@)),
        spec_status_success(status) && (doc_int_fields(body@) matches Some(fm)
            && !fm.dom().contains("ScheduleGroupID"@)) ==> (r matches Err(m) && m@
            == spec_missing_field_msg("ScheduleGroupID"@)),
{
    match extract_id_field(status, body, "ScheduleGroupID") {
        Ok(id) => Ok(ScheduleGroupResponse { schedule_group_id: id }),
        Err(m) => Err(m),
    }
}

} // verus!
