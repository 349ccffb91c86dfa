//! Construction of the JSON bodies sent to the backend and of the
//! caller-facing JSON form of the request structs, together with the
//! endpoint URLs.
use vstd::prelude::*;
use vstd::string::*;

use crate::textfmt::escape_json_str;
use crate::textfmt::escape_text;
use crate::textfmt::i64_to_dec;
use crate::textfmt::spec_i64_dec;
use crate::LocationGroupRequest;
use crate::ScheduleGroupRequest;

verus! {

/// The JSON object wrapping one location identifier, as the backend
/// expects each element of the `Locations` array.
pub open spec fn spec_location_obj(id: i64) -> Seq<char> {
    "{\"LocationID\":"@ + spec_i64_dec(id as int) + "}"@
}

/// The elements of the `Locations` array joined with commas, one object
/// per identifier, in input order.
pub open spec fn spec_locations_inner(ids: Seq<i64>) -> Seq<char>
    decreases ids.len(),
{
    if ids.len() == 0 {
        Seq::empty()
    } else if ids.len() == 1 {
        spec_location_obj(ids[0])
    } else {
        spec_location_obj(ids[0]) + ","@ + spec_locations_inner(ids.subrange(1, ids.len() as int))
    }
}

/// The full `Locations` array text.
pub open spec fn spec_locations_array(ids: Seq<i64>) -> Seq<char> {
    "["@ + spec_locations_inner(ids) + "]"@
}

pub proof fn lemma_locations_inner_snoc(ids: Seq<i64>, id: i64)
    ensures
        spec_locations_inner(ids.push(id)) == (if ids.len() == 0 {
            spec_location_obj(id)
        } else {
            spec_locations_inner(ids) + ","@ + spec_location_obj(id)
        }),
    decreases ids.len(),
{
    if ids.len() == 0 {
        assert(ids.push(id).len() == 1);
        assert(ids.push(id)[0] == id);
    } else if ids.len() == 1 {
        assert(ids.push(id)[0] == ids[0]);
        assert(ids.push(id).subrange(1, 2) =~= seq![id]);
        assert(spec_locations_inner(seq![id]) == spec_location_obj(id));
        assert(spec_locations_inner(ids.push(id)) =~= spec_locations_inner(ids) + ","@
            + spec_location_obj(id));
    } else {
        assert(ids.push(id)[0] == ids[0]);
        assert(ids.push(id).subrange(1, ids.len() as int + 1) =~= ids.subrange(
            1,
            ids.len() as int,
        ).push(id));
        lemma_locations_inner_snoc(ids.subrange(1, ids.len() as int), id);
        assert(spec_locations_inner(ids.push(id)) =~= spec_locations_inner(ids) + ","@
            + spec_location_obj(id));
    }
}

/// Build the `Locations` array: one `{"LocationID": id}` object per
/// identifier, preserving input order.
pub fn locations_array_json(ids: &Vec<i64>) -> (r: String)
    ensures
        r@ == spec_locations_array(ids@),
{
    let mut out = String::from_str("[");
    let mut i: usize = 0;
    while i < ids.len()
        invariant
            i <= ids@.len(),
            out@ == "["@ + spec_locations_inner(ids@.subrange(0, i as int)),
        decreases ids@.len() - i,
    {
        if i > 0 {
            out.append(",");
        }
        out.append("{\"LocationID\":");
        let d = i64_to_dec(ids[i]);
        out.append(d.as_str());
        out.append("}");
        proof {
            lemma_locations_inner_snoc(ids@.subrange(0, i as int), ids@[i as int]);
            assert(ids@.subrange(0, i as int + 1) =~= ids@.subrange(0, i as int).push(
                ids@[i as int],
            ));
            assert(out@ =~= "["@ + spec_locations_inner(ids@.subrange(0, i as int + 1)));
        }
        i = i + 1;
    }
    out.append("]");
    proof {
        assert(ids@.subrange(0, ids@.len() as int) =~= ids@);
        assert(out@ =~= spec_locations_array(ids@));
    }
    out
}

/// The body POSTed to the location-group endpoint.
pub open spec fn spec_location_group_payload(description: Seq<char>, ids: Seq<i64>) -> Seq<char> {
    "{\"Description\":\""@ + escape_text(description) + "\",\"Active\":true,\"Locations\":"@
        + spec_locations_array(ids) + "}"@
}

/// Build the JSON body for creating a location group.
pub fn location_group_payload(request: &LocationGroupRequest) -> (r: String)
    ensures
        r@ == spec_location_group_payload(request.description@, request.location_ids@),
{
    let mut out = String::from_str("{\"Description\":\"");
    let esc = escape_json_str(request.description.as_str());
    out.append(esc.as_str());
    out.append("\",\"Active\":true,\"Locations\":");
    let arr = locations_array_json(&request.location_ids);
    out.append(arr.as_str());
    out.append("}");
    proof {
        assert(out@ =~= spec_location_group_payload(request.description@, request.location_ids@));
    }
    out
}

/// The `AdhocFields` array: always exactly one entry, carrying the
/// learning-period value under the fixed field name.
pub open spec fn spec_adhoc_fields(learning_period: Seq<char>) -> Seq<char> {
    "[{\"FieldName\":\"adhoc_LearningPeriod\",\"Value\":\""@ + escape_text(learning_period)
        + "\"}]"@
}

/// The body POSTed to the schedule-group endpoint.
pub open spec fn spec_schedule_group_payload(
    description: Seq<char>,
    location_group_id: i64,
    start_date: Seq<char>,
    end_date: Seq<char>,
    learning_period: Seq<char>,
) -> Seq<char> {
    "{\"Description\":\""@ + escape_text(description) + "\",\"Active\":true,\"LocationGroupID\":"@
        + spec_i64_dec(location_group_id as int) + ",\"GroupStartDate\":\""@ + escape_text(
        start_date,
    ) + "\",\"GroupEndDate\":\""@ + escape_text(end_date) + "\",\"AdhocFields\":"@
        + spec_adhoc_fields(learning_period) + "}"@
}

/// Build the JSON body for creating a schedule group.
pub fn schedule_group_payload(request: &ScheduleGroupRequest) -> (r: String)
    ensures
        r@ == spec_schedule_group_payload(
            request.description@,
            request.location_group_id,
            request.start_date@,
            request.end_date@,
            request.learning_period@,
        ),
{
    let mut out = String::from_str("{\"Description\":\"");
    let desc = escape_json_str(request.description.as_str());
    out.append(desc.as_str());
    out.append("\",\"Active\":true,\"LocationGroupID\":");
    let gid = i64_to_dec(request.location_group_id);
    out.append(gid.as_str());
    out.append(",\"GroupStartDate\":\"");
    let sd = escape_json_str(request.start_date.as_str());
    out.append(sd.as_str());
    out.append("\",\"GroupEndDate\":\"");
    let ed = escape_json_str(request.end_date.as_str());
    out.append(ed.as_str());
    out.append("\",\"AdhocFields\":");
    out.append("[{\"FieldName\":\"adhoc_LearningPeriod\",\"Value\":\"");
    let lp = escape_json_str(request.learning_period.as_str());
    out.append(lp.as_str());
    out.append("\"}]");
    out.append("}");
    proof {
        assert(out@ =~= spec_schedule_group_payload(
            request.description@,
            request.location_group_id,
            request.start_date@,
            request.end_date@,
            request.learning_period@,
        ));
    }
    out
}

/// A plain array of integers, comma separated.
pub open spec fn spec_ids_inner(ids: Seq<i64>) -> Seq<char>
    decreases ids.len(),
{
    if ids.len() == 0 {
        Seq::empty()
    } else if ids.len() == 1 {
        spec_i64_dec(ids[0] as int)
    } else {
        spec_i64_dec(ids[0] as int) + ","@ + spec_ids_inner(ids.subrange(1, ids.len() as int))
    }
}

pub open spec fn spec_ids_array(ids: Seq<i64>) -> Seq<char> {
    "["@ + spec_ids_inner(ids) + "]"@
}

pub proof fn lemma_ids_inner_snoc(ids: Seq<i64>, id: i64)
    ensures
        spec_ids_inner(ids.push(id)) == (if ids.len() == 0 {
            spec_i64_dec(id as int)
        } else {
            spec_ids_inner(ids) + ","@ + spec_i64_dec(id as int)
        }),
    decreases ids.len(),
{
    if ids.len() == 0 {
        assert(ids.push(id).len() == 1);
        assert(ids.push(id)[0] == id);
    } else if ids.len() == 1 {
        assert(ids.push(id)[0] == ids[0]);
        assert(ids.push(id).subrange(1, 2) =~= seq![id]);
        assert(spec_ids_inner(seq![id]) == spec_i64_dec(id as int));
        assert(spec_ids_inner(ids.push(id)) =~= spec_ids_inner(ids) + ","@ + spec_i64_dec(
            id as int,
        ));
    } else {
        assert(ids.push(id)[0] == ids[0]);
        assert(ids.push(id).subrange(1, ids.len() as int + 1) =~= ids.subrange(
            1,
            ids.len() as int,
        ).push(id));
        lemma_ids_inner_snoc(ids.subrange(1, ids.len() as int), id);
        assert(spec_ids_inner(ids.push(id)) =~= spec_ids_inner(ids) + ","@ + spec_i64_dec(
            id as int,
        ));
    }
}

/// Build a plain JSON array of the given integers.
pub fn ids_array_json(ids: &Vec<i64>) -> (r: String)
    ensures
        r@ == spec_ids_array(ids@),
{
    let mut out = String::from_str("[");
    let mut i: usize = 0;
    while i < ids.len()
        invariant
            i <= ids@.len(),
            out@ == "["@ + spec_ids_inner(ids@.subrange(0, i as int)),
        decreases ids@.len() - i,
    {
        if i > 0 {
            out.append(",");
        }
        let d = i64_to_dec(ids[i]);
        out.append(d.as_str());
        proof {
            lemma_ids_inner_snoc(ids@.subrange(0, i as int), ids@[i as int]);
            assert(ids@.subrange(0, i as int + 1) =~= ids@.subrange(0, i as int).push(
                ids@[i as int],
            ));
            assert(out@ =~= "["@ + spec_ids_inner(ids@.subrange(0, i as int + 1)));
        }
        i = i + 1;
    }
    out.append("]");
    proof {
        assert(ids@.subrange(0, ids@.len() as int) =~= ids@);
        assert(out@ =~= spec_ids_array(ids@));
    }
    out
}

/// The caller-facing JSON form of a location-group request, with the
/// snake_case field names the caller sees.
pub open spec fn spec_location_group_request_json(description: Seq<char>, ids: Seq<i64>) -> Seq<
    char,
> {
    "{\"description\":\""@ + escape_text(description) + "\",\"location_ids\":"@ + spec_ids_array(
        ids,
    ) + "}"@
}

/// Serialize a location-group request into its caller-facing JSON form.
pub fn location_group_request_json(request: &LocationGroupRequest) -> (r: String)
    ensures
        r@ == spec_location_group_request_json(request.description@, request.location_ids@),
{
    let mut out = String::from_str("{\"description\":\"");
    let desc = escape_json_str(request.description.as_str());
    out.append(desc.as_str());
    out.append("\",\"location_ids\":");
    let arr = ids_array_json(&request.location_ids);
    out.append(arr.as_str());
    out.append("}");
    proof {
        assert(out@ =~= spec_location_group_request_json(
            request.description@,
            request.location_ids@,
        ));
    }
    out
}

/// The caller-facing JSON form of a schedule-group request.
pub open spec fn spec_schedule_group_request_json(
    description: Seq<char>,
    location_group_id: i64,
    start_date: Seq<char>,
    end_date: Seq<char>,
    learning_period: Seq<char>,
) -> Seq<char> {
    "{\"description\":\""@ + escape_text(description) + "\",\"location_group_id\":"@
        + spec_i64_dec(location_group_id as int) + ",\"start_date\":\""@ + escape_text(start_date)
        + "\",\"end_date\":\""@ + escape_text(end_date) + "\",\"learning_period\":\""@
        + escape_text(learning_period) + "\"}"@
}

/// Serialize a schedule-group request into its caller-facing JSON form.
pub fn schedule_group_request_json(request: &ScheduleGroupRequest) -> (r: String)
    ensures
        r@ == spec_schedule_group_request_json(
            request.description@,
            request.location_group_id,
            request.start_date@,
            request.end_date@,
            request.learning_period@,
        ),
{
    let mut out = String::from_str("{\"description\":\"");
    let desc = escape_json_str(request.description.as_str());
    out.append(desc.as_str());
    out.append("\",\"location_group_id\":");
    let gid = i64_to_dec(request.location_group_id);
    out.append(gid.as_str());
    out.append(",\"start_date\":\"");
    let sd = escape_json_str(request.start_date.as_str());
    out.append(sd.as_str());
    out.append("\",\"end_date\":\"");
    let ed = escape_json_str(request.end_date.as_str());
    out.append(ed.as_str());
    out.append("\",\"learning_period\":\"");
    let lp = escape_json_str(request.learning_period.as_str());
    out.append(lp.as_str());
    out.append("\"}");
    proof {
        assert(out@ =~= spec_schedule_group_request_json(
            request.description@,
            request.location_group_id,
            request.start_date@,
            request.end_date@,
            request.learning_period@,
        ));
    }
    out
}

/// URL of the location-group endpoint under the given base URL, which is
/// taken as supplied: no trailing-slash normalization is performed.
pub fn location_group_url(base_url: &str) -> (r: String)
    ensures
        r@ == base_url@ + "/RESTApi/LocationGroup"@,
{
    let mut out = base_url.to_owned();
    out.append("/RESTApi/LocationGroup");
    out
}

/// URL of the schedule-group endpoint under the given base URL.
pub fn schedule_group_url(base_url: &str) -> (r: String)
    ensures
        r@ == base_url@ + "/RESTApi/ScheduleGroup"@,
{
    let mut out = base_url.to_owned();
    out.append("/RESTApi/ScheduleGroup");
    out
}

} // verus!
