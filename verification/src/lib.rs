//! Client-side logic for creating location groups and schedule groups
//! against a REST backend.
//!
//! The library builds the JSON payloads, the authentication headers and
//! the target URLs for the two operations, and decides the outcome of a
//! completed HTTP exchange (status code plus response body).  The network
//! round trip itself is left to the embedding application.
#![allow(unused_imports)]
use vstd::prelude::*;

pub mod headers;
pub mod jsonparse;
pub mod payload;
pub mod response;
pub mod textfmt;

verus! {

/// A request to create a location group: a description and the
/// identifiers of the locations the group contains.
#[derive(Debug)]
pub struct LocationGroupRequest {
    pub description: String,
    pub location_ids: Vec<i64>,
}

/// The server-assigned identifier of a newly created location group.
#[derive(Debug)]
pub struct LocationGroupResponse {
    pub location_group_id: i64,
}

/// A request to create a schedule group tied to an existing location
/// group, spanning a date range and carrying one learning-period value.
#[derive(Debug)]
pub struct ScheduleGroupRequest {
    pub description: String,
    pub location_group_id: i64,
    pub start_date: String,
    pub end_date: String,
    pub learning_period: String,
}

/// The server-assigned identifier of a newly created schedule group.
#[derive(Debug)]
pub struct ScheduleGroupResponse {
    pub schedule_group_id: i64,
}

} // verus!
