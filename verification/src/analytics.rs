//! What the gateway records about a call for analytics.
//!
//! Analytics are advisory: a record is made only for a body that decoded as a
//! JSON-RPC request, and nothing in the handling of a call depends on it.
//! Where the caller lives is looked up only for a record that was made, and
//! added to it with [`MessageInfo::with_geo`].

use vstd::prelude::*;
use crate::handlers::RpcQueryParams;

verus! {

/// The envelope of a JSON-RPC 2.0 request, as far as the gateway reads it.
/// `id` is the identifier as it stood in the body.
#[derive(Debug)]
pub struct RpcRequest {
    pub id: String,
    pub jsonrpc: String,
    pub method: String,
}

/// What a lookup of the caller's address told, where it told anything.
#[derive(Debug)]
pub struct GeoData {
    pub country: Option<String>,
    pub continent: Option<String>,
}

/// One analytics record.
#[derive(Debug)]
pub struct MessageInfo {
    pub project_id: String,
    pub chain_id: String,
    pub method: String,
    pub sender: Option<String>,
    pub country: Option<String>,
    pub continent: Option<String>,
}

/// The text that an optional string holds.
pub open spec fn text_of(value: Option<String>) -> Option<Seq<char>> {
    match value {
        Some(s) => Some(s@),
        None => None,
    }
}

/// A copy of an optional string.
pub fn copy_text(value: &Option<String>) -> (copy: Option<String>)
    ensures
        text_of(copy) == text_of(*value),
{
    match value {
        Some(s) => Some(s.clone()),
        None => None,
    }
}

/// The country and the continent that a lookup gave; neither where there was
/// no lookup or it found nothing.
pub fn geo_fields(geo: &Option<GeoData>) -> (fields: (Option<String>, Option<String>))
    ensures
        text_of(fields.0) == country_of(*geo),
        text_of(fields.1) == continent_of(*geo),
{
    match geo {
        Some(data) => (copy_text(&data.country), copy_text(&data.continent)),
        None => (None, None),
    }
}

pub open spec fn country_of(geo: Option<GeoData>) -> Option<Seq<char>> {
    match geo {
        Some(data) => text_of(data.country),
        None => None,
    }
}

pub open spec fn continent_of(geo: Option<GeoData>) -> Option<Seq<char>> {
    match geo {
        Some(data) => text_of(data.continent),
        None => None,
    }
}

impl MessageInfo {
    /// Whether this record is the one for a call with these parameters.
    pub open spec fn records(
        &self,
        query_params: RpcQueryParams,
        request: RpcRequest,
        sender: Option<String>,
        country: Option<Seq<char>>,
        continent: Option<Seq<char>>,
    ) -> bool {
        &&& self.project_id@ == query_params.project_id@
        &&& self.chain_id@ == query_params.chain_id@
        &&& self.method@ == request.method@
        &&& text_of(self.sender) == text_of(sender)
        &&& text_of(self.country) == country
        &&& text_of(self.continent) == continent
    }

    /// The record for one call: the project and the chain of the query, the
    /// method of the request and what is known of the caller.
    pub fn new(
        query_params: &RpcQueryParams,
        request: &RpcRequest,
        sender: Option<String>,
        country: Option<String>,
        continent: Option<String>,
    ) -> (info: Self)
        ensures
            info.records(*query_params, *request, sender, text_of(country), text_of(continent)),
    {
        MessageInfo {
            project_id: query_params.project_id.clone(),
            chain_id: query_params.chain_id.clone(),
            method: request.method.clone(),
            sender,
            country,
            continent,
        }
    }

    /// This record with what the lookup of the caller's address gave: its
    /// country and continent where there are any, and all else as it was.
    pub fn with_geo(self, geo: &Option<GeoData>) -> (info: Self)
        ensures
            info.project_id == self.project_id,
            info.chain_id == self.chain_id,
            info.method == self.method,
            info.sender == self.sender,
            text_of(info.country) == country_of(*geo),
            text_of(info.continent) == continent_of(*geo),
    {
        let (country, continent) = geo_fields(geo);
        MessageInfo {
            project_id: self.project_id,
            chain_id: self.chain_id,
            method: self.method,
            sender: self.sender,
            country,
            continent,
        }
    }
}

} // verus!
