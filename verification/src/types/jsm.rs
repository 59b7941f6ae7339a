//! Jira Service Management resources.
use vstd::prelude::*;

use serde_json::Value;

verus! {

/// A service desk queue.
#[derive(Debug, Default)]
pub struct Queue {
    pub id: String,
    pub name: String,
    pub jql: Option<String>,
    pub fields: Option<Vec<String>>,
    pub issue_count: Option<u64>,
}

/// The key of an issue listed in a queue.
#[derive(Debug, Default)]
pub struct QueueIssueKey {
    pub key: String,
}

/// A request type of a service desk.
#[derive(Debug, Clone, Default)]
pub struct RequestType {
    pub id: String,
    pub name: String,
    pub description: Option<String>,
    pub help_text: Option<String>,
    pub issue_type_id: Option<String>,
    pub group_ids: Vec<String>,
}

/// A field of a request type.
#[derive(Debug, Default)]
pub struct RequestTypeField {
    pub field_id: String,
    pub name: String,
    pub description: Option<String>,
    pub required: bool,
    pub visible: bool,
    pub default_values: Option<Vec<Value>>,
    pub valid_values: Option<Vec<Value>>,
    pub jira_schema: Value,
}

/// The fields of a request type.
#[derive(Debug, Default)]
pub struct RequestTypeFieldsResponse {
    pub can_raise_on_behalf_of: bool,
    pub can_add_request_participants: bool,
    pub request_type_fields: Vec<RequestTypeField>,
}

/// A customer request to create.
#[derive(Debug, Default)]
pub struct JsmRequest {
    pub service_desk_id: String,
    pub request_type_id: String,
    pub request_field_values: Value,
}

/// The reply to creating a customer request.
#[derive(Debug, Clone, Default)]
pub struct JsmRequestCreated {
    pub issue_key: String,
    pub issue_id: Option<String>,
}

} // verus!
