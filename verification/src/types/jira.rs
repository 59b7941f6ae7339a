//! Jira platform and agile resources.
use vstd::prelude::*;

use std::collections::HashMap;

use serde_json::Value;

verus! {

/// A JSON value, carried through unread (rich-text bodies, custom fields).
#[verifier::external_type_specification]
#[verifier::external_body]
pub struct ExJsonValue(Value);

/// A Jira user.
#[derive(Debug, Clone, PartialEq, Eq)]
pub struct User {
    pub account_id: String,
    pub display_name: String,
    pub email_address: Option<String>,
    pub active: Option<bool>,
}

/// An issue.
#[derive(Debug, Default)]
pub struct Issue {
    pub key: String,
    pub fields: IssueFields,
}

/// The fields of an issue. Fields the tool does not model (custom fields
/// among them) are kept in `extra`, by field id.
#[derive(Debug, Default)]
pub struct IssueFields {
    pub summary: String,
    pub description: Option<Value>,
    pub status: Option<Status>,
    pub issue_type: Option<IssueType>,
    pub priority: Option<Priority>,
    pub assignee: Option<User>,
    pub reporter: Option<User>,
    pub project: Option<IssueProject>,
    pub created: Option<String>,
    pub updated: Option<String>,
    pub resolution: Option<Resolution>,
    pub components: Option<Vec<Component>>,
    pub fix_versions: Option<Vec<Version>>,
    pub labels: Option<Vec<String>>,
    pub parent: Option<ParentIssue>,
    pub issuelinks: Option<Vec<IssueLink>>,
    pub extra: HashMap<String, Value>,
}

/// A comment on an issue.
#[derive(Debug, Default)]
pub struct Comment {
    pub id: Option<String>,
    pub body: Option<Value>,
    pub author: Option<User>,
    pub created: Option<String>,
}

/// A worklog entry.
#[derive(Debug)]
pub struct Worklog {
    pub id: Option<String>,
    pub author: Option<User>,
    pub time_spent_seconds: Option<u64>,
    pub time_spent: Option<String>,
    pub comment: Option<Value>,
    pub started: Option<String>,
}

/// An issue's parent (an epic, or the parent of a sub-task).
#[derive(Debug)]
pub struct ParentIssue {
    pub key: String,
    pub fields: Option<LinkedIssueFields>,
}

/// The fields shown of an issue at the other end of a link.
#[derive(Debug, Clone)]
pub struct LinkedIssueFields {
    pub summary: Option<String>,
}

/// A link between two issues.
#[derive(Debug, Clone)]
pub struct IssueLink {
    pub id: String,
    pub link_type: IssueLinkType,
    pub inward_issue: Option<LinkedIssue>,
    pub outward_issue: Option<LinkedIssue>,
}

/// The issue at one end of a link.
#[derive(Debug, Clone)]
pub struct LinkedIssue {
    pub key: String,
    pub fields: Option<LinkedIssueFields>,
}

/// A kind of issue link ("Blocks", "Relates").
#[derive(Debug, Clone)]
pub struct IssueLinkType {
    pub id: Option<String>,
    pub name: String,
    pub inward: Option<String>,
    pub outward: Option<String>,
}

/// The link types of an instance.
#[derive(Debug)]
pub struct IssueLinkTypesResponse {
    pub issue_link_types: Vec<IssueLinkType>,
}

/// A workflow status.
#[derive(Debug)]
pub struct Status {
    pub name: String,
    pub status_category: Option<StatusCategory>,
}

/// The category of a status (`new`, `indeterminate`, `done`).
#[derive(Debug)]
pub struct StatusCategory {
    pub name: String,
    pub key: String,
}

/// An issue type.
#[derive(Debug)]
pub struct IssueType {
    pub name: String,
}

/// An issue priority.
#[derive(Debug)]
pub struct Priority {
    pub name: String,
}

/// The project an issue belongs to.
#[derive(Debug)]
pub struct IssueProject {
    pub key: String,
    pub name: Option<String>,
}

/// A resolution ("Done", "Won't Do").
#[derive(Debug, Clone, PartialEq)]
pub struct Resolution {
    pub id: Option<String>,
    pub name: String,
    pub description: Option<String>,
}

/// A component as embedded in an issue.
#[derive(Debug, PartialEq)]
pub struct Component {
    pub name: String,
}

/// A fix version as embedded in an issue.
#[derive(Debug, PartialEq)]
pub struct Version {
    pub name: String,
    pub released: Option<bool>,
    pub release_date: Option<String>,
}

/// A workflow transition available on an issue.
#[derive(Debug)]
pub struct Transition {
    pub id: String,
    pub name: String,
    pub to: Option<Status>,
}

/// The transitions available on an issue.
#[derive(Debug)]
pub struct TransitionsResponse {
    pub transitions: Vec<Transition>,
}

/// The reply to creating an issue.
#[derive(Debug)]
pub struct CreateIssueResponse {
    pub key: String,
}

/// An agile board.
#[derive(Debug, Default)]
pub struct Board {
    pub id: u64,
    pub name: String,
    pub board_type: String,
    pub location: Option<BoardLocation>,
}

/// The project a board is located in.
#[derive(Debug, Default)]
pub struct BoardLocation {
    pub project_key: Option<String>,
    pub project_name: Option<String>,
}

/// A board's configuration.
#[derive(Debug)]
pub struct BoardConfig {
    pub id: u64,
    pub name: String,
    pub board_type: String,
}

/// One entry of an issue's change history.
#[derive(Debug, Clone, Default)]
pub struct ChangelogEntry {
    pub id: String,
    pub author: Option<User>,
    pub created: String,
    pub items: Vec<ChangelogItem>,
}

/// One field changed in a changelog entry.
#[derive(Debug, Clone)]
pub struct ChangelogItem {
    pub field: String,
    pub fieldtype: String,
    pub from: Option<String>,
    pub from_string: Option<String>,
    pub to: Option<String>,
    pub to_string: Option<String>,
}

/// The fields of an issue that can be edited, by field id.
#[derive(Debug)]
pub struct EditMeta {
    pub fields: HashMap<String, EditMetaField>,
}

/// An editable field.
#[derive(Debug)]
pub struct EditMetaField {
    pub name: String,
    pub schema: EditMetaFieldSchema,
    pub allowed_values: Option<Vec<AllowedValue>>,
    pub operations: Vec<String>,
    pub required: bool,
    pub auto_complete_url: Option<String>,
}

/// The schema of an editable field.
#[derive(Debug)]
pub struct EditMetaFieldSchema {
    pub field_type: String,
    pub system: Option<String>,
    pub custom: Option<String>,
}

/// A value a field may take (options may have child options).
#[derive(Debug)]
pub struct AllowedValue {
    pub id: Option<String>,
    pub value: Option<String>,
    pub name: Option<String>,
    pub children: Vec<AllowedValue>,
}

/// A project.
#[derive(Debug)]
pub struct Project {
    pub key: String,
    pub name: String,
}

/// A project as listed.
#[derive(Debug, Clone, Default)]
pub struct ProjectSummary {
    pub key: String,
    pub name: String,
    pub project_type_key: String,
    pub lead: Option<ProjectLead>,
}

/// The lead of a project.
#[derive(Debug, Clone, Default)]
pub struct ProjectLead {
    pub display_name: String,
    pub account_id: String,
}

/// A sprint.
#[derive(Debug, Default)]
pub struct Sprint {
    pub id: u64,
    pub name: String,
    pub state: Option<String>,
    pub start_date: Option<String>,
    pub end_date: Option<String>,
}

/// The envelope of a GraphQL reply.
#[derive(Debug)]
pub struct GraphqlResponse<T> {
    pub data: Option<T>,
}

/// The tenant contexts of a site.
#[derive(Debug)]
pub struct TenantContextData {
    pub tenant_contexts: Vec<TenantContext>,
}

/// The organisation and cloud a site belongs to.
#[derive(Debug)]
pub struct TenantContext {
    pub org_id: String,
    pub cloud_id: String,
}

/// A team.
#[derive(Debug, Clone)]
pub struct TeamEntry {
    pub team_id: String,
    pub display_name: String,
}

/// One page of teams.
#[derive(Debug)]
pub struct TeamsResponse {
    pub entities: Vec<TeamEntry>,
    pub cursor: Option<String>,
}

/// A status as listed for an issue type of a project.
#[derive(Debug, Clone)]
pub struct StatusMetadata {
    pub id: String,
    pub name: String,
    pub description: Option<String>,
}

/// An issue type of a project, with the statuses its workflow uses.
#[derive(Debug, Clone)]
pub struct IssueTypeWithStatuses {
    pub id: String,
    pub name: String,
    pub subtask: Option<bool>,
    pub statuses: Vec<StatusMetadata>,
}

} // verus!
