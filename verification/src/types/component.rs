//! Project components, as the component endpoints return them.
use vstd::prelude::*;

verus! {

/// A project component.
#[derive(Debug, Clone)]
pub struct Component {
    pub id: String,
    pub name: String,
    pub description: Option<String>,
    pub lead: Option<ComponentLead>,
    pub assignee_type: Option<String>,
    pub project: Option<String>,
    pub related_issue_count: Option<u64>,
    pub is_assignee_type_valid: Option<bool>,
}

/// The lead of a component.
#[derive(Debug, Clone)]
pub struct ComponentLead {
    pub account_id: Option<String>,
    pub display_name: Option<String>,
}

/// The number of issues that use a component.
#[derive(Debug, Clone)]
pub struct RelatedIssueCounts {
    pub id: String,
    pub issue_count: u64,
}

} // verus!
