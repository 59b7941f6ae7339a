//! Assets (CMDB) resources.
use vstd::prelude::*;

verus! {

/// An Assets object.
#[derive(Debug, Default)]
pub struct AssetObject {
    pub id: String,
    pub label: String,
    pub object_key: String,
    pub object_type: ObjectType,
    pub created: Option<String>,
    pub updated: Option<String>,
    pub attributes: Vec<AssetAttribute>,
}

/// The type of an Assets object.
#[derive(Debug, Default)]
pub struct ObjectType {
    pub id: String,
    pub name: String,
    pub description: Option<String>,
}

/// An attribute of an object, as embedded in the object.
#[derive(Debug)]
pub struct AssetAttribute {
    pub id: String,
    pub object_type_attribute_id: String,
    pub values: Vec<ObjectAttributeValue>,
}

/// One value of an attribute.
#[derive(Debug)]
pub struct ObjectAttributeValue {
    pub value: Option<String>,
    pub display_value: Option<String>,
}

/// An attribute of an object, with its definition.
#[derive(Debug)]
pub struct ObjectAttribute {
    pub id: String,
    pub object_type_attribute_id: String,
    pub object_type_attribute: ObjectTypeAttributeDef,
    pub values: Vec<ObjectAttributeValue>,
}

/// The definition of an attribute of an object type.
#[derive(Debug)]
pub struct ObjectTypeAttributeDef {
    pub id: String,
    pub name: String,
    pub system: bool,
    pub hidden: bool,
    pub label: bool,
    pub position: i32,
    pub default_type: Option<DefaultType>,
    pub reference_type: Option<ReferenceType>,
    pub reference_object_type: Option<ReferenceObjectType>,
    pub minimum_cardinality: i32,
    pub maximum_cardinality: i32,
    pub editable: bool,
    pub description: Option<String>,
    pub options: Option<String>,
}

/// The built-in value type of an attribute.
#[derive(Debug)]
pub struct DefaultType {
    pub id: i32,
    pub name: String,
}

/// The kind of reference an attribute makes.
#[derive(Debug)]
pub struct ReferenceType {
    pub id: String,
    pub name: String,
}

/// The object type an attribute refers to.
#[derive(Debug)]
pub struct ReferenceObjectType {
    pub id: String,
    pub name: String,
}

/// An object schema.
#[derive(Debug, Default)]
pub struct ObjectSchema {
    pub id: String,
    pub name: String,
    pub object_schema_key: String,
    pub description: Option<String>,
    pub object_count: i64,
    pub object_type_count: i64,
}

/// An object type as listed in a schema.
#[derive(Debug)]
pub struct ObjectTypeEntry {
    pub id: String,
    pub name: String,
    pub description: Option<String>,
    pub position: i32,
    pub object_count: i64,
    pub object_schema_id: String,
    pub inherited: bool,
    pub abstract_object_type: bool,
}

/// The tickets connected to an object.
#[derive(Debug)]
pub struct ConnectedTicketsResponse {
    pub tickets: Vec<ConnectedTicket>,
    pub all_tickets_query: Option<String>,
}

/// A ticket connected to an object.
#[derive(Debug)]
pub struct ConnectedTicket {
    pub key: String,
    pub id: String,
    pub title: String,
    pub reporter: Option<String>,
    pub created: Option<String>,
    pub updated: Option<String>,
    pub status: Option<TicketStatus>,
    pub issue_type: Option<TicketType>,
    pub priority: Option<TicketPriority>,
}

/// The status of a connected ticket.
#[derive(Debug)]
pub struct TicketStatus {
    pub name: String,
    pub color_name: Option<String>,
}

/// The type of a connected ticket.
#[derive(Debug)]
pub struct TicketType {
    pub name: String,
}

/// The priority of a connected ticket.
#[derive(Debug)]
pub struct TicketPriority {
    pub name: String,
}

} // verus!
