//! Table descriptions shared by requests and responses, and the source of
//! table identities.
use vstd::prelude::*;
use crate::text::{decimal, decimal_string};

verus! {

/// A table named within a namespace.
#[derive(Debug)]
pub struct TableIdentifier {
    pub namespace: NamespaceResponse,
    pub name: String,
}

/// A namespace written as its path segments.
#[derive(Debug)]
pub struct NamespaceResponse(pub Vec<String>);

/// The type of a schema field.
#[derive(Debug)]
pub enum Type {
    Primitive(PrimitiveType),
    Struct(StructType),
    List(Box<ListType>),
    Mapping(Box<MapType>),
}

/// A primitive type, by name.
#[derive(Debug)]
pub struct PrimitiveType(pub String);

/// A field of a struct type.
#[derive(Debug)]
pub struct StructField {
    pub id: i32,
    pub name: String,
    pub type_: Type,
    pub required: bool,
}

/// A struct type: its fields in order.
#[derive(Debug)]
pub struct StructType {
    pub type_: String,
    pub fields: Vec<StructField>,
}

/// A list type: the type of its elements.
#[derive(Debug)]
pub struct ListType {
    pub type_: String,
    pub element_id: i32,
    pub element: Type,
    pub element_required: bool,
}

/// A map type: the types of its keys and values.
#[derive(Debug)]
pub struct MapType {
    pub type_: String,
    pub key_id: i32,
    pub key: Type,
    pub value_id: i32,
    pub value: Type,
    pub value_required: bool,
}

/// The schema of a table, reduced to its identity and identifier fields.
#[derive(Debug)]
pub struct Schema {
    pub schema_id: i32,
    pub identifier_field_ids: Vec<i32>,
}

/// The metadata fixed when a table is made.
#[derive(Debug)]
pub struct TableMetadata {
    pub format_version: i32,
    pub table_uuid: String,
}

/// The identity handed to the `n`-th table made by one source.
pub open spec fn uuid_text(n: nat) -> Seq<char> {
    "uuid"@ + decimal(n)
}

/// A source of table identities: a counter that only goes up.
pub struct TableMetadataAtomicIncr {
    table_uuid_counter: u64,
}

impl TableMetadataAtomicIncr {
    /// How many identities this source has handed out.
    pub closed spec fn issued(&self) -> nat {
        self.table_uuid_counter as nat
    }

    /// A source that has handed out nothing.
    pub fn new() -> (r: Self)
        ensures
            r.issued() == 0,
    {
        TableMetadataAtomicIncr { table_uuid_counter: 0 }
    }

    /// How many identities this source has handed out.
    pub fn issued_count(&self) -> (r: u64)
        ensures
            r as nat == self.issued(),
    {
        self.table_uuid_counter
    }

    /// Metadata with the given format version and the next identity.
    pub fn generate_table_metadata(&mut self, format_version: i32) -> (r: TableMetadata)
        requires
            old(self).issued() < u64::MAX,
        ensures
            final(self).issued() == old(self).issued() + 1,
            r.format_version == format_version,
            r.table_uuid@ == uuid_text(old(self).issued()),
    {
        let uuid = self.table_uuid_counter;
        self.table_uuid_counter = uuid + 1;
        let digits = decimal_string(uuid);
        let table_uuid = String::from_str("uuid").concat(digits.as_str());
        TableMetadata { format_version, table_uuid }
    }
}

} // verus!
