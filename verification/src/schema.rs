//! The fields a client may filter on.

use vstd::hash_map::StringHashMap;
use vstd::prelude::*;
use vstd::string::*;

verus! {

/// The type of a field, as the filter language names it.
#[derive(Debug, Clone, Copy, PartialEq, Eq, Structural)]
pub enum FieldType {
    String,
    Number,
    Date,
    Boolean,
}

impl FieldType {
    /// The name of the type in the filter language.
    pub open spec fn name(self) -> Seq<char> {
        match self {
            FieldType::String => "string"@,
            FieldType::Number => "number"@,
            FieldType::Date => "date"@,
            FieldType::Boolean => "boolean"@,
        }
    }

    /// The name of the type in the filter language, which is also how the type
    /// is shown in messages.
    pub fn to_string(&self) -> (res: String)
        ensures
            res@ == self.name(),
    {
        match self {
            FieldType::String => "string".to_owned(),
            FieldType::Number => "number".to_owned(),
            FieldType::Date => "date".to_owned(),
            FieldType::Boolean => "boolean".to_owned(),
        }
    }
}

/// One field the client is allowed to filter on. Fields absent from the schema
/// are rejected, so a field name from the request never reaches the SQL text.
#[derive(Debug)]
pub struct Column {
    pub column: String,
    pub field_type: FieldType,
    pub relation: Option<String>,
}

/// What a [`Column`] is, with its names as sequences of characters.
pub struct ColumnModel {
    pub column: Seq<char>,
    pub field_type: FieldType,
    pub relation: Option<Seq<char>>,
}

/// The characters of an optional string.
pub open spec fn optional_text(text: Option<String>) -> Option<Seq<char>> {
    match text {
        Some(text) => Some(text@),
        None => None,
    }
}

impl View for Column {
    type V = ColumnModel;

    open spec fn view(&self) -> ColumnModel {
        ColumnModel {
            column: self.column@,
            field_type: self.field_type,
            relation: optional_text(self.relation),
        }
    }
}

impl Clone for Column {
    fn clone(&self) -> (res: Self)
        ensures
            res@ == self@,
    {
        Column {
            column: self.column.clone(),
            field_type: self.field_type,
            relation: copy_name(&self.relation),
        }
    }
}

/// The whitelist of fields, keyed by the name the client uses.
pub struct Schema {
    columns: StringHashMap<Column>,
}

impl View for Schema {
    type V = Map<Seq<char>, ColumnModel>;

    closed spec fn view(&self) -> Map<Seq<char>, ColumnModel> {
        self.columns@.map_values(|column: Column| column@)
    }
}

impl Schema {
    /// A schema without fields.
    pub fn new() -> (res: Schema)
        ensures
            res@ == Map::<Seq<char>, ColumnModel>::empty(),
    {
        let res = Schema { columns: StringHashMap::new() };
        assert(res@ =~= Map::<Seq<char>, ColumnModel>::empty());
        res
    }

    /// Allows the client to filter on `field`. A column that was there under
    /// the same name is replaced.
    pub fn insert(&mut self, field: String, column: Column)
        ensures
            final(self)@ == old(self)@.insert(field@, column@),
    {
        self.columns.insert(field, column);
        assert(self@ =~= old(self)@.insert(field@, column@));
    }

    /// The column behind `field`, if the client may filter on it.
    pub fn get(&self, field: &str) -> (res: Option<&Column>)
        ensures
            match res {
                Some(column) => self@.contains_key(field@) && column@ == self@[field@],
                None => !self@.contains_key(field@),
            },
    {
        self.columns.get(field)
    }
}

/// A copy of an optional name.
pub(crate) fn copy_name(name: &Option<String>) -> (res: Option<String>)
    ensures
        optional_text(res) == optional_text(*name),
{
    match name {
        Some(name) => Some(name.clone()),
        None => None,
    }
}

} // verus!
