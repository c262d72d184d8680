use vstd::prelude::*;
use vstd::string::*;

verus! {

/// A raw JSON value as decoded from a response body; carried through untouched.
#[verifier::external_type_specification]
#[verifier::external_body]
pub struct ExJsonValue(serde_json::Value);

/// Why fetching the records of one parent failed.
#[derive(Debug, Clone, Copy, PartialEq, Eq, Structural)]
pub enum FetchError {
    /// The API could not be reached, or did not answer in time.
    Transport,
    /// The response body did not have the expected shape.
    Decode,
}

/// One block, decoded into the attributes the engine reads, with the rest of
/// the block kept as an opaque payload.
#[derive(Debug)]
pub struct Record {
    /// The block's identifier.
    pub id: String,
    /// Whether the API reports that the block may have children.
    pub has_children: bool,
    /// The block's type tag.
    pub kind: String,
    /// Whether the payload holds a type-specific `table` object.
    pub has_table: bool,
    /// The block as the API returned it.
    pub payload: serde_json::Value,
    /// The fully expanded children, once they have been fetched.
    pub children: Option<Vec<Record>>,
    /// Whether the children are also the rows of the block's `table` object.
    pub rows_mirrored: bool,
}

/// The type tag of table blocks.
pub open spec fn table_tag() -> Seq<char> {
    "table"@
}

impl Record {
    /// A freshly decoded record: no children attached yet.
    pub open spec fn is_fresh(&self) -> bool {
        self.children.is_none() && !self.rows_mirrored
    }

    /// Whether the engine fetches this record's children.
    pub open spec fn needs_expansion_spec(&self) -> bool {
        self.has_children && self.id@.len() > 0
    }

    /// Whether this record is a table block with a table object to fill.
    pub open spec fn is_table_spec(&self) -> bool {
        self.kind@ == table_tag() && self.has_table
    }

    /// The rows of the block's `table` object, where the engine set them.
    pub open spec fn rows_spec(&self) -> Option<Vec<Record>> {
        if self.rows_mirrored {
            self.children
        } else {
            None
        }
    }

    /// Builds a freshly decoded record.
    pub fn new(
        id: String,
        has_children: bool,
        kind: String,
        has_table: bool,
        payload: serde_json::Value,
    ) -> (r: Record)
        ensures
            r.id == id,
            r.has_children == has_children,
            r.kind == kind,
            r.has_table == has_table,
            r.payload == payload,
            r.is_fresh(),
    {
        Record { id, has_children, kind, has_table, payload, children: None, rows_mirrored: false }
    }

    /// Whether the engine fetches this record's children: it says it has some
    /// and its identifier is not empty.
    pub fn needs_expansion(&self) -> (b: bool)
        ensures
            b == self.needs_expansion_spec(),
    {
        self.has_children && self.id.as_str().unicode_len() > 0
    }

    /// Whether this record is a table block whose payload holds a table object.
    pub fn is_table(&self) -> (b: bool)
        ensures
            b == self.is_table_spec(),
    {
        let tag = String::from_str("table");
        self.has_table && self.kind == tag
    }

    /// The rows of the block's `table` object, where the engine set them.
    pub fn rows(&self) -> (r: Option<&Vec<Record>>)
        ensures
            r.is_some() == self.rows_spec().is_some(),
            r.is_some() ==> self.rows_spec() == Some(*r.unwrap()),
    {
        if self.rows_mirrored {
            self.children.as_ref()
        } else {
            None
        }
    }
}

} // verus!
