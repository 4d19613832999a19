//! The search request records that API callers send: a page window, an
//! ordering, and a list of field conditions. Translating them to SQL is
//! the database layer's work and stays outside this crate.
use vstd::prelude::*;

verus! {

/// One field condition of a search request.
#[derive(Debug, Clone)]
pub struct SearchField {
    /// The field the condition speaks of.
    pub field: Option<String>,
    /// The comparison to apply.
    pub operator: Option<String>,
    /// How the field is rendered.
    pub render: Option<String>,
    /// The field's declared type.
    pub field_type: Option<String>,
    /// The value compared against.
    pub val: Option<String>,
}

impl Default for SearchField {
    /// Every part absent.
    fn default() -> (r: Self)
        ensures
            r.field is None,
            r.operator is None,
            r.render is None,
            r.field_type is None,
            r.val is None,
    {
        SearchField { field: None, operator: None, render: None, field_type: None, val: None }
    }
}

/// A search request: a page window, an ordering, and conditions.
#[derive(Debug, Clone)]
pub struct CommonSearch {
    /// How many rows a page holds.
    pub limit: Option<u64>,
    /// Which page is asked for.
    pub page: Option<u64>,
    /// The ordering clause.
    pub order: Option<String>,
    /// The field conditions, all conjoined.
    pub search: Vec<SearchField>,
}

impl Default for CommonSearch {
    /// No window, no ordering, no conditions.
    fn default() -> (r: Self)
        ensures
            r.limit is None,
            r.page is None,
            r.order is None,
            r.search@.len() == 0,
    {
        CommonSearch { limit: None, page: None, order: None, search: Vec::new() }
    }
}

} // verus!
