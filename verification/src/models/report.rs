use vstd::prelude::*;

verus! {

/// An independent report record; unrelated to products and sales.
pub struct ReportModel {
    pub id: i64,
    pub name: String,
    pub category: Option<String>,
    pub created_at: String,
    pub description: Option<String>,
}

impl Clone for ReportModel {
    fn clone(&self) -> (r: Self)
        ensures
            r == *self,
    {
        ReportModel {
            id: self.id,
            name: self.name.clone(),
            category: match &self.category {
                Some(c) => Some(c.clone()),
                None => None,
            },
            created_at: self.created_at.clone(),
            description: match &self.description {
                Some(d) => Some(d.clone()),
                None => None,
            },
        }
    }
}

/// Fields for a new report record; the store assigns the id and the
/// creation timestamp.
pub struct CreateReportRequest {
    pub name: String,
    pub category: Option<String>,
    pub description: Option<String>,
}

/// A full overwrite of the mutable fields of the record named by `id`.
pub struct UpdateReportRequest {
    pub id: i64,
    pub name: String,
    pub category: Option<String>,
    pub description: Option<String>,
}

} // verus!
