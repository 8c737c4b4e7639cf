use vstd::prelude::*;

verus! {

/// A catalog row. Monetary amounts are carried in minor currency units
/// (for example cents), so `price` is an integer.
pub struct ProductModel {
    pub id: i64,
    pub name: String,
    pub price: i64,
    pub stock: i64,
    pub category: Option<String>,
    pub created_at: String,
}

impl Clone for ProductModel {
    fn clone(&self) -> (r: Self)
        ensures
            r == *self,
    {
        ProductModel {
            id: self.id,
            name: self.name.clone(),
            price: self.price,
            stock: self.stock,
            category: match &self.category {
                Some(c) => Some(c.clone()),
                None => None,
            },
            created_at: self.created_at.clone(),
        }
    }
}

/// Fields for a new catalog row; the store assigns the id and the
/// creation timestamp.
pub struct CreateProductRequest {
    pub name: String,
    pub price: i64,
    pub stock: i64,
    pub category: Option<String>,
}

/// A full overwrite of the mutable fields of the row named by `id`.
pub struct UpdateProductRequest {
    pub id: i64,
    pub name: String,
    pub price: i64,
    pub stock: i64,
    pub category: Option<String>,
}

} // verus!
