use vstd::prelude::*;

use crate::models::product::ProductModel;
use crate::models::sale::SaleSummary;
use crate::services::product_service::find_product;
use crate::store::Store;

verus! {

/// Reads are idempotent. `Store::sale_service_get_all` ensures its rows
/// equal `sales@.reverse()`, and `Store::product_service_get_one` ensures
/// its result equals `find_product`; both take `&self`, so neither can
/// change the store. Hence two calls of either, with no write in between,
/// return the same value.
pub proof fn lemma_reads_idempotent(
    s: Store,
    r1: Seq<SaleSummary>,
    r2: Seq<SaleSummary>,
    id: i64,
    g1: Option<ProductModel>,
    g2: Option<ProductModel>,
)
    requires
        r1 == s.sales@.reverse(),
        r2 == s.sales@.reverse(),
        g1 == find_product(s.products@, id),
        g2 == find_product(s.products@, id),
    ensures
        r1 == r2,
        g1 == g2,
{
}

} // verus!
