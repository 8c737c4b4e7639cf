use vstd::prelude::*;

use crate::clock::now_rfc3339;
use crate::models::product::ProductModel;
use crate::models::sale::{CreateSaleRequest, SaleError, SaleItemModel, SaleItemRow, SaleSummary};
use crate::services::product_service::{
    find_product, find_product_index, lemma_product_ids_unique,
};
use crate::store::{has_sale, Store};

verus! {

/// Stock of `p` still unclaimed after the first `k` line items of the
/// proposed sale.
pub open spec fn remaining_stock(p: ProductModel, items: Seq<SaleItemModel>, k: int) -> int {
    p.stock - quantity_before(items, p.id, k)
}

/// The first rule violation among the line items at or after position `k`,
/// checked in order: a missing product, or a line asking for more than the
/// product's stock at transaction start minus what the earlier lines
/// already claimed. The whole pass reads only `products`, the state at
/// transaction start, so a committed sale can never claim more of a
/// product than it had, however many lines name it.
pub open spec fn sale_violation_from(
    products: Seq<ProductModel>,
    items: Seq<SaleItemModel>,
    k: int,
) -> Option<SaleError>
    decreases items.len() - k,
{
    if k < 0 || k >= items.len() {
        None
    } else {
        match find_product(products, items[k].product_id) {
            None => Some(SaleError::ProductNotFound { product_id: items[k].product_id }),
            Some(p) => if remaining_stock(p, items, k) < items[k].quantity {
                Some(
                    SaleError::InsufficientStock {
                        product_id: items[k].product_id,
                        available: remaining_stock(p, items, k) as i64,
                        requested: items[k].quantity,
                    },
                )
            } else {
                sale_violation_from(products, items, k + 1)
            },
        }
    }
}

/// The first rule violation of a proposed sale, or `None` when the whole
/// sale passes validation.
pub open spec fn sale_violation(products: Seq<ProductModel>, items: Seq<SaleItemModel>) -> Option<
    SaleError,
> {
    sale_violation_from(products, items, 0)
}

/// Units of `product_id` requested by the first `k` line items together.
pub open spec fn quantity_before(items: Seq<SaleItemModel>, product_id: i64, k: int) -> int
    decreases k,
{
    if k <= 0 {
        0
    } else {
        quantity_before(items, product_id, k - 1) + if items[k - 1].product_id == product_id {
            items[k - 1].quantity as int
        } else {
            0
        }
    }
}

/// Units of `product_id` requested by the whole proposed sale.
pub open spec fn quantity_of(items: Seq<SaleItemModel>, product_id: i64) -> int {
    quantity_before(items, product_id, items.len() as int)
}

/// One line of a proposed sale passes: the product exists, and its stock
/// at transaction start, less what the earlier lines already claimed,
/// covers this line's quantity.
pub open spec fn line_passes(
    products: Seq<ProductModel>,
    items: Seq<SaleItemModel>,
    m: int,
) -> bool {
    match find_product(products, items[m].product_id) {
        Some(p) => remaining_stock(p, items, m) >= items[m].quantity,
        None => false,
    }
}

proof fn lemma_violation_from_none_iff(
    products: Seq<ProductModel>,
    items: Seq<SaleItemModel>,
    k: int,
)
    requires
        0 <= k <= items.len(),
    ensures
        (sale_violation_from(products, items, k) is None) <==> (forall|m: int|
            #![trigger items[m]]
            k <= m < items.len() ==> line_passes(products, items, m)),
    decreases items.len() - k,
{
    if k < items.len() {
        lemma_violation_from_none_iff(products, items, k + 1);
    }
}

/// A proposed sale passes validation exactly when every line passes
/// against the transaction-start stock less the earlier lines' claims; the
/// first failing line, in order, decides the reported error.
pub proof fn lemma_sale_passes_iff_every_line_passes(
    products: Seq<ProductModel>,
    items: Seq<SaleItemModel>,
)
    ensures
        (sale_violation(products, items) is None) <==> (forall|m: int|
            #![trigger items[m]]
            0 <= m < items.len() ==> line_passes(products, items, m)),
{
    lemma_violation_from_none_iff(products, items, 0);
}

/// With no negative quantities, the running totals only grow.
pub proof fn lemma_quantity_before_mono(
    items: Seq<SaleItemModel>,
    product_id: i64,
    k1: int,
    k2: int,
)
    requires
        0 <= k1 <= k2 <= items.len(),
        forall|i: int| 0 <= i < items.len() ==> (#[trigger] items[i]).quantity >= 0,
    ensures
        quantity_before(items, product_id, k1) <= quantity_before(items, product_id, k2),
    decreases k2 - k1,
{
    if k1 < k2 {
        lemma_quantity_before_mono(items, product_id, k1, k2 - 1);
    }
}

/// With no negative quantities, every running total is nonnegative and at
/// most the total of the whole sale.
pub proof fn lemma_quantity_before_bounds(items: Seq<SaleItemModel>, product_id: i64, k: int)
    requires
        0 <= k <= items.len(),
        forall|i: int| 0 <= i < items.len() ==> (#[trigger] items[i]).quantity >= 0,
    ensures
        0 <= quantity_before(items, product_id, k),
        quantity_before(items, product_id, k) <= quantity_of(items, product_id),
{
    lemma_quantity_before_mono(items, product_id, 0, k);
    lemma_quantity_before_mono(items, product_id, k, items.len() as int);
}

impl Store {
    /// The sale transaction engine. Validate every line item in a single
    /// pass against the stock at transaction start, each line judged
    /// against what the earlier lines have not already claimed, and, if
    /// and only if all of them pass, commit the sale header (stamped
    /// `occurred_at`), one line item row per requested line, and one stock
    /// decrement per line, as one unit. A rejected sale reports the first
    /// violation and leaves the store exactly as it was; a committed sale
    /// never claims more of a product than it had, so nonnegative stock
    /// stays nonnegative.
    #[verifier::loop_isolation(false)]
    pub fn create_sale_at(
        &mut self,
        items: Vec<SaleItemModel>,
        subtotal: i64,
        tax: i64,
        total: i64,
        occurred_at: String,
    ) -> (result: Result<i64, SaleError>)
        requires
            old(self).wf(),
            old(self).next_sale_id < i64::MAX,
            old(self).next_sale_item_id + items@.len() <= i64::MAX,
            forall|i: int| 0 <= i < items@.len() ==> (#[trigger] items@[i]).quantity >= 1,
        ensures
            final(self).wf(),
            match result {
                Err(e) => {
                    &&& sale_violation(old(self).products@, items@) == Some(e)
                    &&& *final(self) == *old(self)
                },
                Ok(sale_id) => {
                    &&& sale_violation(old(self).products@, items@) is None
                    &&& sale_id == old(self).next_sale_id
                    &&& final(self).sales@ == old(self).sales@.push(
                        (SaleSummary { id: sale_id, occurred_at, subtotal, tax, total }),
                    )
                    &&& final(self).sale_items@.len() == old(self).sale_items@.len()
                        + items@.len()
                    &&& forall|m: int|
                        0 <= m < old(self).sale_items@.len()
                            ==> final(self).sale_items@[m] == old(self).sale_items@[m]
                    &&& forall|n: int|
                        #![trigger final(self).sale_items@[n]]
                        old(self).sale_items@.len() <= n < final(self).sale_items@.len() ==> {
                            &&& final(self).sale_items@[n].id == old(self).next_sale_item_id + (n
                                - old(self).sale_items@.len())
                            &&& final(self).sale_items@[n].sale_id == sale_id
                            &&& final(self).sale_items@[n].product_id == items@[n - old(self).sale_items@.len()].product_id
                            &&& final(self).sale_items@[n].quantity == items@[n - old(self).sale_items@.len()].quantity
                            &&& final(self).sale_items@[n].unit_price == items@[n - old(self).sale_items@.len()].unit_price
                        }
                    &&& final(self).products@.len() == old(self).products@.len()
                    &&& forall|j: int|
                        #![trigger final(self).products@[j]]
                        0 <= j < old(self).products@.len() ==> {
                            &&& final(self).products@[j].id == old(self).products@[j].id
                            &&& final(self).products@[j].name == old(self).products@[j].name
                            &&& final(self).products@[j].price == old(self).products@[j].price
                            &&& final(self).products@[j].category == old(self).products@[j].category
                            &&& final(self).products@[j].created_at == old(self).products@[j].created_at
                            &&& final(self).products@[j].stock == old(self).products@[j].stock
                                - quantity_of(items@, old(self).products@[j].id)
                            &&& quantity_of(items@, old(self).products@[j].id) > 0
                                ==> quantity_of(items@, old(self).products@[j].id) <= old(self).products@[j].stock
                            &&& old(self).products@[j].stock >= 0 ==> final(self).products@[j].stock >= 0
                        }
                    &&& final(self).reports@ == old(self).reports@
                    &&& final(self).next_sale_id == old(self).next_sale_id + 1
                    &&& final(self).next_sale_item_id == old(self).next_sale_item_id
                        + items@.len()
                    &&& final(self).next_product_id == old(self).next_product_id
                    &&& final(self).next_report_id == old(self).next_report_id
                },
            },
    {
        // Validation phase: judge every line against the stock at
        // transaction start less what the earlier lines already claimed;
        // nothing is written yet.
        let mut idxs: Vec<usize> = Vec::new();
        let mut remaining: Vec<i64> = Vec::new();
        let mut j: usize = 0;
        while j < self.products.len()
            invariant
                j <= self.products@.len(),
                remaining@.len() == j,
                forall|t: int|
                    0 <= t < j ==> #[trigger] remaining@[t] == self.products@[t].stock,
            decreases self.products@.len() - j,
        {
            remaining.push(self.products[j].stock);
            j += 1;
        }
        let mut k: usize = 0;
        while k < items.len()
            invariant
                k <= items@.len(),
                idxs@.len() == k,
                forall|m: int|
                    #![trigger idxs@[m]]
                    0 <= m < k ==> idxs@[m] < self.products@.len()
                        && self.products@[idxs@[m] as int].id == items@[m].product_id,
                remaining@.len() == self.products@.len(),
                forall|t: int|
                    0 <= t < self.products@.len() ==> #[trigger] remaining@[t]
                        == remaining_stock(self.products@[t], items@, k as int),
                forall|t: int|
                    0 <= t < self.products@.len() ==> (quantity_before(
                        items@,
                        (#[trigger] self.products@[t]).id,
                        k as int,
                    ) > 0 ==> remaining@[t] >= 0),
                sale_violation_from(self.products@, items@, 0) == sale_violation_from(
                    self.products@,
                    items@,
                    k as int,
                ),
            decreases items@.len() - k,
        {
            let item = items[k];
            match find_product_index(&self.products, item.product_id) {
                None => {
                    return Err(SaleError::ProductNotFound { product_id: item.product_id });
                },
                Some(idx) => {
                    let available = remaining[idx];
                    if available < item.quantity {
                        return Err(
                            SaleError::InsufficientStock {
                                product_id: item.product_id,
                                available,
                                requested: item.quantity,
                            },
                        );
                    }
                    proof {
                        lemma_product_ids_unique(self.products@);
                    }
                    remaining[idx] = available - item.quantity;
                    idxs.push(idx);
                },
            }
            k += 1;
        }
        assert(sale_violation(self.products@, items@) is None);
        proof {
            assert(self.products@ == old(self).products@);
            assert forall|t: int|
                0 <= t < old(self).products@.len() implies {
                &&& quantity_of(items@, (#[trigger] old(self).products@[t]).id) >= 0
                &&& quantity_of(items@, old(self).products@[t].id) > 0 ==> quantity_of(
                    items@,
                    old(self).products@[t].id,
                ) <= old(self).products@[t].stock
            } by {
                lemma_quantity_before_bounds(items@, old(self).products@[t].id, 0);
                assert(remaining@[t] == remaining_stock(self.products@[t], items@, k as int));
                assert(quantity_before(items@, self.products@[t].id, k as int) > 0
                    ==> remaining@[t] >= 0);
            }
        }

        // Commit phase: header, line items and stock decrements as one
        // unit; validation has passed, so nothing below can fail.
        let sale_id = self.next_sale_id;
        let ghost header = (SaleSummary { id: sale_id, occurred_at, subtotal, tax, total });
        self.sales.push(SaleSummary { id: sale_id, occurred_at, subtotal, tax, total });
        self.next_sale_id = sale_id + 1;
        let mut k: usize = 0;
        while k < items.len()
            invariant
                k <= items@.len(),
                self.sales@ == old(self).sales@.push(header),
                self.reports@ == old(self).reports@,
                self.next_sale_id == old(self).next_sale_id + 1,
                self.next_product_id == old(self).next_product_id,
                self.next_report_id == old(self).next_report_id,
                self.next_sale_item_id == old(self).next_sale_item_id + k,
                self.sale_items@.len() == old(self).sale_items@.len() + k,
                forall|m: int|
                    0 <= m < old(self).sale_items@.len() ==> self.sale_items@[m] == old(self).sale_items@[m],
                forall|n: int|
                    #![trigger self.sale_items@[n]]
                    old(self).sale_items@.len() <= n < self.sale_items@.len() ==> {
                        &&& self.sale_items@[n].id == old(self).next_sale_item_id + (n - old(self).sale_items@.len())
                        &&& self.sale_items@[n].sale_id == sale_id
                        &&& self.sale_items@[n].product_id == items@[n - old(self).sale_items@.len()].product_id
                        &&& self.sale_items@[n].quantity == items@[n - old(self).sale_items@.len()].quantity
                        &&& self.sale_items@[n].unit_price == items@[n - old(self).sale_items@.len()].unit_price
                    },
                self.products@.len() == old(self).products@.len(),
                forall|j: int|
                    #![trigger self.products@[j]]
                    0 <= j < old(self).products@.len() ==> {
                        &&& self.products@[j].id == old(self).products@[j].id
                        &&& self.products@[j].name == old(self).products@[j].name
                        &&& self.products@[j].price == old(self).products@[j].price
                        &&& self.products@[j].category == old(self).products@[j].category
                        &&& self.products@[j].created_at == old(self).products@[j].created_at
                        &&& self.products@[j].stock == old(self).products@[j].stock
                            - quantity_before(items@, old(self).products@[j].id, k as int)
                    },
            decreases items@.len() - k,
        {
            let item = items[k];
            let row_id = self.next_sale_item_id;
            self.sale_items.push(
                SaleItemRow {
                    id: row_id,
                    sale_id,
                    product_id: item.product_id,
                    quantity: item.quantity,
                    unit_price: item.unit_price,
                },
            );
            self.next_sale_item_id = row_id + 1;
            let idx = idxs[k];
            proof {
                lemma_product_ids_unique(old(self).products@);
                lemma_quantity_before_bounds(items@, item.product_id, k as int);
                lemma_quantity_before_mono(
                    items@,
                    item.product_id,
                    k + 1 as int,
                    items@.len() as int,
                );
                assert(quantity_before(items@, item.product_id, k + 1) == quantity_before(
                    items@,
                    item.product_id,
                    k as int,
                ) + item.quantity);
                assert(old(self).products@[idx as int].id == item.product_id);
                assert(quantity_of(items@, item.product_id) > 0);
                assert(quantity_of(items@, item.product_id) <= old(self).products@[idx as int].stock);
            }
            let new_stock = self.products[idx].stock - item.quantity;
            self.products[idx].stock = new_stock;
            k += 1;
        }
        proof {
            assert forall|i: int|
                0 <= i < self.sale_items@.len() implies has_sale(
                self.sales@,
                self.sale_items@[i].sale_id,
            ) by {
                if i < old(self).sale_items@.len() {
                    assert(self.sale_items@[i] == old(self).sale_items@[i]);
                    assert(has_sale(old(self).sales@, old(self).sale_items@[i].sale_id));
                    let w = choose|wi: int|
                        0 <= wi < old(self).sales@.len() && old(self).sales@[wi].id == old(self).sale_items@[i].sale_id;
                    assert(self.sales@[w] == old(self).sales@[w]);
                    assert(self.sales@[w].id == self.sale_items@[i].sale_id);
                } else {
                    assert(self.sale_items@[i].sale_id == sale_id);
                    assert(self.sales@[old(self).sales@.len() as int] == header);
                    assert(self.sales@[old(self).sales@.len() as int].id == sale_id);
                }
            }
        }
        Ok(sale_id)
    }

    /// Validate and, when every line passes, commit a proposed sale,
    /// stamping the header with the current time. Returns the new sale id,
    /// or the first violation with the store untouched.
    pub fn sale_service_create(&mut self, req: CreateSaleRequest) -> (result: Result<
        i64,
        SaleError,
    >)
        requires
            old(self).wf(),
            old(self).next_sale_id < i64::MAX,
            old(self).next_sale_item_id + req.items@.len() <= i64::MAX,
            forall|i: int| 0 <= i < req.items@.len() ==> (#[trigger] req.items@[i]).quantity >= 1,
        ensures
            final(self).wf(),
            match result {
                Err(e) => {
                    &&& sale_violation(old(self).products@, req.items@) == Some(e)
                    &&& *final(self) == *old(self)
                },
                Ok(sale_id) => {
                    &&& sale_violation(old(self).products@, req.items@) is None
                    &&& sale_id == old(self).next_sale_id
                    &&& final(self).sales@.len() == old(self).sales@.len() + 1
                    &&& forall|m: int|
                        0 <= m < old(self).sales@.len() ==> final(self).sales@[m] == old(self).sales@[m]
                    &&& final(self).sales@.last().id == sale_id
                    &&& final(self).sales@.last().subtotal == req.subtotal
                    &&& final(self).sales@.last().tax == req.tax
                    &&& final(self).sales@.last().total == req.total
                    &&& final(self).sales@.last().occurred_at@.len() > 0
                    &&& final(self).sale_items@.len() == old(self).sale_items@.len()
                        + req.items@.len()
                    &&& forall|m: int|
                        0 <= m < old(self).sale_items@.len()
                            ==> final(self).sale_items@[m] == old(self).sale_items@[m]
                    &&& forall|n: int|
                        #![trigger final(self).sale_items@[n]]
                        old(self).sale_items@.len() <= n < final(self).sale_items@.len() ==> {
                            &&& final(self).sale_items@[n].id == old(self).next_sale_item_id + (n
                                - old(self).sale_items@.len())
                            &&& final(self).sale_items@[n].sale_id == sale_id
                            &&& final(self).sale_items@[n].product_id == req.items@[n - old(self).sale_items@.len()].product_id
                            &&& final(self).sale_items@[n].quantity == req.items@[n - old(self).sale_items@.len()].quantity
                            &&& final(self).sale_items@[n].unit_price == req.items@[n - old(self).sale_items@.len()].unit_price
                        }
                    &&& final(self).products@.len() == old(self).products@.len()
                    &&& forall|j: int|
                        #![trigger final(self).products@[j]]
                        0 <= j < old(self).products@.len() ==> {
                            &&& final(self).products@[j].id == old(self).products@[j].id
                            &&& final(self).products@[j].name == old(self).products@[j].name
                            &&& final(self).products@[j].price == old(self).products@[j].price
                            &&& final(self).products@[j].category == old(self).products@[j].category
                            &&& final(self).products@[j].created_at == old(self).products@[j].created_at
                            &&& final(self).products@[j].stock == old(self).products@[j].stock
                                - quantity_of(req.items@, old(self).products@[j].id)
                            &&& quantity_of(req.items@, old(self).products@[j].id) > 0
                                ==> quantity_of(req.items@, old(self).products@[j].id) <= old(self).products@[j].stock
                            &&& old(self).products@[j].stock >= 0 ==> final(self).products@[j].stock >= 0
                        }
                    &&& final(self).reports@ == old(self).reports@
                    &&& final(self).next_sale_id == old(self).next_sale_id + 1
                    &&& final(self).next_sale_item_id == old(self).next_sale_item_id
                        + req.items@.len()
                    &&& final(self).next_product_id == old(self).next_product_id
                    &&& final(self).next_report_id == old(self).next_report_id
                },
            },
    {
        let occurred_at = now_rfc3339();
        self.create_sale_at(req.items, req.subtotal, req.tax, req.total, occurred_at)
    }

    /// Every committed sale header, newest first (descending id).
    pub fn sale_service_get_all(&self) -> (r: Vec<SaleSummary>)
        requires
            self.wf(),
        ensures
            r@ == self.sales@.reverse(),
            forall|a: int, b: int|
                0 <= a < b < r@.len() ==> (#[trigger] r@[a]).id > (#[trigger] r@[b]).id,
    {
        let mut out: Vec<SaleSummary> = Vec::new();
        let mut i: usize = self.sales.len();
        while i > 0
            invariant
                i <= self.sales@.len(),
                out@.len() == self.sales@.len() - i,
                forall|k: int|
                    0 <= k < out@.len() ==> out@[k] == self.sales@[self.sales@.len() - 1 - k],
            decreases i,
        {
            i -= 1;
            out.push(self.sales[i].clone());
        }
        proof {
            assert(out@ =~= self.sales@.reverse());
        }
        out
    }
}

} // verus!
