use vstd::prelude::*;

use crate::clock::now_rfc3339;
use crate::models::product::{CreateProductRequest, ProductModel, UpdateProductRequest};
use crate::store::Store;

verus! {

/// The first catalog row at or after position `k` whose id is
/// `product_id`, if any.
pub open spec fn find_product_from(
    products: Seq<ProductModel>,
    product_id: i64,
    k: int,
) -> Option<ProductModel>
    decreases products.len() - k,
{
    if k < 0 || k >= products.len() {
        None
    } else if products[k].id == product_id {
        Some(products[k])
    } else {
        find_product_from(products, product_id, k + 1)
    }
}

/// The catalog row with id `product_id`, if any. Under `Store::wf` ids are
/// unique, so this is the row.
pub open spec fn find_product(products: Seq<ProductModel>, product_id: i64) -> Option<
    ProductModel,
> {
    find_product_from(products, product_id, 0)
}

/// A row is found from position `k` exactly when some position at or after
/// `k` carries the id, and then the first such position is returned.
pub proof fn lemma_find_product_from_characterizes(
    products: Seq<ProductModel>,
    product_id: i64,
    k: int,
)
    requires
        0 <= k <= products.len(),
    ensures
        (find_product_from(products, product_id, k) is Some) <==> (exists|i: int|
            k <= i < products.len() && products[i].id == product_id),
        (find_product_from(products, product_id, k) is Some) ==> (exists|i: int|
            k <= i < products.len() && products[i].id == product_id && find_product_from(
                products,
                product_id,
                k,
            ) == Some(products[i])),
    decreases products.len() - k,
{
    if k < products.len() && products[k].id != product_id {
        lemma_find_product_from_characterizes(products, product_id, k + 1);
    }
}

/// Strictly increasing ids leave no room for two rows with the same id.
pub proof fn lemma_product_ids_unique(products: Seq<ProductModel>)
    requires
        forall|i: int, j: int|
            0 <= i < j < products.len() ==> (#[trigger] products[i]).id < (
            #[trigger] products[j]).id,
    ensures
        forall|i: int, j: int|
            0 <= i < products.len() && 0 <= j < products.len() && i != j ==> (
            #[trigger] products[i]).id != (#[trigger] products[j]).id,
{
}

/// The position of the first catalog row carrying `product_id`, if any.
pub fn find_product_index(products: &Vec<ProductModel>, product_id: i64) -> (r: Option<usize>)
    ensures
        match r {
            Some(i) => i < products@.len() && products@[i as int].id == product_id && find_product(
                products@,
                product_id,
            ) == Some(products@[i as int]),
            None => find_product(products@, product_id) is None,
        },
{
    let mut i: usize = 0;
    while i < products.len()
        invariant
            i <= products@.len(),
            find_product_from(products@, product_id, 0) == find_product_from(
                products@,
                product_id,
                i as int,
            ),
        decreases products@.len() - i,
    {
        if products[i].id == product_id {
            return Some(i);
        }
        i += 1;
    }
    None
}

impl Store {
    /// Every catalog row, newest first (descending id).
    pub fn product_service_get_all(&self) -> (r: Vec<ProductModel>)
        requires
            self.wf(),
        ensures
            r@ == self.products@.reverse(),
            forall|a: int, b: int|
                0 <= a < b < r@.len() ==> (#[trigger] r@[a]).id > (#[trigger] r@[b]).id,
    {
        let mut out: Vec<ProductModel> = Vec::new();
        let mut i: usize = self.products.len();
        while i > 0
            invariant
                i <= self.products@.len(),
                out@.len() == self.products@.len() - i,
                forall|k: int|
                    0 <= k < out@.len() ==> out@[k] == self.products@[self.products@.len() - 1 - k],
            decreases i,
        {
            i -= 1;
            out.push(self.products[i].clone());
        }
        proof {
            assert(out@ =~= self.products@.reverse());
        }
        out
    }

    /// The catalog row named by `id`; an absent id is a valid `None`
    /// result, not a failure.
    pub fn product_service_get_one(&self, id: i64) -> (r: Option<ProductModel>)
        ensures
            r == find_product(self.products@, id),
    {
        match find_product_index(&self.products, id) {
            Some(i) => Some(self.products[i].clone()),
            None => None,
        }
    }

    /// Append a catalog row with the given creation timestamp; the row gets
    /// the next product id.
    pub fn create_product_at(&mut self, req: CreateProductRequest, created_at: String) -> (id:
        i64)
        requires
            old(self).wf(),
            old(self).next_product_id < i64::MAX,
        ensures
            final(self).wf(),
            id == old(self).next_product_id,
            final(self).products@ == old(self).products@.push(
                (ProductModel {
                    id: old(self).next_product_id,
                    name: req.name,
                    price: req.price,
                    stock: req.stock,
                    category: req.category,
                    created_at: created_at,
                }),
            ),
            final(self).next_product_id == old(self).next_product_id + 1,
            final(self).sales@ == old(self).sales@,
            final(self).sale_items@ == old(self).sale_items@,
            final(self).reports@ == old(self).reports@,
            final(self).next_sale_id == old(self).next_sale_id,
            final(self).next_sale_item_id == old(self).next_sale_item_id,
            final(self).next_report_id == old(self).next_report_id,
    {
        let id = self.next_product_id;
        let row = ProductModel {
            id,
            name: req.name,
            price: req.price,
            stock: req.stock,
            category: req.category,
            created_at,
        };
        self.products.push(row);
        self.next_product_id = id + 1;
        id
    }

    /// Append a catalog row stamped with the current time.
    pub fn product_service_create(&mut self, req: CreateProductRequest) -> (id: i64)
        requires
            old(self).wf(),
            old(self).next_product_id < i64::MAX,
        ensures
            final(self).wf(),
            id == old(self).next_product_id,
            final(self).products@.len() == old(self).products@.len() + 1,
            forall|k: int|
                0 <= k < old(self).products@.len() ==> final(self).products@[k]
                    == old(self).products@[k],
            final(self).products@.last().id == id,
            final(self).products@.last().name == req.name,
            final(self).products@.last().price == req.price,
            final(self).products@.last().stock == req.stock,
            final(self).products@.last().category == req.category,
            final(self).products@.last().created_at@.len() > 0,
            final(self).next_product_id == old(self).next_product_id + 1,
            final(self).sales@ == old(self).sales@,
            final(self).sale_items@ == old(self).sale_items@,
            final(self).reports@ == old(self).reports@,
            final(self).next_sale_id == old(self).next_sale_id,
            final(self).next_sale_item_id == old(self).next_sale_item_id,
            final(self).next_report_id == old(self).next_report_id,
    {
        let created_at = now_rfc3339();
        self.create_product_at(req, created_at)
    }

    /// Overwrite name, price, stock and category of the row named by
    /// `req.id`, keeping its id and creation timestamp; a no-op if the id
    /// is absent.
    pub fn product_service_update(&mut self, req: UpdateProductRequest)
        requires
            old(self).wf(),
        ensures
            final(self).wf(),
            find_product(old(self).products@, req.id) is None ==> *final(self) == *old(self),
            final(self).products@.len() == old(self).products@.len(),
            forall|j: int|
                0 <= j < old(self).products@.len() ==> final(self).products@[j] == (if (
                #[trigger] old(self).products@[j]).id == req.id {
                    (ProductModel {
                        id: old(self).products@[j].id,
                        name: req.name,
                        price: req.price,
                        stock: req.stock,
                        category: req.category,
                        created_at: old(self).products@[j].created_at,
                    })
                } else {
                    old(self).products@[j]
                }),
            final(self).sales@ == old(self).sales@,
            final(self).sale_items@ == old(self).sale_items@,
            final(self).reports@ == old(self).reports@,
            final(self).next_product_id == old(self).next_product_id,
            final(self).next_sale_id == old(self).next_sale_id,
            final(self).next_sale_item_id == old(self).next_sale_item_id,
            final(self).next_report_id == old(self).next_report_id,
    {
        proof {
            lemma_product_ids_unique(self.products@);
            lemma_find_product_from_characterizes(self.products@, req.id, 0);
        }
        match find_product_index(&self.products, req.id) {
            Some(idx) => {
                let id = self.products[idx].id;
                let created_at = self.products[idx].created_at.clone();
                self.products[idx] = ProductModel {
                    id,
                    name: req.name,
                    price: req.price,
                    stock: req.stock,
                    category: req.category,
                    created_at,
                };
            },
            None => {
                proof {
                    lemma_find_product_from_characterizes(self.products@, req.id, 0);
                }
            },
        }
    }

    /// Remove the row named by `id`; a no-op if the id is absent. No row
    /// with that id remains either way.
    pub fn product_service_delete(&mut self, id: i64)
        requires
            old(self).wf(),
        ensures
            final(self).wf(),
            find_product(old(self).products@, id) is None ==> *final(self) == *old(self),
            find_product(old(self).products@, id) is Some ==> exists|idx: int|
                0 <= idx < old(self).products@.len()
                    && (#[trigger] old(self).products@[idx]).id == id
                    && final(self).products@ == old(self).products@.remove(idx),
            forall|j: int|
                0 <= j < final(self).products@.len()
                    ==> (#[trigger] final(self).products@[j]).id != id,
            final(self).sales@ == old(self).sales@,
            final(self).sale_items@ == old(self).sale_items@,
            final(self).reports@ == old(self).reports@,
            final(self).next_product_id == old(self).next_product_id,
            final(self).next_sale_id == old(self).next_sale_id,
            final(self).next_sale_item_id == old(self).next_sale_item_id,
            final(self).next_report_id == old(self).next_report_id,
    {
        proof {
            lemma_product_ids_unique(self.products@);
        }
        match find_product_index(&self.products, id) {
            Some(idx) => {
                proof {
                    self.products@.remove_ensures(idx as int);
                }
                self.products.remove(idx);
            },
            None => {
                proof {
                    lemma_find_product_from_characterizes(self.products@, id, 0);
                }
            },
        }
    }
}

} // verus!
