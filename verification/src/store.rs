use vstd::prelude::*;

use crate::models::product::ProductModel;
use crate::models::report::ReportModel;
use crate::models::sale::{SaleItemRow, SaleSummary};

verus! {

/// Whether some committed sale header carries `sale_id`.
pub open spec fn has_sale(sales: Seq<SaleSummary>, sale_id: i64) -> bool {
    exists|i: int| 0 <= i < sales.len() && sales[i].id == sale_id
}

/// Rows that can be taken back into a store: ids strictly increasing from
/// at least 1 with room for one more, every line item with a positive
/// quantity and an existing sale.
pub open spec fn loadable(
    products: Seq<ProductModel>,
    sales: Seq<SaleSummary>,
    sale_items: Seq<SaleItemRow>,
    reports: Seq<ReportModel>,
) -> bool {
    &&& forall|i: int| 0 <= i < products.len() ==> 1 <= (#[trigger] products[i]).id
    &&& forall|i: int, j: int|
        0 <= i < j < products.len() ==> (#[trigger] products[i]).id < (#[trigger] products[j]).id
    &&& products.len() > 0 ==> products.last().id < i64::MAX
    &&& forall|i: int| 0 <= i < sales.len() ==> 1 <= (#[trigger] sales[i]).id
    &&& forall|i: int, j: int|
        0 <= i < j < sales.len() ==> (#[trigger] sales[i]).id < (#[trigger] sales[j]).id
    &&& sales.len() > 0 ==> sales.last().id < i64::MAX
    &&& forall|i: int| 0 <= i < sale_items.len() ==> 1 <= (#[trigger] sale_items[i]).id
    &&& forall|i: int, j: int|
        0 <= i < j < sale_items.len() ==> (#[trigger] sale_items[i]).id < (
        #[trigger] sale_items[j]).id
    &&& sale_items.len() > 0 ==> sale_items.last().id < i64::MAX
    &&& forall|i: int| 0 <= i < sale_items.len() ==> 1 <= (#[trigger] sale_items[i]).quantity
    &&& forall|i: int|
        0 <= i < sale_items.len() ==> has_sale(sales, (#[trigger] sale_items[i]).sale_id)
    &&& forall|i: int| 0 <= i < reports.len() ==> 1 <= (#[trigger] reports[i]).id
    &&& forall|i: int, j: int|
        0 <= i < j < reports.len() ==> (#[trigger] reports[i]).id < (#[trigger] reports[j]).id
    &&& reports.len() > 0 ==> reports.last().id < i64::MAX
}

/// A stored row carrying its table's primary key; all four tables share
/// one id-checking routine through it.
pub trait KeyedRow {
    /// The row's primary key.
    spec fn key(&self) -> i64;

    /// The row's primary key.
    fn row_id(&self) -> (r: i64)
        ensures
            r == self.key(),
    ;
}

impl KeyedRow for ProductModel {
    open spec fn key(&self) -> i64 {
        self.id
    }

    fn row_id(&self) -> (r: i64) {
        self.id
    }
}

impl KeyedRow for SaleSummary {
    open spec fn key(&self) -> i64 {
        self.id
    }

    fn row_id(&self) -> (r: i64) {
        self.id
    }
}

impl KeyedRow for SaleItemRow {
    open spec fn key(&self) -> i64 {
        self.id
    }

    fn row_id(&self) -> (r: i64) {
        self.id
    }
}

impl KeyedRow for ReportModel {
    open spec fn key(&self) -> i64 {
        self.id
    }

    fn row_id(&self) -> (r: i64) {
        self.id
    }
}

/// Whether the rows carry strictly increasing keys, starting at 1 or
/// above, with room to assign one more.
fn ids_ok<T: KeyedRow>(rows: &Vec<T>) -> (r: bool)
    ensures
        r == {
            &&& forall|i: int| 0 <= i < rows@.len() ==> 1 <= (#[trigger] rows@[i]).key()
            &&& forall|i: int, j: int|
                0 <= i < j < rows@.len() ==> (#[trigger] rows@[i]).key() < (
                #[trigger] rows@[j]).key()
            &&& rows@.len() > 0 ==> rows@.last().key() < i64::MAX
        },
{
    if rows.len() == 0 {
        return true;
    }
    if rows[0].row_id() < 1 || rows[rows.len() - 1].row_id() == i64::MAX {
        return false;
    }
    let mut i: usize = 1;
    while i < rows.len()
        invariant
            1 <= i <= rows@.len(),
            rows@[0].key() >= 1,
            forall|a: int, b: int|
                0 <= a < b < i ==> (#[trigger] rows@[a]).key() < (#[trigger] rows@[b]).key(),
        decreases rows@.len() - i,
    {
        if rows[i - 1].row_id() >= rows[i].row_id() {
            return false;
        }
        proof {
            assert forall|a: int|
                0 <= a < i implies (#[trigger] rows@[a]).key() < rows@[i as int].key() by {
                if a < i - 1 {
                    assert(rows@[a].key() < rows@[i - 1].key());
                }
            }
        }
        i += 1;
    }
    proof {
        assert forall|k: int| 0 <= k < rows@.len() implies 1 <= (#[trigger] rows@[k]).key() by {
            if k > 0 {
                assert(rows@[0].key() < rows@[k].key());
            }
        }
    }
    true
}

/// The whole persisted state: the product catalog, the committed sale
/// headers with their line items, the report records, and the next id each
/// table will assign. Rows are kept in insertion order; ids grow strictly,
/// so insertion order and id order agree.
pub struct Store {
    pub products: Vec<ProductModel>,
    pub sales: Vec<SaleSummary>,
    pub sale_items: Vec<SaleItemRow>,
    pub reports: Vec<ReportModel>,
    pub next_product_id: i64,
    pub next_sale_id: i64,
    pub next_sale_item_id: i64,
    pub next_report_id: i64,
}

impl Store {
    /// Well-formedness: every table holds strictly increasing ids starting
    /// at 1 and below its next id; every line item names an existing sale
    /// and a positive quantity.
    pub open spec fn wf(&self) -> bool {
        &&& 1 <= self.next_product_id
        &&& 1 <= self.next_sale_id
        &&& 1 <= self.next_sale_item_id
        &&& 1 <= self.next_report_id
        &&& forall|i: int|
            0 <= i < self.products@.len() ==> 1 <= (#[trigger] self.products@[i]).id
                < self.next_product_id
        &&& forall|i: int, j: int|
            0 <= i < j < self.products@.len() ==> (#[trigger] self.products@[i]).id
                < (#[trigger] self.products@[j]).id
        &&& forall|i: int|
            0 <= i < self.sales@.len() ==> 1 <= (#[trigger] self.sales@[i]).id < self.next_sale_id
        &&& forall|i: int, j: int|
            0 <= i < j < self.sales@.len() ==> (#[trigger] self.sales@[i]).id
                < (#[trigger] self.sales@[j]).id
        &&& forall|i: int|
            0 <= i < self.sale_items@.len() ==> 1 <= (#[trigger] self.sale_items@[i]).id
                < self.next_sale_item_id
        &&& forall|i: int, j: int|
            0 <= i < j < self.sale_items@.len() ==> (#[trigger] self.sale_items@[i]).id
                < (#[trigger] self.sale_items@[j]).id
        &&& forall|i: int|
            0 <= i < self.sale_items@.len() ==> 1 <= (#[trigger] self.sale_items@[i]).quantity
        &&& forall|i: int|
            0 <= i < self.sale_items@.len() ==> has_sale(
                self.sales@,
                (#[trigger] self.sale_items@[i]).sale_id,
            )
        &&& forall|i: int|
            0 <= i < self.reports@.len() ==> 1 <= (#[trigger] self.reports@[i]).id
                < self.next_report_id
        &&& forall|i: int, j: int|
            0 <= i < j < self.reports@.len() ==> (#[trigger] self.reports@[i]).id
                < (#[trigger] self.reports@[j]).id
    }

    /// An empty store; every table starts assigning ids at 1.
    pub fn new() -> (s: Store)
        ensures
            s.wf(),
            s.products@ == Seq::<ProductModel>::empty(),
            s.sales@ == Seq::<SaleSummary>::empty(),
            s.sale_items@ == Seq::<SaleItemRow>::empty(),
            s.reports@ == Seq::<ReportModel>::empty(),
            s.next_product_id == 1,
            s.next_sale_id == 1,
            s.next_sale_item_id == 1,
            s.next_report_id == 1,
    {
        Store {
            products: Vec::new(),
            sales: Vec::new(),
            sale_items: Vec::new(),
            reports: Vec::new(),
            next_product_id: 1,
            next_sale_id: 1,
            next_sale_item_id: 1,
            next_report_id: 1,
        }
    }

    /// Take previously persisted rows back into a store, or refuse them
    /// when they do not satisfy the store's invariants. Each table resumes
    /// assigning ids right after its highest persisted id.
    pub fn load(
        products: Vec<ProductModel>,
        sales: Vec<SaleSummary>,
        sale_items: Vec<SaleItemRow>,
        reports: Vec<ReportModel>,
    ) -> (r: Option<Store>)
        ensures
            match r {
                Some(s) => {
                    &&& loadable(products@, sales@, sale_items@, reports@)
                    &&& s.wf()
                    &&& s.products@ == products@
                    &&& s.sales@ == sales@
                    &&& s.sale_items@ == sale_items@
                    &&& s.reports@ == reports@
                    &&& s.next_product_id == (if products@.len() == 0 {
                        1int
                    } else {
                        products@.last().id + 1
                    })
                    &&& s.next_sale_id == (if sales@.len() == 0 {
                        1int
                    } else {
                        sales@.last().id + 1
                    })
                    &&& s.next_sale_item_id == (if sale_items@.len() == 0 {
                        1int
                    } else {
                        sale_items@.last().id + 1
                    })
                    &&& s.next_report_id == (if reports@.len() == 0 {
                        1int
                    } else {
                        reports@.last().id + 1
                    })
                },
                None => !loadable(products@, sales@, sale_items@, reports@),
            },
    {
        if !ids_ok(&products) || !ids_ok(&sales) || !ids_ok(&sale_items) || !ids_ok(&reports) {
            return None;
        }
        let mut i: usize = 0;
        while i < sale_items.len()
            invariant
                i <= sale_items@.len(),
                forall|j: int|
                    0 <= j < i ==> 1 <= (#[trigger] sale_items@[j]).quantity && has_sale(
                        sales@,
                        sale_items@[j].sale_id,
                    ),
            decreases sale_items@.len() - i,
        {
            if sale_items[i].quantity < 1 || !sale_exists(&sales, sale_items[i].sale_id) {
                return None;
            }
            i += 1;
        }
        let next_product_id: i64 = if products.len() == 0 {
            1
        } else {
            products[products.len() - 1].id + 1
        };
        let next_sale_id: i64 = if sales.len() == 0 {
            1
        } else {
            sales[sales.len() - 1].id + 1
        };
        let next_sale_item_id: i64 = if sale_items.len() == 0 {
            1
        } else {
            sale_items[sale_items.len() - 1].id + 1
        };
        let next_report_id: i64 = if reports.len() == 0 {
            1
        } else {
            reports[reports.len() - 1].id + 1
        };
        Some(
            Store {
                products,
                sales,
                sale_items,
                reports,
                next_product_id,
                next_sale_id,
                next_sale_item_id,
                next_report_id,
            },
        )
    }
}

/// Whether some sale header in the vector carries `sale_id`.
fn sale_exists(sales: &Vec<SaleSummary>, sale_id: i64) -> (r: bool)
    ensures
        r == has_sale(sales@, sale_id),
{
    let mut i: usize = 0;
    while i < sales.len()
        invariant
            i <= sales@.len(),
            forall|j: int| 0 <= j < i ==> (#[trigger] sales@[j]).id != sale_id,
        decreases sales@.len() - i,
    {
        if sales[i].id == sale_id {
            assert(has_sale(sales@, sale_id));
            return true;
        }
        i += 1;
    }
    false
}

} // verus!
