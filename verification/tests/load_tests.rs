use systore::models::product::ProductModel;
use systore::models::report::ReportModel;
use systore::models::sale::{CreateSaleRequest, SaleItemModel, SaleItemRow, SaleSummary};
use systore::store::Store;

fn product_row(id: i64, stock: i64) -> ProductModel {
    ProductModel {
        id,
        name: format!("p{}", id),
        price: 100,
        stock,
        category: None,
        created_at: "2024-01-01T00:00:00+00:00".to_string(),
    }
}

fn sale_row(id: i64) -> SaleSummary {
    SaleSummary {
        id,
        occurred_at: "2024-01-02T00:00:00+00:00".to_string(),
        subtotal: 100,
        tax: 0,
        total: 100,
    }
}

#[test]
fn load_accepts_well_formed_rows_and_resumes_ids() {
    let products = vec![product_row(1, 5), product_row(4, 2)];
    let sales = vec![sale_row(2)];
    let items = vec![SaleItemRow { id: 1, sale_id: 2, product_id: 1, quantity: 1, unit_price: 100 }];
    let reports: Vec<ReportModel> = vec![];

    let mut s = Store::load(products, sales, items, reports).expect("rows are well formed");
    assert_eq!(s.next_product_id, 5);
    assert_eq!(s.next_sale_id, 3);
    assert_eq!(s.next_sale_item_id, 2);
    assert_eq!(s.next_report_id, 1);

    let r = s.sale_service_create(CreateSaleRequest {
        items: vec![SaleItemModel { product_id: 4, quantity: 2, unit_price: 100 }],
        subtotal: 200,
        tax: 0,
        total: 200,
    });
    assert_eq!(r, Ok(3));
    assert_eq!(s.product_service_get_one(4).unwrap().stock, 0);
}

#[test]
fn load_rejects_duplicate_ids() {
    let products = vec![product_row(2, 5), product_row(2, 6)];
    assert!(Store::load(products, vec![], vec![], vec![]).is_none());
}

#[test]
fn load_rejects_out_of_order_ids() {
    let sales = vec![sale_row(3), sale_row(1)];
    assert!(Store::load(vec![], sales, vec![], vec![]).is_none());
}

#[test]
fn load_rejects_nonpositive_ids() {
    let products = vec![product_row(0, 5)];
    assert!(Store::load(products, vec![], vec![], vec![]).is_none());
}

#[test]
fn load_rejects_orphan_line_items() {
    let items = vec![SaleItemRow { id: 1, sale_id: 7, product_id: 1, quantity: 1, unit_price: 1 }];
    assert!(Store::load(vec![], vec![], items, vec![]).is_none());
}

#[test]
fn load_rejects_nonpositive_quantities() {
    let sales = vec![sale_row(1)];
    let items = vec![SaleItemRow { id: 1, sale_id: 1, product_id: 1, quantity: 0, unit_price: 1 }];
    assert!(Store::load(vec![], sales, items, vec![]).is_none());
}
