use systore::models::product::{CreateProductRequest, UpdateProductRequest};
use systore::models::report::{CreateReportRequest, UpdateReportRequest};
use systore::models::sale::{CreateSaleRequest, SaleError, SaleItemModel};
use systore::store::Store;

fn product(name: &str, price: i64, stock: i64) -> CreateProductRequest {
    CreateProductRequest { name: name.to_string(), price, stock, category: None }
}

fn item(product_id: i64, quantity: i64, unit_price: i64) -> SaleItemModel {
    SaleItemModel { product_id, quantity, unit_price }
}

#[test]
fn end_to_end_pen_sale() {
    let mut s = Store::new();
    let pid = s.product_service_create(product("Pen", 150, 10));
    assert_eq!(pid, 1);

    let r = s.sale_service_create(CreateSaleRequest {
        items: vec![item(1, 3, 150)],
        subtotal: 450,
        tax: 45,
        total: 495,
    });
    assert_eq!(r, Ok(1));

    let p = s.product_service_get_one(1).expect("product 1 exists");
    assert_eq!(p.stock, 7);

    let sales = s.sale_service_get_all();
    assert_eq!(sales.len(), 1);
    assert_eq!(sales[0].id, 1);
    assert_eq!(sales[0].subtotal, 450);
    assert_eq!(sales[0].tax, 45);
    assert_eq!(sales[0].total, 495);
}

#[test]
fn rejected_sale_leaves_state_untouched() {
    let mut s = Store::new();
    s.product_service_create(product("Pen", 150, 5));

    let r = s.sale_service_create(CreateSaleRequest {
        items: vec![item(1, 6, 150)],
        subtotal: 900,
        tax: 0,
        total: 900,
    });
    assert_eq!(
        r,
        Err(SaleError::InsufficientStock { product_id: 1, available: 5, requested: 6 })
    );

    assert_eq!(s.product_service_get_one(1).unwrap().stock, 5);
    assert!(s.sale_service_get_all().is_empty());
    assert!(s.sale_items.is_empty());
}

#[test]
fn all_or_nothing_across_items() {
    let mut s = Store::new();
    s.product_service_create(product("A", 100, 10));
    s.product_service_create(product("B", 200, 1));

    let r = s.sale_service_create(CreateSaleRequest {
        items: vec![item(1, 2, 100), item(2, 5, 200)],
        subtotal: 1200,
        tax: 0,
        total: 1200,
    });
    assert_eq!(
        r,
        Err(SaleError::InsufficientStock { product_id: 2, available: 1, requested: 5 })
    );

    assert_eq!(s.product_service_get_one(1).unwrap().stock, 10);
    assert_eq!(s.product_service_get_one(2).unwrap().stock, 1);
    assert!(s.sale_service_get_all().is_empty());
    assert!(s.sale_items.is_empty());
}

#[test]
fn stock_conservation_per_line_item() {
    let mut s = Store::new();
    s.product_service_create(product("A", 100, 10));
    s.product_service_create(product("B", 200, 4));

    let r = s.sale_service_create(CreateSaleRequest {
        items: vec![item(1, 2, 100), item(2, 3, 200)],
        subtotal: 800,
        tax: 0,
        total: 800,
    });
    assert_eq!(r, Ok(1));
    assert_eq!(s.product_service_get_one(1).unwrap().stock, 8);
    assert_eq!(s.product_service_get_one(2).unwrap().stock, 1);

    // Reading the sales again does not reapply the decrements.
    let _ = s.sale_service_get_all();
    let _ = s.sale_service_get_all();
    assert_eq!(s.product_service_get_one(1).unwrap().stock, 8);
    assert_eq!(s.product_service_get_one(2).unwrap().stock, 1);
}

#[test]
fn reads_are_idempotent() {
    let mut s = Store::new();
    s.product_service_create(product("A", 100, 10));
    s.sale_service_create(CreateSaleRequest {
        items: vec![item(1, 1, 100)],
        subtotal: 100,
        tax: 0,
        total: 100,
    })
    .unwrap();

    let sales1 = s.sale_service_get_all();
    let sales2 = s.sale_service_get_all();
    assert_eq!(sales1.len(), sales2.len());
    for (a, b) in sales1.iter().zip(sales2.iter()) {
        assert_eq!(a.id, b.id);
        assert_eq!(a.occurred_at, b.occurred_at);
        assert_eq!(a.total, b.total);
    }

    let g1 = s.product_service_get_one(1).unwrap();
    let g2 = s.product_service_get_one(1).unwrap();
    assert_eq!(g1.id, g2.id);
    assert_eq!(g1.stock, g2.stock);
    assert_eq!(g1.name, g2.name);
}

#[test]
fn listings_come_newest_first() {
    let mut s = Store::new();
    s.product_service_create(product("A", 100, 10));
    s.product_service_create(product("B", 200, 10));
    s.product_service_create(product("C", 300, 10));

    let products = s.product_service_get_all();
    let ids: Vec<i64> = products.iter().map(|p| p.id).collect();
    assert_eq!(ids, vec![3, 2, 1]);

    for pid in 1..=3 {
        s.sale_service_create(CreateSaleRequest {
            items: vec![item(pid, 1, 100)],
            subtotal: 100,
            tax: 0,
            total: 100,
        })
        .unwrap();
    }
    let sales = s.sale_service_get_all();
    let sale_ids: Vec<i64> = sales.iter().map(|x| x.id).collect();
    assert_eq!(sale_ids, vec![3, 2, 1]);
}

#[test]
fn absent_product_is_none_not_error() {
    let mut s = Store::new();
    assert!(s.product_service_get_one(42).is_none());

    let r = s.sale_service_create(CreateSaleRequest {
        items: vec![item(42, 1, 100)],
        subtotal: 100,
        tax: 0,
        total: 100,
    });
    assert_eq!(r, Err(SaleError::ProductNotFound { product_id: 42 }));
}

#[test]
fn first_violation_wins() {
    let mut s = Store::new();
    s.product_service_create(product("A", 100, 0));
    // The first item already fails on stock, so the missing product behind
    // it is never reported.
    let r = s.sale_service_create(CreateSaleRequest {
        items: vec![item(1, 1, 100), item(42, 1, 100)],
        subtotal: 200,
        tax: 0,
        total: 200,
    });
    assert_eq!(
        r,
        Err(SaleError::InsufficientStock { product_id: 1, available: 0, requested: 1 })
    );
}

#[test]
fn empty_sale_creates_bare_header() {
    let mut s = Store::new();
    let r = s.sale_service_create(CreateSaleRequest {
        items: vec![],
        subtotal: 0,
        tax: 0,
        total: 0,
    });
    assert_eq!(r, Ok(1));
    assert_eq!(s.sale_service_get_all().len(), 1);
    assert!(s.sale_items.is_empty());
}

#[test]
fn duplicate_lines_cannot_oversell() {
    let mut s = Store::new();
    s.product_service_create(product("A", 100, 5));
    // Two lines of 3 against a stock of 5: the second line finds only 2
    // still unclaimed, so the whole sale is rejected and stock stays put.
    let r = s.sale_service_create(CreateSaleRequest {
        items: vec![item(1, 3, 100), item(1, 3, 100)],
        subtotal: 600,
        tax: 0,
        total: 600,
    });
    assert_eq!(
        r,
        Err(SaleError::InsufficientStock { product_id: 1, available: 2, requested: 3 })
    );
    assert_eq!(s.product_service_get_one(1).unwrap().stock, 5);
    assert!(s.sale_service_get_all().is_empty());
}

#[test]
fn duplicate_lines_within_stock_commit() {
    let mut s = Store::new();
    s.product_service_create(product("A", 100, 6));
    let r = s.sale_service_create(CreateSaleRequest {
        items: vec![item(1, 3, 100), item(1, 3, 100)],
        subtotal: 600,
        tax: 0,
        total: 600,
    });
    assert_eq!(r, Ok(1));
    assert_eq!(s.product_service_get_one(1).unwrap().stock, 0);
    assert_eq!(s.sale_items.len(), 2);
}

#[test]
fn sale_items_capture_price_at_time_of_sale() {
    let mut s = Store::new();
    s.product_service_create(product("A", 100, 10));
    s.sale_service_create(CreateSaleRequest {
        items: vec![item(1, 2, 90)],
        subtotal: 180,
        tax: 0,
        total: 180,
    })
    .unwrap();
    // The catalog price changes afterwards; the line item keeps the price
    // that was charged.
    s.product_service_update(UpdateProductRequest {
        id: 1,
        name: "A".to_string(),
        price: 500,
        stock: 8,
        category: None,
    });
    assert_eq!(s.sale_items.len(), 1);
    assert_eq!(s.sale_items[0].unit_price, 90);
    assert_eq!(s.sale_items[0].sale_id, 1);
    assert_eq!(s.sale_items[0].product_id, 1);
    assert_eq!(s.product_service_get_one(1).unwrap().price, 500);
}

#[test]
fn product_update_overwrites_and_keeps_created_at() {
    let mut s = Store::new();
    s.product_service_create(product("Old", 100, 1));
    let before = s.product_service_get_one(1).unwrap();
    s.product_service_update(UpdateProductRequest {
        id: 1,
        name: "New".to_string(),
        price: 250,
        stock: 7,
        category: Some("pens".to_string()),
    });
    let after = s.product_service_get_one(1).unwrap();
    assert_eq!(after.name, "New");
    assert_eq!(after.price, 250);
    assert_eq!(after.stock, 7);
    assert_eq!(after.category, Some("pens".to_string()));
    assert_eq!(after.created_at, before.created_at);
    assert_eq!(after.id, 1);
}

#[test]
fn product_update_absent_id_is_noop() {
    let mut s = Store::new();
    s.product_service_create(product("A", 100, 1));
    s.product_service_update(UpdateProductRequest {
        id: 9,
        name: "X".to_string(),
        price: 1,
        stock: 1,
        category: None,
    });
    let p = s.product_service_get_one(1).unwrap();
    assert_eq!(p.name, "A");
    assert!(s.product_service_get_one(9).is_none());
}

#[test]
fn product_delete_removes_row() {
    let mut s = Store::new();
    s.product_service_create(product("A", 100, 1));
    s.product_service_create(product("B", 200, 2));
    s.product_service_delete(1);
    assert!(s.product_service_get_one(1).is_none());
    assert_eq!(s.product_service_get_all().len(), 1);
    // Deleting an absent id changes nothing.
    s.product_service_delete(1);
    assert_eq!(s.product_service_get_all().len(), 1);
    // A fresh row never reuses the deleted id.
    let pid = s.product_service_create(product("C", 300, 3));
    assert_eq!(pid, 3);
}

#[test]
fn created_at_is_stamped() {
    let mut s = Store::new();
    s.product_service_create(product("A", 100, 1));
    let p = s.product_service_get_one(1).unwrap();
    assert!(!p.created_at.is_empty());

    s.sale_service_create(CreateSaleRequest {
        items: vec![],
        subtotal: 0,
        tax: 0,
        total: 0,
    })
    .unwrap();
    let sales = s.sale_service_get_all();
    assert!(!sales[0].occurred_at.is_empty());
}

#[test]
fn report_crud_roundtrip() {
    let mut s = Store::new();
    let rid = s.report_service_create(CreateReportRequest {
        name: "Monthly".to_string(),
        category: Some("sales".to_string()),
        description: None,
    });
    assert_eq!(rid, 1);
    s.report_service_create(CreateReportRequest {
        name: "Weekly".to_string(),
        category: None,
        description: Some("short".to_string()),
    });

    let all = s.report_service_get_all();
    assert_eq!(all.len(), 2);
    assert_eq!(all[0].id, 2);
    assert_eq!(all[1].id, 1);

    let one = s.report_service_get_one(1).unwrap();
    assert_eq!(one.name, "Monthly");
    assert!(!one.created_at.is_empty());

    s.report_service_update(UpdateReportRequest {
        id: 1,
        name: "Monthly v2".to_string(),
        category: None,
        description: Some("revised".to_string()),
    });
    let updated = s.report_service_get_one(1).unwrap();
    assert_eq!(updated.name, "Monthly v2");
    assert_eq!(updated.category, None);
    assert_eq!(updated.description, Some("revised".to_string()));
    assert_eq!(updated.created_at, one.created_at);

    s.report_service_delete(1);
    assert!(s.report_service_get_one(1).is_none());
    assert_eq!(s.report_service_get_all().len(), 1);
}

#[test]
fn reports_do_not_touch_products_or_sales() {
    let mut s = Store::new();
    s.product_service_create(product("A", 100, 5));
    s.report_service_create(CreateReportRequest {
        name: "R".to_string(),
        category: None,
        description: None,
    });
    assert_eq!(s.product_service_get_one(1).unwrap().stock, 5);
    assert!(s.sale_service_get_all().is_empty());
}
