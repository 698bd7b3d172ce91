use receipt_ingest::document::JsonNumber;
use receipt_ingest::extract::{ExtractedReceipt, LineItem};
use receipt_ingest::store::{PersistError, ReceiptStore};
use receipt_ingest::timestamp::{LocalDateTime, PaidAt};

fn line(name: &str, count: f64, price: f64) -> LineItem {
    LineItem {
        name: name.to_string(),
        count: JsonNumber { bits: count.to_bits() },
        unit_price: JsonNumber { bits: price.to_bits() },
    }
}

fn receipt(merchant: &str, items: Vec<LineItem>) -> ExtractedReceipt {
    ExtractedReceipt {
        merchant_name: merchant.to_string(),
        paid_at: PaidAt {
            local: LocalDateTime { year: 2024, month: 3, day: 5, hour: 14, minute: 30, second: 0, nanosecond: 0 },
            utc_offset_seconds: 3600,
        },
        items,
    }
}

#[test]
fn same_file_twice_is_refused() {
    let mut store = ReceiptStore::new();
    let r = receipt("Fakta", vec![line("Milk", 1.0, 10.0)]);
    let hash = "abc".to_string();
    assert_eq!(store.persist(&r, &hash), Ok(0));
    let before = store.clone();
    assert_eq!(store.persist(&r, &hash), Err(PersistError::DuplicateReceipt));
    assert_eq!(store, before);
    assert_eq!(store.receipts.len(), 1);
}

#[test]
fn repeated_product_on_one_receipt_gives_one_price_row() {
    let mut store = ReceiptStore::new();
    let r = receipt("Fakta", vec![line("Discount", 1.0, -5.0), line("Milk", 2.0, 9.0), line("Discount", 1.0, -7.0)]);
    let id = store.persist(&r, &"h1".to_string()).unwrap();
    let discount = store.products.iter().position(|p| p == "Discount").unwrap();
    let rows: Vec<_> = store.prices.iter().filter(|p| p.receipt_id == id && p.product_id == discount).collect();
    assert_eq!(rows.len(), 1);
    assert_eq!(rows[0].unit_price, JsonNumber { bits: (-7.0f64).to_bits() });
    assert_eq!(store.prices.len(), 2);
}

#[test]
fn products_are_shared_between_receipts() {
    let mut store = ReceiptStore::new();
    store.persist(&receipt("A", vec![line("Milk", 1.0, 10.0), line("Tea", 1.0, 20.0)]), &"h1".to_string()).unwrap();
    let id = store.persist(&receipt("B", vec![line("Milk", 3.0, 11.0)]), &"h2".to_string()).unwrap();
    assert_eq!(id, 1);
    assert_eq!(store.products, vec!["Milk".to_string(), "Tea".to_string()]);
    assert_eq!(store.prices.len(), 3);
    assert_eq!(store.prices[2].product_id, 0);
    assert_eq!(store.receipts[1].merchant_name, "B");
}

#[test]
fn cleared_store_accepts_file_again() {
    let mut store = ReceiptStore::new();
    let r = receipt("A", vec![line("Milk", 1.0, 10.0)]);
    store.persist(&r, &"h".to_string()).unwrap();
    assert!(store.contains_file(&"h".to_string()));
    store.clear();
    assert!(!store.contains_file(&"h".to_string()));
    assert_eq!(store.persist(&r, &"h".to_string()), Ok(0));
}

#[test]
fn receipt_without_lines_has_no_prices() {
    let mut store = ReceiptStore::new();
    store.persist(&receipt("A", vec![]), &"h".to_string()).unwrap();
    assert_eq!(store.receipts.len(), 1);
    assert!(store.products.is_empty());
    assert!(store.prices.is_empty());
}
