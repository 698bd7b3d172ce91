use receipt_ingest::document::JsonNumber;
use receipt_ingest::extract::LineItem;
use receipt_ingest::reconcile::{price_rows, product_names};

fn line(name: &str, count: f64, price: f64) -> LineItem {
    LineItem {
        name: name.to_string(),
        count: JsonNumber { bits: count.to_bits() },
        unit_price: JsonNumber { bits: price.to_bits() },
    }
}

#[test]
fn repeated_name_keeps_last_line() {
    let lines = vec![line("Discount", 1.0, -5.0), line("Milk", 2.0, 10.0), line("Discount", 1.0, -7.5)];
    let rows = price_rows(&lines);
    assert_eq!(rows.len(), 2);
    let discounts: Vec<&LineItem> = rows.iter().filter(|r| r.name == "Discount").collect();
    assert_eq!(discounts.len(), 1);
    assert_eq!(*discounts[0], line("Discount", 1.0, -7.5));
    assert!(rows.contains(&line("Milk", 2.0, 10.0)));
}

#[test]
fn distinct_names_all_kept_in_order() {
    let lines = vec![line("A", 1.0, 1.0), line("B", 2.0, 2.0), line("C", 3.0, 3.0)];
    assert_eq!(price_rows(&lines), lines);
}

#[test]
fn no_lines_no_rows() {
    assert!(price_rows(&vec![]).is_empty());
}

#[test]
fn product_names_follow_rows() {
    let lines = vec![line("Tea", 1.0, 20.0), line("Tea", 2.0, 19.0), line("Jam", 1.0, 30.0)];
    let rows = price_rows(&lines);
    let names = product_names(&rows);
    assert_eq!(names.len(), 2);
    assert!(names.contains(&"Tea".to_string()));
    assert!(names.contains(&"Jam".to_string()));
    assert_eq!(rows.iter().find(|r| r.name == "Tea").unwrap().count, JsonNumber { bits: 2.0f64.to_bits() });
}
