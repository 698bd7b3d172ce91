use receipt_ingest::document::{
    AnalyzeResult, AnalyzeResultOperation, ApiVersion, Document, DocType, DocumentModelId,
    JsonNumber, StringIndexType,
};
use receipt_ingest::extract::{
    contains_text, uses_raw_date, extract_line_items, extract_receipt, transaction_date_text, ExtractError, LineItem,
};
use receipt_ingest::receipt::{
    Description, Items, MerchantName, Receipt, TaxDetails, Total, TotalPrice, TotalTax,
    TransactionDate, TransactionTime, ValueArray, ValueObject,
};
use receipt_ingest::timestamp::{parse_paid_at, TimestampError};
use receipt_ingest::document::Confidence;
use receipt_ingest::repopulate::{count_successes, repopulation_outcomes, EntryFailure};
use receipt_ingest::store::ReceiptStore;

fn num(x: f64) -> JsonNumber {
    JsonNumber { bits: x.to_bits() }
}

fn item(name: &str, quantity: Option<f64>, unit: Option<f64>, total: Option<f64>) -> ValueArray {
    ValueArray {
        type_field: "object".to_string(),
        value_object: ValueObject {
            description: Description {
                type_field: "string".to_string(),
                value_string: name.to_string(),
                content: name.to_string(),
                bounding_regions: vec![],
                confidence: num(0.9),
                spans: vec![],
            },
            total_price: total.map(|t| TotalPrice {
                type_field: "number".to_string(),
                value_number: num(t),
                content: String::new(),
                bounding_regions: vec![],
                confidence: num(0.9),
                spans: vec![],
            }),
            quantity: quantity.map(num),
            unit_price: unit.map(num),
            product_code: None,
            quantity_unit: None,
        },
        content: String::new(),
        bounding_regions: vec![],
        confidence: num(0.9),
        spans: vec![],
    }
}

fn receipt(merchant: &str, date_value: &str, date_content: &str, time: &str, items: Vec<ValueArray>) -> Receipt {
    Receipt {
        items: Items { type_field: "array".to_string(), value_array: items },
        merchant_name: MerchantName {
            type_field: "string".to_string(),
            value_string: merchant.to_string(),
            content: merchant.to_string(),
            bounding_regions: vec![],
            confidence: num(0.9),
            spans: vec![],
        },
        tax_details: TaxDetails { type_field: String::new(), value_array: vec![] },
        total: Total {
            type_field: String::new(),
            value_number: num(0.0),
            content: String::new(),
            bounding_regions: vec![],
            confidence: num(0.0),
            spans: vec![],
        },
        total_tax: TotalTax {
            type_field: String::new(),
            value_number: num(0.0),
            content: String::new(),
            bounding_regions: vec![],
            confidence: num(0.0),
            spans: vec![],
        },
        transaction_date: TransactionDate {
            type_field: "date".to_string(),
            value_date: date_value.to_string(),
            content: date_content.to_string(),
            bounding_regions: vec![],
            confidence: num(0.9),
            spans: vec![],
        },
        transaction_time: TransactionTime {
            type_field: "time".to_string(),
            value_time: time.to_string(),
            content: time.to_string(),
            bounding_regions: vec![],
            confidence: num(0.9),
            spans: vec![],
        },
    }
}

fn operation(documents: Option<Vec<Receipt>>, with_result: bool) -> AnalyzeResultOperation {
    let analyze_result = if with_result {
        Some(AnalyzeResult {
            apiVersion: ApiVersion("2023-07-31".to_string()),
            modelId: DocumentModelId("prebuilt-receipt".to_string()),
            stringIndexType: StringIndexType::TextElements,
            content: String::new(),
            pages: vec![],
            paragraphs: None,
            tables: None,
            keyValuePairs: None,
            styles: None,
            languages: None,
            documents: documents.map(|ds| {
                ds.into_iter()
                    .map(|fields| Document {
                        docType: DocType("receipt.retailMeal".to_string()),
                        boundingRegions: vec![],
                        spans: vec![],
                        fields,
                        confidence: Confidence(num(0.9)),
                    })
                    .collect()
            }),
        })
    } else {
        None
    };
    AnalyzeResultOperation {
        status: "succeeded".to_string(),
        createdDateTime: "2024-03-05T14:31:00Z".to_string(),
        lastUpdatedDateTime: "2024-03-05T14:31:05Z".to_string(),
        error: None,
        analyzeResult: analyze_result,
    }
}

#[test]
fn item_without_any_price_is_dropped() {
    let items = vec![
        item("Milk", Some(2.0), Some(10.5), None),
        item("Mystery", Some(1.0), None, None),
        item("Bread", None, None, Some(25.0)),
    ];
    let lines = extract_line_items(&items);
    assert_eq!(lines.len(), 2);
    assert_eq!(lines[0].name, "Milk");
    assert_eq!(lines[1].name, "Bread");
}

#[test]
fn unit_price_preferred_over_total_price() {
    let items = vec![item("Eggs", Some(3.0), Some(4.0), Some(12.0))];
    let lines = extract_line_items(&items);
    assert_eq!(lines, vec![LineItem { name: "Eggs".to_string(), count: num(3.0), unit_price: num(4.0) }]);
}

#[test]
fn total_price_used_when_unit_price_missing() {
    let items = vec![item("Cheese", Some(1.0), None, Some(42.5))];
    let lines = extract_line_items(&items);
    assert_eq!(lines[0].unit_price, num(42.5));
}

#[test]
fn missing_quantity_counts_one() {
    let items = vec![item("Apple", None, Some(3.25), None)];
    let lines = extract_line_items(&items);
    assert_eq!(f64::from_bits(lines[0].count.bits), 1.0);
    assert_eq!(lines[0].count, JsonNumber::one());
}

#[test]
fn empty_item_list_gives_no_lines() {
    assert!(extract_line_items(&vec![]).is_empty());
}

#[test]
fn missing_analyze_result_is_an_error() {
    assert_eq!(extract_receipt(&operation(None, false)), Err(ExtractError::MissingAnalyzeResult));
}

#[test]
fn missing_documents_is_an_error() {
    assert_eq!(extract_receipt(&operation(None, true)), Err(ExtractError::MissingDocuments));
}

#[test]
fn empty_documents_is_an_error() {
    assert_eq!(extract_receipt(&operation(Some(vec![]), true)), Err(ExtractError::NoDocument));
}

#[test]
fn receipt_extracted_from_first_document() {
    let first = receipt(
        "Fakta",
        "2024-03-05",
        "05.03.2024",
        "14:30:00",
        vec![item("Milk", None, Some(10.5), None), item("Nothing", None, None, None)],
    );
    let second = receipt("Other", "2020-01-01", "", "00:00:00", vec![]);
    let r = extract_receipt(&operation(Some(vec![first, second]), true)).unwrap();
    assert_eq!(r.merchant_name, "Fakta");
    assert_eq!(r.items.len(), 1);
    assert_eq!(r.items[0].count, num(1.0));
    let l = r.paid_at.local;
    assert_eq!((l.year, l.month, l.day, l.hour, l.minute, l.second), (2024, 3, 5, 14, 30, 0));
    assert_eq!(r.paid_at.utc_offset_seconds, 3600);
}

#[test]
fn unparseable_date_fails_with_timestamp_error() {
    let f = receipt("Fakta", "not a date", "", "14:30:00", vec![]);
    assert_eq!(
        extract_receipt(&operation(Some(vec![f]), true)),
        Err(ExtractError::Timestamp(TimestampError::InvalidTimestamp))
    );
}

#[test]
fn paid_at_in_summer_time() {
    let p = parse_paid_at("2024-07-01", "08:15:30").unwrap();
    assert_eq!((p.local.hour, p.local.minute, p.local.second), (8, 15, 30));
    assert_eq!(p.utc_offset_seconds, 7200);
}

#[test]
fn paid_at_in_spring_forward_gap_is_ambiguous() {
    assert_eq!(parse_paid_at("2024-03-31", "02:30:00"), Err(TimestampError::AmbiguousLocalTime));
}

#[test]
fn paid_at_in_fall_back_overlap_is_ambiguous() {
    assert_eq!(parse_paid_at("2024-10-27", "02:30:00"), Err(TimestampError::AmbiguousLocalTime));
}

#[test]
fn paid_at_rejects_missing_time() {
    assert_eq!(parse_paid_at("2024-03-05", ""), Err(TimestampError::InvalidTimestamp));
}

#[test]
fn paid_at_rejects_impossible_date() {
    assert_eq!(parse_paid_at("2023-02-29", "12:00:00"), Err(TimestampError::InvalidTimestamp));
}

#[test]
fn date_swapping_merchant_reads_raw_date() {
    let f = receipt("NETTO Østerbro", "2024-05-03", "2024-03-05", "10:00:00", vec![]);
    assert_eq!(transaction_date_text(&f), "2024-03-05");
    let r = extract_receipt(&operation(Some(vec![f]), true)).unwrap();
    assert_eq!((r.paid_at.local.month, r.paid_at.local.day), (3, 5));
}

#[test]
fn date_swapping_merchant_without_hyphen_reads_typed_date() {
    let f = receipt("Netto", "2024-05-03", "05.03.2024", "10:00:00", vec![]);
    assert_eq!(transaction_date_text(&f), "2024-05-03");
}

#[test]
fn other_merchant_reads_typed_date() {
    let f = receipt("Fakta", "2024-05-03", "2024-03-05", "10:00:00", vec![]);
    assert_eq!(transaction_date_text(&f), "2024-05-03");
}

#[test]
fn repopulation_skips_undecodable_entries() {
    let ok = |m: &str| {
        operation(Some(vec![receipt(m, "2024-03-05", "", "14:30:00", vec![item("Milk", None, Some(1.0), None)])]), true)
    };
    let entries = vec![Some(ok("A")), None, Some(ok("B")), None, Some(ok("C"))];
    let outcomes = repopulation_outcomes(entries);
    assert_eq!(outcomes.len(), 5);
    assert_eq!(count_successes(&outcomes), 3);
    assert_eq!(outcomes[1], Err(EntryFailure::Undecodable));
    assert_eq!(outcomes[4].as_ref().unwrap().merchant_name, "C");
}

#[test]
fn repopulation_reports_unextractable_entries() {
    let entries = vec![Some(operation(None, false)), Some(operation(Some(vec![]), true))];
    let outcomes = repopulation_outcomes(entries);
    assert_eq!(count_successes(&outcomes), 0);
    assert_eq!(outcomes[0], Err(EntryFailure::Unextractable(ExtractError::MissingAnalyzeResult)));
    assert_eq!(outcomes[1], Err(EntryFailure::Unextractable(ExtractError::NoDocument)));
}

#[test]
fn store_repopulation_skips_failures_and_replaces_old_data() {
    let ok = |m: &str, product: &str| {
        operation(
            Some(vec![receipt(m, "2024-03-05", "", "14:30:00", vec![item(product, None, Some(1.0), None)])]),
            true,
        )
    };
    let mut store = ReceiptStore::new();
    let stale = extract_receipt(&ok("Stale", "Old")).unwrap();
    store.persist(&stale, &"stale".to_string()).unwrap();
    let hashes = vec!["h1".to_string(), "h2".to_string(), "h3".to_string(), "h4".to_string()];
    let entries = vec![Some(ok("A", "Milk")), None, Some(ok("B", "Milk")), Some(operation(None, true))];
    let stored = store.repopulate(&hashes, entries);
    assert_eq!(stored, 2);
    assert_eq!(store.receipts.len(), 2);
    assert_eq!(store.receipts[0].file_hash, "h1");
    assert_eq!(store.receipts[1].file_hash, "h3");
    assert_eq!(store.products, vec!["Milk".to_string()]);
    assert_eq!(store.prices.len(), 2);
}

#[test]
fn raw_date_rule_reads_lowered_merchant() {
    assert!(uses_raw_date("netto amager", "2024-03-05"));
    assert!(!uses_raw_date("rema 1000", "2024-03-05"));
    assert!(!uses_raw_date("netto amager", "05.03.2024"));
    assert!(!uses_raw_date("NETTO AMAGER", "2024-03-05"));
}

#[test]
fn substring_search_on_characters() {
    assert!(contains_text("abc", ""));
    assert!(contains_text("abc", "bc"));
    assert!(contains_text("abc", "abc"));
    assert!(!contains_text("ab", "abc"));
    assert!(!contains_text("abc", "ac"));
    assert!(contains_text("østerbro", "ster"));
}

#[test]
fn vendor_override_gives_raw_date_timestamp() {
    let netto = receipt("NETTO Amager", "2024-05-03", "2024-03-05", "14:30:00", vec![]);
    let r = extract_receipt(&operation(Some(vec![netto]), true)).unwrap();
    let l = r.paid_at.local;
    assert_eq!((l.year, l.month, l.day, l.hour, l.minute), (2024, 3, 5, 14, 30));
    assert_eq!(r.paid_at.utc_offset_seconds, 3600);
    let rema = receipt("Rema 1000", "2024-05-03", "2024-03-05", "14:30:00", vec![]);
    let r = extract_receipt(&operation(Some(vec![rema]), true)).unwrap();
    assert_eq!((r.paid_at.local.month, r.paid_at.local.day), (5, 3));
    assert_eq!(r.paid_at.utc_offset_seconds, 7200);
}

#[test]
fn unpriced_item_adds_no_product() {
    let f = receipt(
        "Fakta",
        "2024-03-05",
        "",
        "14:30:00",
        vec![item("Milk", None, Some(10.0), None), item("Ghost", Some(2.0), None, None)],
    );
    let r = extract_receipt(&operation(Some(vec![f]), true)).unwrap();
    let mut store = ReceiptStore::new();
    store.products.push("Bread".to_string());
    let id = store.persist(&r, &"h".to_string()).unwrap();
    assert_eq!(id, 0);
    assert_eq!(store.products, vec!["Bread".to_string(), "Milk".to_string()]);
    assert_eq!(store.prices.len(), 1);
    assert_eq!(store.prices[0].product_id, 1);
}

#[test]
fn store_repopulation_ignores_previous_contents() {
    let ok = |m: &str| {
        operation(Some(vec![receipt(m, "2024-03-05", "", "14:30:00", vec![item("Tea", None, Some(2.0), None)])]), true)
    };
    let hashes = vec!["placeholder".to_string(), "good".to_string()];
    let entries = vec![None, Some(ok("A"))];
    let mut first = ReceiptStore::new();
    let mut second = ReceiptStore::new();
    second.persist(&extract_receipt(&ok("Old")).unwrap(), &"old".to_string()).unwrap();
    second.products.push("Leftover".to_string());
    assert_eq!(first.repopulate(&hashes, entries.clone()), 1);
    assert_eq!(second.repopulate(&hashes, entries), 1);
    assert_eq!(first, second);
    assert_eq!(first.receipts[0].file_hash, "good");
}
