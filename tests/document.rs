use receipt_ingest::document::{DocumentField, DocumentFieldType, FieldType, JsonNumber};

fn field(kind: FieldType) -> DocumentField {
    DocumentField {
        field_type: DocumentFieldType { field_type: kind },
        value_string: None,
        value_date: None,
        value_time: None,
        value_phone_number: None,
        value_number: None,
        value_integer: None,
        value_selection_mark: None,
        value_signature: None,
        value_country_region: None,
        value_array: None,
        value_object: None,
        value_currency: None,
        value_address: None,
        value_boolean: None,
        content: Some("12.50".to_string()),
        bounding_regions: None,
        spans: None,
        confidence: None,
    }
}

#[test]
fn field_with_value_in_its_slot_is_extracted() {
    let mut f = field(FieldType::Number);
    f.value_number = Some(JsonNumber { bits: 12.5f64.to_bits() });
    assert!(f.is_extracted());
}

#[test]
fn field_with_value_in_another_slot_is_not_extracted() {
    let mut f = field(FieldType::Number);
    f.value_string = Some("12.50".to_string());
    assert!(!f.is_extracted());
}

#[test]
fn field_with_empty_slot_is_not_extracted() {
    assert!(!field(FieldType::Date).is_extracted());
    let mut f = field(FieldType::Array);
    f.value_array = Some(vec![]);
    assert!(f.is_extracted());
}
