//! The receipt view: the named fields of a receipt document that ingestion
//! reads. Every field may be missing from a document; a missing one is held
//! as its empty form (empty text, no items), never as an error.
use vstd::prelude::*;

use crate::document::JsonNumber;

verus! {

#[derive(Debug, Clone, PartialEq)]
pub struct Receipt {
    pub items: Items,
    pub merchant_name: MerchantName,
    pub tax_details: TaxDetails,
    pub total: Total,
    pub total_tax: TotalTax,
    pub transaction_date: TransactionDate,
    pub transaction_time: TransactionTime,
}

#[derive(Debug, Clone, PartialEq)]
pub struct Items {
    pub type_field: String,
    pub value_array: Vec<ValueArray>,
}

#[derive(Debug, Clone, PartialEq)]
pub struct ValueArray {
    pub type_field: String,
    pub value_object: ValueObject,
    pub content: String,
    pub bounding_regions: Vec<BoundingRegion>,
    pub confidence: JsonNumber,
    pub spans: Vec<Span>,
}

#[derive(Debug, Clone, PartialEq)]
pub struct ValueObject {
    pub description: Description,
    pub total_price: Option<TotalPrice>,
    pub quantity: Option<JsonNumber>,
    pub unit_price: Option<JsonNumber>,
    pub product_code: Option<String>,
    pub quantity_unit: Option<String>,
}

#[derive(Debug, Clone, PartialEq)]
pub struct Description {
    pub type_field: String,
    pub value_string: String,
    pub content: String,
    pub bounding_regions: Vec<BoundingRegion>,
    pub confidence: JsonNumber,
    pub spans: Vec<Span>,
}

#[derive(Debug, Clone, PartialEq)]
pub struct Span {
    pub offset: i64,
    pub length: i64,
}

#[derive(Debug, Clone, PartialEq)]
pub struct TotalPrice {
    pub type_field: String,
    pub value_number: JsonNumber,
    pub content: String,
    pub bounding_regions: Vec<BoundingRegion>,
    pub confidence: JsonNumber,
    pub spans: Vec<Span>,
}

#[derive(Debug, Clone, PartialEq)]
pub struct MerchantName {
    pub type_field: String,
    pub value_string: String,
    pub content: String,
    pub bounding_regions: Vec<BoundingRegion>,
    pub confidence: JsonNumber,
    pub spans: Vec<Span>,
}

#[derive(Debug, Clone, PartialEq)]
pub struct TaxDetails {
    pub type_field: String,
    pub value_array: Vec<ValueArray2>,
}

#[derive(Debug, Clone, PartialEq)]
pub struct ValueArray2 {
    pub type_field: String,
    pub value_object: ValueObject2,
    pub content: String,
    pub bounding_regions: Vec<BoundingRegion>,
    pub confidence: JsonNumber,
    pub spans: Vec<Span>,
}

#[derive(Debug, Clone, PartialEq)]
pub struct ValueObject2 {
    pub amount: Amount,
}

#[derive(Debug, Clone, PartialEq)]
pub struct Amount {
    pub type_field: String,
    pub value_currency: ValueCurrency,
    pub content: String,
    pub bounding_regions: Vec<BoundingRegion>,
    pub confidence: JsonNumber,
    pub spans: Vec<Span>,
}

#[derive(Debug, Clone, PartialEq)]
pub struct ValueCurrency {
    pub amount: JsonNumber,
}

#[derive(Debug, Clone, PartialEq)]
pub struct Total {
    pub type_field: String,
    pub value_number: JsonNumber,
    pub content: String,
    pub bounding_regions: Vec<BoundingRegion>,
    pub confidence: JsonNumber,
    pub spans: Vec<Span>,
}

#[derive(Debug, Clone, PartialEq)]
pub struct TotalTax {
    pub type_field: String,
    pub value_number: JsonNumber,
    pub content: String,
    pub bounding_regions: Vec<BoundingRegion>,
    pub confidence: JsonNumber,
    pub spans: Vec<Span>,
}

#[derive(Debug, Clone, PartialEq)]
pub struct TransactionDate {
    pub type_field: String,
    pub value_date: String,
    pub content: String,
    pub bounding_regions: Vec<BoundingRegion>,
    pub confidence: JsonNumber,
    pub spans: Vec<Span>,
}

#[derive(Debug, Clone, PartialEq)]
pub struct TransactionTime {
    pub type_field: String,
    pub value_time: String,
    pub content: String,
    pub bounding_regions: Vec<BoundingRegion>,
    pub confidence: JsonNumber,
    pub spans: Vec<Span>,
}

#[derive(Debug, Clone, PartialEq)]
pub struct BoundingRegion {
    pub page_number: i64,
    pub polygon: Vec<i64>,
}



} // verus!
