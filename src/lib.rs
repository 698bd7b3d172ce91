//! Receipt ingestion: the document model of an analysis result, the receipt
//! view over it, line-item extraction, and the bookkeeping that keeps each
//! uploaded file analysed and stored once.
#![allow(non_snake_case)]

pub mod document;
pub mod receipt;
pub mod timestamp;
pub mod extract;
pub mod reconcile;
pub mod ingest;
pub mod repopulate;
pub mod store;
