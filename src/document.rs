//! The document model returned by the analysis service: one analysis job's
//! result, its pages and layout elements, and the generic typed fields that
//! each recognised document carries.
use vstd::prelude::*;

use crate::receipt::{BoundingRegion, Receipt};

verus! {

/// A JSON number, kept as its IEEE-754 binary64 bit pattern.
///
/// Numbers are carried through the pipeline unchanged; nothing here computes
/// with them, so their exact encoding is all that needs to be held.
#[derive(Debug, Clone, Copy, PartialEq, Eq, Structural)]
pub struct JsonNumber {
    pub bits: u64,
}

/// The bit pattern of the binary64 number `1.0`.
pub const ONE_BITS: u64 = 0x3ff0_0000_0000_0000;

impl JsonNumber {
    /// The number one, used where a count was not detected.
    pub fn one() -> (r: JsonNumber)
        ensures
            r.bits == ONE_BITS,
    {
        JsonNumber { bits: ONE_BITS }
    }
}

#[derive(Debug, Clone, PartialEq)]
pub struct ApiVersion(pub String);

#[derive(Debug, Clone, PartialEq)]
pub struct DocumentModelId(pub String);

#[derive(Debug, Clone, PartialEq)]
pub enum StringIndexType {
    TextElements,
    UnicodeCodePoint,
    Utf16CodeUnit,
}

#[derive(Debug, Clone, PartialEq)]
pub struct DocumentSpan {
    pub offset: i32,
    pub length: i32,
}

#[derive(Debug, Clone, PartialEq)]
pub struct Confidence(pub JsonNumber);

#[derive(Debug, Clone, PartialEq)]
pub struct DocumentWord {
    pub content: String,
    pub polygon: Option<BoundingPolygon>,
    pub span: DocumentSpan,
    pub confidence: Confidence,
}

#[derive(Debug, Clone, PartialEq)]
pub enum SelectionMarkState {
    Selected,
    Unselected,
}

#[derive(Debug, Clone, PartialEq)]
pub struct DocumentSelectionMarkState {
    pub state: SelectionMarkState,
}

#[derive(Debug, Clone, PartialEq)]
pub struct DocumentSelectionMark {
    pub state: DocumentSelectionMarkState,
    pub polygon: Option<BoundingPolygon>,
    pub span: DocumentSpan,
    pub confidence: Confidence,
}

#[derive(Debug, Clone, PartialEq)]
pub struct BoundingPolygon(pub Vec<i64>);

#[derive(Debug, Clone, PartialEq)]
pub struct DocumentLine {
    pub content: String,
    pub polygon: Option<BoundingPolygon>,
    pub spans: Vec<DocumentSpan>,
}

#[derive(Debug, Clone, PartialEq)]
pub enum DocumentAnnotationKind {
    Check,
    Cross,
}

#[derive(Debug, Clone, PartialEq)]
pub struct DocumentAnnotation {
    pub kind: DocumentAnnotationKind,
    pub polygon: Option<BoundingPolygon>,
    pub confidence: Confidence,
}

#[derive(Debug, Clone, PartialEq)]
pub enum DocumentBarcodeKind {
    QRCode,
    PDF417,
    UPCA,
    UPCE,
    Code39,
    Code128,
    EAN8,
    EAN13,
    DataBar,
    Code93,
    Codabar,
    DataBarExpanded,
    ITF,
    MicroQRCode,
    Aztec,
    DataMatrix,
    MaxiCode,
}

#[derive(Debug, Clone, PartialEq)]
pub struct DocumentBarcode {
    pub kind: DocumentBarcodeKind,
    pub value: String,
    pub polygon: Option<BoundingPolygon>,
    pub span: DocumentSpan,
    pub confidence: Confidence,
}

#[derive(Debug, Clone, PartialEq)]
pub enum DocumentFormulaKind {
    Inline,
    Display,
}

#[derive(Debug, Clone, PartialEq)]
pub struct DocumentFormula {
    pub kind: DocumentFormulaKind,
    pub value: String,
    pub polygon: Option<BoundingPolygon>,
    pub span: DocumentSpan,
    pub confidence: Confidence,
}

#[derive(Debug, Clone, PartialEq)]
pub enum LengthUnit {
    Pixel,
    Inch,
}

#[derive(Debug, Clone, PartialEq)]
pub struct DocumentPage {
    pub pageNumber: i32,
    pub spans: Vec<DocumentSpan>,
    pub angle: Option<JsonNumber>,
    pub width: Option<JsonNumber>,
    pub height: Option<JsonNumber>,
    pub unit: Option<LengthUnit>,
    pub words: Option<Vec<DocumentWord>>,
    pub selectionMarks: Option<Vec<DocumentSelectionMark>>,
    pub lines: Option<Vec<DocumentLine>>,
    pub annotations: Option<Vec<DocumentAnnotation>>,
    pub barcodes: Option<Vec<DocumentBarcode>>,
    pub formulas: Option<Vec<DocumentFormula>>,
}

#[derive(Debug, Clone, PartialEq)]
pub enum ParagraphRole {
    PageHeader,
    PageFooter,
    PageNumber,
    Title,
    SectionHeading,
    Footnote,
    FormulaBlock,
}

#[derive(Debug, Clone, PartialEq)]
pub struct DocumentParagraph {
    pub role: Option<ParagraphRole>,
    pub content: String,
    pub boundingRegions: Option<Vec<BoundingRegion>>,
    pub spans: Vec<DocumentSpan>,
}

#[derive(Debug, Clone, PartialEq)]
pub enum DocumentTableCellKind {
    Content,
    RowHeader,
    ColumnHeader,
    StubHead,
    Description,
}

#[derive(Debug, Clone, PartialEq)]
pub struct DocumentTableCell {
    pub kind: Option<DocumentTableCellKind>,
    pub rowIndex: i32,
    pub columnIndex: i32,
    pub rowSpan: Option<i32>,
    pub columnSpan: Option<i32>,
    pub content: String,
    pub boundingRegions: Option<Vec<BoundingRegion>>,
    pub spans: Vec<DocumentSpan>,
}

#[derive(Debug, Clone, PartialEq)]
pub struct DocumentTable {
    pub rowCount: i32,
    pub columnCount: i32,
    pub cells: Vec<DocumentTableCell>,
    pub boundingRegions: Option<Vec<BoundingRegion>>,
    pub spans: Vec<DocumentSpan>,
}

#[derive(Debug, Clone, PartialEq)]
pub struct DocumentKeyValueElement {
    pub content: String,
    pub boundingRegions: Option<Vec<BoundingRegion>>,
    pub spans: Vec<DocumentSpan>,
}

#[derive(Debug, Clone, PartialEq)]
pub struct DocumentKeyValuePair {
    pub key: DocumentKeyValueElement,
    pub value: Option<DocumentKeyValueElement>,
    pub confidence: Confidence,
}

#[derive(Debug, Clone, PartialEq)]
pub enum FontStyle {
    Normal,
    Italic,
}

#[derive(Debug, Clone, PartialEq)]
pub enum FontWeight {
    Normal,
    Bold,
}

#[derive(Debug, Clone, PartialEq)]
pub struct DocumentStyle {
    pub isHandwritten: Option<bool>,
    pub similarFontFamily: Option<String>,
    pub fontStyle: Option<FontStyle>,
    pub fontWeight: Option<FontWeight>,
    pub color: Option<String>,
    pub backgroundColor: Option<String>,
    pub spans: Vec<DocumentSpan>,
    pub confidence: Confidence,
}

#[derive(Debug, Clone, PartialEq)]
pub struct DocumentLanguage {
    pub locale: String,
    pub spans: Vec<DocumentSpan>,
    pub confidence: Confidence,
}

#[derive(Debug, Clone, PartialEq)]
pub struct DocType(pub String);

#[derive(Debug, Clone, PartialEq)]
pub struct Document {
    pub docType: DocType,
    pub boundingRegions: Vec<BoundingRegion>,
    pub spans: Vec<DocumentSpan>,
    pub fields: Receipt,
    pub confidence: Confidence,
}

#[derive(Debug, Clone, PartialEq)]
pub struct AnalyzeResult {
    pub apiVersion: ApiVersion,
    pub modelId: DocumentModelId,
    pub stringIndexType: StringIndexType,
    pub content: String,
    pub pages: Vec<DocumentPage>,
    pub paragraphs: Option<Vec<DocumentParagraph>>,
    pub tables: Option<Vec<DocumentTable>>,
    pub keyValuePairs: Option<Vec<DocumentKeyValuePair>>,
    pub styles: Option<Vec<DocumentStyle>>,
    pub languages: Option<Vec<DocumentLanguage>>,
    pub documents: Option<Vec<Document>>,
}

#[derive(Debug, Clone, PartialEq)]
pub struct AnalyzeResultOperation {
    pub status: String,
    pub createdDateTime: String,
    pub lastUpdatedDateTime: String,
    pub error: Option<String>,
    pub analyzeResult: Option<AnalyzeResult>,
}

#[derive(Debug)]
pub struct DocumentField {
    pub field_type: DocumentFieldType,
    pub value_string: Option<String>,
    pub value_date: Option<String>,
    pub value_time: Option<String>,
    pub value_phone_number: Option<String>,
    pub value_number: Option<JsonNumber>,
    pub value_integer: Option<i64>,
    pub value_selection_mark: Option<DocumentSelectionMarkState>,
    pub value_signature: Option<DocumentSignatureType>,
    pub value_country_region: Option<String>,
    pub value_array: Option<Vec<DocumentField>>,
    pub value_object: Option<std::collections::HashMap<String, DocumentField>>,
    pub value_currency: Option<CurrencyValue>,
    pub value_address: Option<AddressValue>,
    pub value_boolean: Option<bool>,
    pub content: Option<String>,
    pub bounding_regions: Option<Vec<BoundingRegion>>,
    pub spans: Option<Vec<DocumentSpan>>,
    pub confidence: Option<Confidence>,
}

impl DocumentField {
    /// Whether the value slot for kind `t` holds a value.
    pub open spec fn slot_filled(&self, t: FieldType) -> bool {
        match t {
            FieldType::String => self.value_string is Some,
            FieldType::Date => self.value_date is Some,
            FieldType::Time => self.value_time is Some,
            FieldType::PhoneNumber => self.value_phone_number is Some,
            FieldType::Number => self.value_number is Some,
            FieldType::Integer => self.value_integer is Some,
            FieldType::SelectionMark => self.value_selection_mark is Some,
            FieldType::CountryRegion => self.value_country_region is Some,
            FieldType::Signature => self.value_signature is Some,
            FieldType::Array => self.value_array is Some,
            FieldType::Object => self.value_object is Some,
            FieldType::Currency => self.value_currency is Some,
            FieldType::Address => self.value_address is Some,
            FieldType::Boolean => self.value_boolean is Some,
        }
    }

    /// Only the value slot that the field's declared kind names may hold a
    /// value.
    pub open spec fn kind_matches(&self) -> bool {
        forall|t: FieldType| #[trigger] self.slot_filled(t) ==> t == self.field_type.field_type
    }

    /// Whether the field was extracted: its declared kind's slot holds a
    /// value. A field whose slot is empty counts as not extracted, never as
    /// a default value.
    pub fn is_extracted(&self) -> (r: bool)
        ensures
            r == self.slot_filled(self.field_type.field_type),
    {
        match self.field_type.field_type {
            FieldType::String => self.value_string.is_some(),
            FieldType::Date => self.value_date.is_some(),
            FieldType::Time => self.value_time.is_some(),
            FieldType::PhoneNumber => self.value_phone_number.is_some(),
            FieldType::Number => self.value_number.is_some(),
            FieldType::Integer => self.value_integer.is_some(),
            FieldType::SelectionMark => self.value_selection_mark.is_some(),
            FieldType::CountryRegion => self.value_country_region.is_some(),
            FieldType::Signature => self.value_signature.is_some(),
            FieldType::Array => self.value_array.is_some(),
            FieldType::Object => self.value_object.is_some(),
            FieldType::Currency => self.value_currency.is_some(),
            FieldType::Address => self.value_address.is_some(),
            FieldType::Boolean => self.value_boolean.is_some(),
        }
    }
}

#[derive(Debug, Clone, PartialEq)]
pub struct DocumentFieldType {
    pub field_type: FieldType,
}

#[derive(Debug, Clone, PartialEq)]
pub enum FieldType {
    String,
    Date,
    Time,
    PhoneNumber,
    Number,
    Integer,
    SelectionMark,
    CountryRegion,
    Signature,
    Array,
    Object,
    Currency,
    Address,
    Boolean,
}

#[derive(Debug, Clone, PartialEq)]
pub enum DocumentSignatureType {
    Signed,
    Unsigned,
}

#[derive(Debug, Clone, PartialEq)]
pub struct CurrencyValue {
    pub amount: JsonNumber,
    pub currencySymbol: Option<String>,
    pub currencyCode: Option<String>,
}

#[derive(Debug, Clone, PartialEq)]
pub struct AddressValue {
    pub houseNumber: Option<String>,
    pub poBox: Option<String>,
    pub road: Option<String>,
    pub city: Option<String>,
    pub state: Option<String>,
    pub postalCode: Option<String>,
    pub countryRegion: Option<String>,
    pub streetAddress: Option<String>,
    pub unit: Option<String>,
    pub cityDistrict: Option<String>,
    pub stateDistrict: Option<String>,
    pub suburb: Option<String>,
    pub house: Option<String>,
    pub level: Option<String>,
}


} // verus!
