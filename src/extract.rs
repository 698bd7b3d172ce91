//! Line-item extraction: from the first document of an analysis result, the
//! merchant, the payment timestamp and one (name, count, unit price) line per
//! item that carries a price.
use vstd::prelude::*;
use vstd::string::StrSliceExecFns;

use crate::document::{AnalyzeResultOperation, JsonNumber, ONE_BITS};
use crate::receipt::{Receipt, ValueArray, ValueObject};
use crate::timestamp::{paid_at_of, parse_paid_at, PaidAt, TimestampError};

verus! {

/// Most lines kept from one receipt: the number of bind parameters that one
/// statement of the relational store accepts.
pub const BIND_LIMIT: usize = 65535;

/// The merchant whose typed transaction date is known to swap day and month;
/// for it the date is read from the raw text instead.
pub const DATE_SWAPPING_MERCHANT: &'static str = "netto";

/// One extracted line of a receipt.
#[derive(Debug, Clone, PartialEq)]
pub struct LineItem {
    pub name: String,
    pub count: JsonNumber,
    pub unit_price: JsonNumber,
}

/// A line as a value: its name, count and unit price.
pub type LineView = (Seq<char>, JsonNumber, JsonNumber);

impl View for LineItem {
    type V = LineView;

    open spec fn view(&self) -> LineView {
        (self.name@, self.count, self.unit_price)
    }
}

pub open spec fn lines_view(v: Seq<LineItem>) -> Seq<LineView> {
    v.map_values(|l: LineItem| l@)
}

/// The unit price of an item: its own unit price, else its total price.
pub open spec fn item_price(o: ValueObject) -> Option<JsonNumber> {
    match o.unit_price {
        Some(p) => Some(p),
        None => match o.total_price {
            Some(t) => Some(t.value_number),
            None => None,
        },
    }
}

/// The count of an item: its quantity, else one.
pub open spec fn item_count(o: ValueObject) -> JsonNumber {
    match o.quantity {
        Some(q) => q,
        None => JsonNumber { bits: ONE_BITS },
    }
}

/// The line that an item gives; none for an item without any price.
pub open spec fn line_of(v: ValueArray) -> Option<LineView> {
    match item_price(v.value_object) {
        Some(p) => Some((v.value_object.description.value_string@, item_count(v.value_object), p)),
        None => None,
    }
}

/// The lines of all priced items, in their order.
pub open spec fn extracted_lines(items: Seq<ValueArray>) -> Seq<LineView>
    decreases items.len(),
{
    if items.len() == 0 {
        Seq::empty()
    } else {
        let earlier = extracted_lines(items.drop_last());
        match line_of(items.last()) {
            Some(l) => earlier.push(l),
            None => earlier,
        }
    }
}

/// The first `BIND_LIMIT` elements of a sequence.
pub open spec fn capped<A>(s: Seq<A>) -> Seq<A> {
    if s.len() <= BIND_LIMIT {
        s
    } else {
        s.subrange(0, BIND_LIMIT as int)
    }
}

/// One line per item that has a unit price or a total price, in order, at
/// most `BIND_LIMIT` of them.
pub fn extract_line_items(items: &Vec<ValueArray>) -> (r: Vec<LineItem>)
    ensures
        lines_view(r@) == capped(extracted_lines(items@)),
{
    let mut out: Vec<LineItem> = Vec::new();
    let mut i: usize = 0;
    while i < items.len()
        invariant
            i <= items.len(),
            lines_view(out@) == capped(extracted_lines(items@.subrange(0, i as int))),
        decreases items.len() - i,
    {
        let ghost before = extracted_lines(items@.subrange(0, i as int));
        assert(items@.subrange(0, i + 1).drop_last() =~= items@.subrange(0, i as int));
        let o = &items[i].value_object;
        let price = match o.unit_price {
            Some(p) => Some(p),
            None => match &o.total_price {
                Some(t) => Some(t.value_number),
                None => None,
            },
        };
        if let Some(unit_price) = price {
            let count = match o.quantity {
                Some(q) => q,
                None => JsonNumber::one(),
            };
            if out.len() < BIND_LIMIT {
                let line = LineItem { name: o.description.value_string.clone(), count, unit_price };
                let ghost old_out = out@;
                out.push(line);
                assert(items@.subrange(0, i + 1).last() == items@[i as int]);
                assert(line_of(items@[i as int]) == Some(line@));
                assert(lines_view(out@) =~= lines_view(old_out).push(line@));
                assert(lines_view(out@) =~= capped(extracted_lines(items@.subrange(0, i + 1))));
            } else {
                assert(items@.subrange(0, i + 1).last() == items@[i as int]);
                let ghost after = extracted_lines(items@.subrange(0, i + 1));
                assert(after.subrange(0, BIND_LIMIT as int) =~= before.subrange(
                    0,
                    BIND_LIMIT as int,
                ));
            }
        } else {
            assert(items@.subrange(0, i + 1).last() == items@[i as int]);
        }
        i = i + 1;
    }
    assert(items@.subrange(0, items.len() as int) =~= items@);
    out
}

/// Whether `needle` occurs in `hay` as a contiguous run.
pub open spec fn is_infix(needle: Seq<char>, hay: Seq<char>) -> bool {
    exists|i: int|
        0 <= i && i + needle.len() <= hay.len() && #[trigger] hay.subrange(i, i + needle.len())
            == needle
}

/// The lower-case form of a text, by Unicode's case mapping.
pub uninterp spec fn lower_of(s: Seq<char>) -> Seq<char>;

/// Relies on `str::to_lowercase`: the result depends on the characters alone.
#[verifier::external_body]
fn lowercase(s: &str) -> (r: String)
    ensures
        r@ == lower_of(s@),
{
    s.to_lowercase()
}

/// Whether `needle` occurs in `hay` starting at character `i`.
fn matches_at(hay: &str, needle: &str, i: usize, hay_len: usize, needle_len: usize) -> (r: bool)
    requires
        hay_len == hay@.len(),
        needle_len == needle@.len(),
        i + needle_len <= hay_len,
    ensures
        r == (hay@.subrange(i as int, i + needle_len) == needle@),
{
    let mut j: usize = 0;
    while j < needle_len
        invariant
            hay_len == hay@.len(),
            needle_len == needle@.len(),
            i + needle_len <= hay_len,
            j <= needle_len,
            forall|k: int| 0 <= k < j ==> hay@[i + k] == needle@[k],
        decreases needle_len - j,
    {
        if hay.get_char(i + j) != needle.get_char(j) {
            assert(hay@.subrange(i as int, i + needle_len)[j as int] != needle@[j as int]);
            return false;
        }
        j = j + 1;
    }
    assert(hay@.subrange(i as int, i + needle_len) =~= needle@);
    true
}

/// Whether `needle` occurs in `hay` as a contiguous run of characters.
pub fn contains_text(hay: &str, needle: &str) -> (r: bool)
    ensures
        r == is_infix(needle@, hay@),
{
    let hay_len = hay.unicode_len();
    let needle_len = needle.unicode_len();
    if needle_len > hay_len {
        return false;
    }
    let last = hay_len - needle_len;
    let mut i: usize = 0;
    while i < last
        invariant
            hay_len == hay@.len(),
            needle_len == needle@.len(),
            last == hay_len - needle_len,
            i <= last,
            forall|k: int|
                0 <= k < i ==> #[trigger] hay@.subrange(k, k + needle_len) != needle@,
        decreases last - i,
    {
        if matches_at(hay, needle, i, hay_len, needle_len) {
            return true;
        }
        i = i + 1;
    }
    matches_at(hay, needle, last, hay_len, needle_len)
}

pub open spec fn date_swapping_merchant() -> Seq<char> {
    seq!['n', 'e', 't', 't', 'o']
}

/// Whether the raw date text is read in place of the typed date value: for
/// the merchant whose typed dates swap day and month, when the raw text holds
/// a hyphen.
pub open spec fn reads_raw_date(merchant: Seq<char>, raw_date: Seq<char>) -> bool {
    is_infix(seq!['-'], raw_date) && is_infix(date_swapping_merchant(), lower_of(merchant))
}

/// The date text of a receipt that the timestamp is built from.
pub open spec fn date_text(f: Receipt) -> Seq<char> {
    if reads_raw_date(f.merchant_name.value_string@, f.transaction_date.content@) {
        f.transaction_date.content@
    } else {
        f.transaction_date.value_date@
    }
}

/// Whether the raw date text is read in place of the typed date value,
/// given the merchant name already in lower case: the name holds the
/// date-swapping merchant's token and the raw date holds a hyphen.
pub fn uses_raw_date(lowered_merchant: &str, raw_date: &str) -> (r: bool)
    ensures
        r == (is_infix(seq!['-'], raw_date@) && is_infix(
            date_swapping_merchant(),
            lowered_merchant@,
        )),
{
    proof {
        reveal_strlit("-");
        reveal_strlit("netto");
        assert("-"@ =~= seq!['-']);
        assert(DATE_SWAPPING_MERCHANT@ =~= date_swapping_merchant());
    }
    contains_text(raw_date, "-") && contains_text(lowered_merchant, DATE_SWAPPING_MERCHANT)
}

/// Picks the transaction date text that a receipt's timestamp is built from.
pub fn transaction_date_text(f: &Receipt) -> (r: &String)
    ensures
        r@ == date_text(*f),
{
    let lowered = lowercase(f.merchant_name.value_string.as_str());
    if uses_raw_date(lowered.as_str(), f.transaction_date.content.as_str()) {
        &f.transaction_date.content
    } else {
        &f.transaction_date.value_date
    }
}

/// Why no receipt could be extracted from an analysis result.
#[derive(Debug, Clone, Copy, PartialEq, Eq, Structural)]
pub enum ExtractError {
    /// The result holds no `analyzeResult`.
    MissingAnalyzeResult,
    /// The analysis holds no `documents`.
    MissingDocuments,
    /// The `documents` list is empty.
    NoDocument,
    /// The transaction date and time give no timestamp.
    Timestamp(TimestampError),
}

/// What ingestion keeps of one receipt.
#[derive(Debug, Clone, PartialEq)]
pub struct ExtractedReceipt {
    pub merchant_name: String,
    pub paid_at: PaidAt,
    pub items: Vec<LineItem>,
}

impl View for ExtractedReceipt {
    type V = (Seq<char>, PaidAt, Seq<LineView>);

    open spec fn view(&self) -> (Seq<char>, PaidAt, Seq<LineView>) {
        (self.merchant_name@, self.paid_at, lines_view(self.items@))
    }
}

/// The receipt fields of the first document; the document level is required.
pub open spec fn first_receipt(op: AnalyzeResultOperation) -> Result<Receipt, ExtractError> {
    match op.analyzeResult {
        None => Err(ExtractError::MissingAnalyzeResult),
        Some(a) => match a.documents {
            None => Err(ExtractError::MissingDocuments),
            Some(d) => if d@.len() == 0 {
                Err(ExtractError::NoDocument)
            } else {
                Ok(d@[0].fields)
            },
        },
    }
}

/// The receipt that an analysis result gives: merchant, timestamp and lines.
pub open spec fn receipt_of(op: AnalyzeResultOperation) -> Result<
    (Seq<char>, PaidAt, Seq<LineView>),
    ExtractError,
> {
    match first_receipt(op) {
        Err(e) => Err(e),
        Ok(f) => match paid_at_of(date_text(f), f.transaction_time.value_time@) {
            Err(e) => Err(ExtractError::Timestamp(e)),
            Ok(p) => Ok(
                (f.merchant_name.value_string@, p, capped(extracted_lines(f.items.value_array@))),
            ),
        },
    }
}

pub open spec fn extraction_matches(
    r: Result<ExtractedReceipt, ExtractError>,
    op: AnalyzeResultOperation,
) -> bool {
    match r {
        Ok(e) => receipt_of(op) == Ok::<_, ExtractError>(e@),
        Err(e) => receipt_of(op) == Err::<(Seq<char>, PaidAt, Seq<LineView>), _>(e),
    }
}

/// Extracts the merchant, the payment timestamp and the priced lines of the
/// first document of an analysis result.
pub fn extract_receipt(op: &AnalyzeResultOperation) -> (r: Result<ExtractedReceipt, ExtractError>)
    ensures
        extraction_matches(r, *op),
{
    let analysis = match &op.analyzeResult {
        None => return Err(ExtractError::MissingAnalyzeResult),
        Some(a) => a,
    };
    let documents = match &analysis.documents {
        None => return Err(ExtractError::MissingDocuments),
        Some(d) => d,
    };
    if documents.len() == 0 {
        return Err(ExtractError::NoDocument);
    }
    let fields = &documents[0].fields;
    let items = extract_line_items(&fields.items.value_array);
    let date = transaction_date_text(fields);
    match parse_paid_at(date.as_str(), fields.transaction_time.value_time.as_str()) {
        Err(e) => Err(ExtractError::Timestamp(e)),
        Ok(paid_at) => Ok(
            ExtractedReceipt { merchant_name: fields.merchant_name.value_string.clone(), paid_at, items },
        ),
    }
}

/// Every line comes from an item with a price and every item with a price
/// gives a line: extraction is the priced items, in order, each turned into
/// its line.
pub proof fn lemma_lines_are_priced_items(items: Seq<ValueArray>)
    ensures
        extracted_lines(items) == items.filter(|v: ValueArray| line_of(v) is Some).map_values(
            |v: ValueArray| line_of(v)->0,
        ),
    decreases items.len(),
{
    reveal(Seq::filter);
    if items.len() > 0 {
        lemma_lines_are_priced_items(items.drop_last());
        let f = items.drop_last().filter(|v: ValueArray| line_of(v) is Some);
        assert(f.push(items.last()).map_values(|v: ValueArray| line_of(v)->0) =~= f.map_values(
            |v: ValueArray| line_of(v)->0,
        ).push(line_of(items.last())->0));
    } else {
        assert(items.filter(|v: ValueArray| line_of(v) is Some).map_values(
            |v: ValueArray| line_of(v)->0,
        ) =~= Seq::empty());
    }
}

/// An item with neither a unit price nor a total price gives no line; an item
/// with either gives one.
pub proof fn lemma_line_only_when_priced(v: ValueArray)
    ensures
        (line_of(v) is None) <==> (v.value_object.unit_price is None
            && (v.value_object.total_price is None)),
{
}

/// A priced item without a quantity is counted as one.
pub proof fn lemma_missing_quantity_counts_one(items: Seq<ValueArray>, i: int)
    requires
        0 <= i < items.len(),
        item_price(items[i].value_object) is Some,
        items[i].value_object.quantity is None,
    ensures
        (line_of(items[i]) is Some),
        line_of(items[i]).unwrap().1.bits == ONE_BITS,
        extracted_lines(items).contains(line_of(items[i])->0),
    decreases items.len(),
{
    if i < items.len() - 1 {
        lemma_missing_quantity_counts_one(items.drop_last(), i);
        let earlier = extracted_lines(items.drop_last());
        let j = choose|j: int| 0 <= j < earlier.len() && earlier[j] == line_of(items[i])->0;
        match line_of(items.last()) {
            Some(l) => {
                assert(earlier.push(l)[j] == earlier[j]);
            },
            None => {},
        }
    } else {
        let earlier = extracted_lines(items.drop_last());
        assert(earlier.push(line_of(items[i])->0)[earlier.len() as int] == line_of(items[i])->0);
    }
}

} // verus!
