//! The relational store of receipts, products and prices, held in memory:
//! one receipt per file hash, one product per name, one price row per
//! (receipt, product) pair. Identifiers are positions in their table.
use vstd::prelude::*;

use crate::document::{AnalyzeResultOperation, JsonNumber};
use crate::extract::{lines_view, receipt_of, ExtractedReceipt, LineView};
use crate::reconcile::{
    last_per_name, lemma_last_line_wins, lemma_price_rows_len, lemma_price_rows_unique,
    price_rows, rows_named,
};
use crate::repopulate::{
    entry_outcome, lemma_failures_skipped, outcome_matches, receipts_given,
    repopulation_outcomes, undecodable,
};
use crate::timestamp::PaidAt;

verus! {

/// A stored receipt.
#[derive(Debug, Clone, PartialEq)]
pub struct ReceiptRow {
    pub merchant_name: String,
    pub paid_at: PaidAt,
    pub file_hash: String,
}

/// The count and unit price of one product on one receipt.
#[derive(Debug, Clone, Copy, PartialEq, Eq, Structural)]
pub struct PriceRow {
    pub receipt_id: usize,
    pub product_id: usize,
    pub count: JsonNumber,
    pub unit_price: JsonNumber,
}

/// Why a receipt was not stored.
#[derive(Debug, Clone, Copy, PartialEq, Eq, Structural)]
pub enum PersistError {
    /// A receipt for the same file hash is already stored.
    DuplicateReceipt,
    /// The receipt table is full.
    TooManyReceipts,
    /// The product table could not take every name of the receipt.
    TooManyProducts,
}

/// The three tables.
#[derive(Debug, Clone, PartialEq)]
pub struct ReceiptStore {
    pub receipts: Vec<ReceiptRow>,
    pub products: Vec<String>,
    pub prices: Vec<PriceRow>,
}

/// Whether some stored receipt came from the file with hash `h`.
pub open spec fn has_file(receipts: Seq<ReceiptRow>, h: Seq<char>) -> bool {
    exists|i: int| 0 <= i < receipts.len() && #[trigger] receipts[i].file_hash@ == h
}

/// Whether some product carries the name `n`.
pub open spec fn has_product(products: Seq<String>, n: Seq<char>) -> bool {
    exists|i: int| 0 <= i < products.len() && #[trigger] products[i]@ == n
}

/// A stored receipt as values: merchant name, payment time, file hash.
pub type ReceiptView = (Seq<char>, PaidAt, Seq<char>);

/// A price row as values: receipt identifier, product name, count, unit price.
pub type PriceView = (int, Seq<char>, JsonNumber, JsonNumber);

/// The three tables as values; price rows name their product.
pub type StoreView = (Seq<ReceiptView>, Seq<Seq<char>>, Seq<PriceView>);

pub open spec fn receipt_view(r: ReceiptRow) -> ReceiptView {
    (r.merchant_name@, r.paid_at, r.file_hash@)
}

pub open spec fn names_view(products: Seq<String>) -> Seq<Seq<char>> {
    products.map_values(|s: String| s@)
}

pub open spec fn price_view(p: PriceRow, products: Seq<String>) -> PriceView {
    (p.receipt_id as int, products[p.product_id as int]@, p.count, p.unit_price)
}

impl View for ReceiptStore {
    type V = StoreView;

    open spec fn view(&self) -> StoreView {
        (
            self.receipts@.map_values(|r: ReceiptRow| receipt_view(r)),
            names_view(self.products@),
            self.prices@.map_values(|p: PriceRow| price_view(p, self.products@)),
        )
    }
}

/// Whether some stored receipt came from the file with hash `h`.
pub open spec fn stores_file(receipts: Seq<ReceiptView>, h: Seq<char>) -> bool {
    exists|i: int| 0 <= i < receipts.len() && #[trigger] receipts[i].2 == h
}

/// The product names after the names of `rows` are added: each name not
/// yet present is appended, in order.
pub open spec fn with_names(products: Seq<Seq<char>>, rows: Seq<LineView>) -> Seq<Seq<char>>
    decreases rows.len(),
{
    if rows.len() == 0 {
        products
    } else {
        let earlier = with_names(products, rows.drop_last());
        if earlier.contains(rows.last().0) {
            earlier
        } else {
            earlier.push(rows.last().0)
        }
    }
}

/// The price rows of receipt `id`, one per row.
pub open spec fn rows_priced(id: int, rows: Seq<LineView>) -> Seq<PriceView> {
    rows.map_values(|r: LineView| (id, r.0, r.1, r.2))
}

/// The tables after storing a receipt (merchant, payment time, lines) of the
/// file with hash `h`, or why it is refused: the receipt row is appended,
/// the names of its price rows are added to the products, and its price
/// rows are appended.
pub open spec fn persisted(
    s: StoreView,
    merchant: Seq<char>,
    paid_at: PaidAt,
    lines: Seq<LineView>,
    h: Seq<char>,
) -> Result<StoreView, PersistError> {
    if stores_file(s.0, h) {
        Err(PersistError::DuplicateReceipt)
    } else if s.0.len() >= usize::MAX {
        Err(PersistError::TooManyReceipts)
    } else if s.1.len() + lines.len() >= usize::MAX {
        Err(PersistError::TooManyProducts)
    } else {
        let rows = last_per_name(lines);
        Ok(
            (
                s.0.push((merchant, paid_at, h)),
                with_names(s.1, rows),
                s.2 + rows_priced(s.0.len() as int, rows),
            ),
        )
    }
}

pub open spec fn persist_matches(
    r: Result<usize, PersistError>,
    old_view: StoreView,
    new_view: StoreView,
    receipt: ExtractedReceipt,
    h: Seq<char>,
) -> bool {
    match persisted(old_view, receipt.merchant_name@, receipt.paid_at, lines_view(receipt.items@), h) {
        Ok(s) => r == Ok::<usize, PersistError>(old_view.0.len() as usize) && new_view == s,
        Err(e) => r == Err::<usize, PersistError>(e) && new_view == old_view,
    }
}

impl ReceiptStore {
    /// File hashes and product names are unique; every price row points at
    /// a stored receipt and a stored product; no two price rows share a
    /// (receipt, product) pair.
    pub open spec fn wf(&self) -> bool {
        &&& forall|i: int, j: int|
            0 <= i < j < self.receipts@.len() ==> #[trigger] self.receipts@[i].file_hash@
                != #[trigger] self.receipts@[j].file_hash@
        &&& forall|i: int, j: int|
            0 <= i < j < self.products@.len() ==> #[trigger] self.products@[i]@
                != #[trigger] self.products@[j]@
        &&& forall|k: int|
            0 <= k < self.prices@.len() ==> #[trigger] self.prices@[k].receipt_id
                < self.receipts@.len() && self.prices@[k].product_id < self.products@.len()
        &&& forall|k: int, l: int|
            0 <= k < l < self.prices@.len() ==> (#[trigger] self.prices@[k].receipt_id,
            self.prices@[k].product_id) != (#[trigger] self.prices@[l].receipt_id,
            self.prices@[l].product_id)
    }

    /// An empty store.
    pub fn new() -> (r: ReceiptStore)
        ensures
            r.wf(),
            r.receipts@.len() == 0,
            r.products@.len() == 0,
            r.prices@.len() == 0,
    {
        ReceiptStore { receipts: Vec::new(), products: Vec::new(), prices: Vec::new() }
    }

    /// Removes every receipt, product and price.
    pub fn clear(&mut self)
        ensures
            final(self).wf(),
            final(self).receipts@.len() == 0,
            final(self).products@.len() == 0,
            final(self).prices@.len() == 0,
    {
        self.receipts = Vec::new();
        self.products = Vec::new();
        self.prices = Vec::new();
    }

    /// Whether a receipt for the file with this hash is stored.
    pub fn contains_file(&self, file_hash: &String) -> (r: bool)
        ensures
            r == has_file(self.receipts@, file_hash@),
    {
        let mut i: usize = 0;
        while i < self.receipts.len()
            invariant
                i <= self.receipts@.len(),
                forall|k: int| 0 <= k < i ==> #[trigger] self.receipts@[k].file_hash@ != file_hash@,
            decreases self.receipts@.len() - i,
        {
            if self.receipts[i].file_hash == *file_hash {
                return true;
            }
            i = i + 1;
        }
        false
    }

    /// The identifier of the product with this name, added when missing.
    fn product_id(&mut self, name: &String) -> (r: usize)
        requires
            old(self).wf(),
            old(self).products@.len() < usize::MAX,
        ensures
            final(self).wf(),
            final(self).receipts == old(self).receipts,
            final(self).prices == old(self).prices,
            r < final(self).products@.len(),
            final(self).products@[r as int]@ == name@,
            has_product(old(self).products@, name@) ==> final(self).products@ == old(
                self,
            ).products@,
            !has_product(old(self).products@, name@) ==> final(self).products@.len() == old(
                self,
            ).products@.len() + 1 && final(self).products@.drop_last() == old(self).products@
                && r == old(self).products@.len(),
    {
        let mut i: usize = 0;
        while i < self.products.len()
            invariant
                i <= self.products@.len(),
                *self == *old(self),
                self.wf(),
                forall|k: int| 0 <= k < i ==> #[trigger] self.products@[k]@ != name@,
            decreases self.products@.len() - i,
        {
            if self.products[i] == *name {
                return i;
            }
            i = i + 1;
        }
        let ghost before = *self;
        self.products.push(name.clone());
        assert(self.products@.drop_last() =~= before.products@);
        assert forall|a: int, b: int| 0 <= a < b < self.products@.len() implies #[trigger] self.products@[a]@
            != #[trigger] self.products@[b]@ by {
            if b == self.products@.len() - 1 {
                assert(before.products@[a]@ != name@);
            } else {
                assert(self.products@[a] == before.products@[a]);
                assert(self.products@[b] == before.products@[b]);
            }
        }
        assert forall|k: int| 0 <= k < self.prices@.len() implies #[trigger] self.prices@[k].receipt_id
            < self.receipts@.len() && self.prices@[k].product_id < self.products@.len() by {
            assert(before.prices@[k].receipt_id < before.receipts@.len());
            assert(before.prices@[k].product_id < before.products@.len());
        }
        i
    }

    /// Stores one receipt of a file: its row, every product name not yet
    /// stored, and one price row per product of the receipt holding the last
    /// line with that name. A file whose hash is already stored is refused
    /// and the store is left as it was.
    #[verifier::rlimit(100)]
    pub fn persist(&mut self, receipt: &ExtractedReceipt, file_hash: &String) -> (r: Result<
        usize,
        PersistError,
    >)
        requires
            old(self).wf(),
        ensures
            final(self).wf(),
            persist_matches(r, old(self)@, final(self)@, *receipt, file_hash@),
            r is Err ==> *final(self) == *old(self),
            // once stored, the same file is refused from then on
            r is Ok ==> stores_file(final(self)@.0, file_hash@),
    {
        proof {
            lemma_stores_file_view(self.receipts@, file_hash@);
        }
        if self.contains_file(file_hash) {
            return Err(PersistError::DuplicateReceipt);
        }
        if self.receipts.len() == usize::MAX {
            return Err(PersistError::TooManyReceipts);
        }
        if self.products.len() >= usize::MAX - receipt.items.len() {
            return Err(PersistError::TooManyProducts);
        }
        let rows = price_rows(&receipt.items);
        proof {
            let s = lines_view(receipt.items@);
            lemma_price_rows_len(s);
            assert forall|n: Seq<char>| #[trigger] rows_named(lines_view(rows@), n) <= 1 by {
                lemma_price_rows_unique(s, n);
            }
            assert forall|a: int, b: int| 0 <= a < b < rows@.len() implies #[trigger] rows@[a].name@
                != #[trigger] rows@[b].name@ by {
                lemma_distinct_names(lines_view(rows@), a, b);
                assert(lines_view(rows@)[a] == rows@[a]@);
                assert(lines_view(rows@)[b] == rows@[b]@);
            }
        }
        let ghost old_self = *self;
        let id = self.receipts.len();
        let row = ReceiptRow {
            merchant_name: receipt.merchant_name.clone(),
            paid_at: receipt.paid_at,
            file_hash: file_hash.clone(),
        };
        self.receipts.push(row);
        proof {
            assert forall|a: int, b: int| 0 <= a < b < self.receipts@.len() implies #[trigger] self.receipts@[a].file_hash@
                != #[trigger] self.receipts@[b].file_hash@ by {
                if b == id {
                    assert(self.receipts@[a] == old_self.receipts@[a]);
                } else {
                    assert(self.receipts@[a] == old_self.receipts@[a]);
                    assert(self.receipts@[b] == old_self.receipts@[b]);
                }
            }
            assert forall|k: int| 0 <= k < self.prices@.len() implies #[trigger] self.prices@[k].receipt_id
                < self.receipts@.len() && self.prices@[k].product_id < self.products@.len() by {
                assert(old_self.prices@[k].receipt_id < old_self.receipts@.len());
            }
        }
        let mut k: usize = 0;
        while k < rows.len()
            invariant
                self.wf(),
                k <= rows@.len(),
                id == old_self.receipts@.len(),
                self.receipts@.len() == id + 1,
                self.receipts@.drop_last() == old_self.receipts@,
                self.receipts@[id as int].merchant_name@ == receipt.merchant_name@,
                self.receipts@[id as int].paid_at == receipt.paid_at,
                self.receipts@[id as int].file_hash@ == file_hash@,
                self.products@.len() <= old_self.products@.len() + k,
                old_self.products@.len() + rows@.len() < usize::MAX,
                old_self.products@.is_prefix_of(self.products@),
                self.prices@.len() == old_self.prices@.len() + k,
                old_self.prices@.is_prefix_of(self.prices@),
                forall|a: int, b: int| 0 <= a < b < rows@.len() ==> #[trigger] rows@[a].name@
                    != #[trigger] rows@[b].name@,
                forall|q: int|
                    0 <= q < k ==> {
                        let p = #[trigger] self.prices@[old_self.prices@.len() + q];
                        &&& p.receipt_id == id
                        &&& self.products@[p.product_id as int]@ == rows@[q].name@
                        &&& p.count == rows@[q].count
                        &&& p.unit_price == rows@[q].unit_price
                    },
                forall|q: int|
                    0 <= q < old_self.prices@.len() ==> #[trigger] self.prices@[q].receipt_id < id,
                names_view(self.products@) == with_names(
                    names_view(old_self.products@),
                    lines_view(rows@).subrange(0, k as int),
                ),
            decreases rows@.len() - k,
        {
            let ghost before = *self;
            proof {
                lemma_has_product_view(before.products@, rows@[k as int].name@);
            }
            let pid = self.product_id(&rows[k].name);
            proof {
                let ls = lines_view(rows@);
                assert(ls.subrange(0, k + 1).drop_last() =~= ls.subrange(0, k as int));
                assert(ls.subrange(0, k + 1).last() == ls[k as int]);
                assert(ls[k as int].0 == rows@[k as int].name@);
                if has_product(before.products@, rows@[k as int].name@) {
                    assert(names_view(self.products@) == names_view(before.products@));
                } else {
                    assert(self.products@.drop_last() == before.products@);
                    assert forall|q: int| 0 <= q < before.products@.len() implies self.products@[q]
                        == before.products@[q] by {
                        assert(self.products@.drop_last()[q] == self.products@[q]);
                    }
                    assert(names_view(self.products@) =~= names_view(before.products@).push(
                        rows@[k as int].name@,
                    ));
                }
            }
            let price = PriceRow {
                receipt_id: id,
                product_id: pid,
                count: rows[k].count,
                unit_price: rows[k].unit_price,
            };
            let ghost mid = *self;
            self.prices.push(price);
            proof {
                let n = old_self.prices@.len();
                assert(before.products@.is_prefix_of(mid.products@));
                assert forall|q: int| 0 <= q < k implies {
                    let p = #[trigger] self.prices@[n + q];
                    &&& p.receipt_id == id
                    &&& self.products@[p.product_id as int]@ == rows@[q].name@
                    &&& p.count == rows@[q].count
                    &&& p.unit_price == rows@[q].unit_price
                } by {
                    assert(self.prices@[n + q] == before.prices@[n + q]);
                    assert(before.products@[before.prices@[n + q].product_id as int]
                        == mid.products@[before.prices@[n + q].product_id as int]);
                }
                assert(self.prices@[n + k as int] == price);
                assert forall|a: int, b: int| 0 <= a < b < self.prices@.len() implies (
                #[trigger] self.prices@[a].receipt_id, self.prices@[a].product_id) != (
                #[trigger] self.prices@[b].receipt_id, self.prices@[b].product_id) by {
                    if b == self.prices@.len() - 1 {
                        assert(self.prices@[a] == before.prices@[a]);
                        if a < n {
                            assert(before.prices@[a] == old_self.prices@[a]);
                        } else {
                            let q = a - n;
                            assert(self.prices@[n + q] == before.prices@[n + q]);
                            assert(rows@[q].name@ != rows@[k as int].name@);
                        }
                    } else {
                        assert(self.prices@[a] == before.prices@[a]);
                        assert(self.prices@[b] == before.prices@[b]);
                    }
                }
                assert forall|q: int| 0 <= q < n implies #[trigger] self.prices@[q].receipt_id
                    < id by {
                    assert(self.prices@[q] == before.prices@[q]);
                }
                assert forall|q: int| 0 <= q < self.prices@.len() implies #[trigger] self.prices@[q].receipt_id
                    < self.receipts@.len() && self.prices@[q].product_id < self.products@.len() by {
                    if q < self.prices@.len() - 1 {
                        assert(self.prices@[q] == before.prices@[q]);
                        assert(before.prices@[q].receipt_id < before.receipts@.len());
                        assert(before.prices@[q].product_id < before.products@.len());
                        assert(before.products@.len() <= mid.products@.len());
                    } else {
                        assert(self.prices@[q] == price);
                        assert(pid < mid.products@.len());
                    }
                }
                assert(old_self.prices@.is_prefix_of(self.prices@)) by {
                    assert forall|q: int| 0 <= q < n implies self.prices@[q] == old_self.prices@[q] by {
                        assert(self.prices@[q] == before.prices@[q]);
                    }
                }
                assert(old_self.products@.is_prefix_of(self.products@)) by {
                    assert forall|q: int| 0 <= q < old_self.products@.len() implies self.products@[q]
                        == old_self.products@[q] by {
                        assert(before.products@[q] == old_self.products@[q]);
                    }
                }
            }
            k = k + 1;
        }
        proof {
            let rs = last_per_name(lines_view(receipt.items@));
            assert(lines_view(rows@) == rs);
            assert forall|q: int| 0 <= q < rs.len() implies {
                let p = #[trigger] self.prices@[old_self.prices@.len() + q];
                &&& p.receipt_id == id
                &&& self.products@[p.product_id as int]@ == rs[q].0
                &&& p.count == rs[q].1
                &&& p.unit_price == rs[q].2
            } by {
                assert(rs[q] == rows@[q]@);
            }
            assert(lines_view(rows@).subrange(0, rows@.len() as int) =~= rs);
            let nv = old_self@;
            let rv = self.receipts@.map_values(|r: ReceiptRow| receipt_view(r));
            assert(rv =~= nv.0.push((receipt.merchant_name@, receipt.paid_at, file_hash@))) by {
                assert forall|q: int| 0 <= q < id implies rv[q] == nv.0[q] by {
                    assert(self.receipts@.drop_last()[q] == self.receipts@[q]);
                }
            }
            let n = old_self.prices@.len();
            let pv = self.prices@.map_values(|p: PriceRow| price_view(p, self.products@));
            assert(pv =~= nv.2 + rows_priced(id as int, rs)) by {
                assert forall|q: int| 0 <= q < pv.len() implies pv[q] == (nv.2 + rows_priced(
                    id as int,
                    rs,
                ))[q] by {
                    if q < n {
                        assert(self.prices@[q] == old_self.prices@[q]);
                        assert(old_self.prices@[q].receipt_id < old_self.receipts@.len());
                        let pid = old_self.prices@[q].product_id as int;
                        assert(pid < old_self.products@.len());
                        assert(self.products@[pid] == old_self.products@[pid]);
                    } else {
                        let p = self.prices@[n + (q - n)];
                        assert(p.receipt_id == id);
                    }
                }
            }
            assert(persisted(nv, receipt.merchant_name@, receipt.paid_at, lines_view(receipt.items@), file_hash@)
                == Ok::<StoreView, PersistError>((rv, names_view(self.products@), pv))) by {
                lemma_stores_file_view(old_self.receipts@, file_hash@);
            }
            lemma_stores_file_view(self.receipts@, file_hash@);
            assert(self.receipts@[id as int].file_hash@ == file_hash@);
        }
        Ok(id)
    }
}

/// The tables after a rebuild from the first `n` cached entries, starting
/// empty: each entry that gives a receipt is stored under its own hash as
/// `persist` would store it; an entry that gives none, or that `persist`
/// refuses, leaves the tables as they were.
pub open spec fn repopulated(
    entries: Seq<Option<AnalyzeResultOperation>>,
    hashes: Seq<String>,
    n: nat,
) -> StoreView
    decreases n,
{
    if n == 0 {
        (Seq::empty(), Seq::empty(), Seq::empty())
    } else {
        let s = repopulated(entries, hashes, (n - 1) as nat);
        match entry_outcome(entries[n - 1]) {
            Ok(v) => match persisted(s, v.0, v.1, v.2, hashes[n - 1]@) {
                Ok(t) => t,
                Err(_) => s,
            },
            Err(_) => s,
        }
    }
}

/// The receipts of the first `n` entries that give one, in order, each
/// under its own hash.
pub open spec fn given_receipts(
    entries: Seq<Option<AnalyzeResultOperation>>,
    hashes: Seq<String>,
    n: nat,
) -> Seq<ReceiptView>
    decreases n,
{
    if n == 0 {
        Seq::empty()
    } else {
        let earlier = given_receipts(entries, hashes, (n - 1) as nat);
        match entry_outcome(entries[n - 1]) {
            Ok(v) => earlier.push((v.0, v.1, hashes[n - 1]@)),
            Err(_) => earlier,
        }
    }
}

/// How many lines the receipts of the first `n` entries hold together.
pub open spec fn lines_given(entries: Seq<Option<AnalyzeResultOperation>>, n: nat) -> nat
    decreases n,
{
    if n == 0 {
        0
    } else {
        lines_given(entries, (n - 1) as nat) + match entry_outcome(entries[n - 1]) {
            Ok(v) => v.2.len(),
            Err(_) => 0,
        }
    }
}

/// No two cache keys are equal.
pub open spec fn distinct_hashes(hashes: Seq<String>) -> bool {
    forall|i: int, j: int| 0 <= i < j < hashes.len() ==> #[trigger] hashes[i]@ != #[trigger] hashes[j]@
}

impl ReceiptStore {
    /// Rebuilds the store from cached entries: clears every table, then
    /// stores the receipt of each entry that gives one, in order, under its
    /// own hash. An entry that does not decode or gives no receipt is skipped
    /// and the others go on. `entries[i]` is the decoded text cached under
    /// `hashes[i]`; returns how many receipts were stored.
    pub fn repopulate(
        &mut self,
        hashes: &Vec<String>,
        entries: Vec<Option<AnalyzeResultOperation>>,
    ) -> (r: usize)
        requires
            hashes@.len() == entries@.len(),
        ensures
            final(self).wf(),
            final(self)@ == repopulated(entries@, hashes@, entries@.len()),
            r == final(self).receipts@.len(),
    {
        self.clear();
        let n = entries.len();
        let ghost es = entries@;
        let outcomes = repopulation_outcomes(entries);
        proof {
            assert(self@ =~= repopulated(es, hashes@, 0));
        }
        let mut i: usize = 0;
        while i < n
            invariant
                self.wf(),
                n == outcomes@.len() == hashes@.len() == es.len(),
                i <= n,
                forall|k: int| 0 <= k < n ==> outcome_matches(#[trigger] outcomes@[k], es[k]),
                self@ == repopulated(es, hashes@, i as nat),
            decreases n - i,
        {
            assert(outcome_matches(outcomes@[i as int], es[i as int]));
            if let Ok(receipt) = &outcomes[i] {
                let _ = self.persist(receipt, &hashes[i]);
            }
            i = i + 1;
        }
        self.receipts.len()
    }
}

proof fn lemma_with_names_len(products: Seq<Seq<char>>, rows: Seq<LineView>)
    ensures
        with_names(products, rows).len() <= products.len() + rows.len(),
    decreases rows.len(),
{
    if rows.len() > 0 {
        lemma_with_names_len(products, rows.drop_last());
    }
}

/// A rebuild from cache entries under distinct hashes stores exactly the
/// receipts of the entries that give one, in order, each under its own hash,
/// provided the tables can hold them all. So of N entries, M of which do not
/// decode while every other one gives a receipt, exactly N - M are stored,
/// whatever the tables held before.
pub proof fn lemma_repopulated_receipts(
    entries: Seq<Option<AnalyzeResultOperation>>,
    hashes: Seq<String>,
    n: nat,
)
    requires
        n <= entries.len() == hashes.len(),
        distinct_hashes(hashes),
        lines_given(entries, n) + n < usize::MAX,
    ensures
        repopulated(entries, hashes, n).0 == given_receipts(entries, hashes, n),
        repopulated(entries, hashes, n).1.len() <= lines_given(entries, n),
        given_receipts(entries, hashes, n).len() == receipts_given(entries.subrange(0, n as int)),
        (forall|i: int|
            0 <= i < entries.len() && #[trigger] entries[i] is Some ==> receipt_of(
                entries[i]->0,
            ) is Ok) && n == entries.len() ==> given_receipts(entries, hashes, n).len()
            == entries.len() - undecodable(entries),
    decreases n,
{
    if n > 0 {
        let m = (n - 1) as nat;
        lemma_repopulated_receipts(entries, hashes, m);
        let s = repopulated(entries, hashes, m);
        assert(entries.subrange(0, n as int).drop_last() =~= entries.subrange(0, m as int));
        assert(entries.subrange(0, n as int).last() == entries[m as int]);
        lemma_given_hashes(entries, hashes, m);
        match entry_outcome(entries[m as int]) {
            Ok(v) => {
                assert(!stores_file(s.0, hashes[m as int]@)) by {
                    if stores_file(s.0, hashes[m as int]@) {
                        let r = choose|r: int| 0 <= r < s.0.len() && #[trigger] s.0[r].2
                            == hashes[m as int]@;
                        assert(among_first(hashes, s.0[r].2, m as int));
                        let j = choose|j: int| 0 <= j < m && #[trigger] hashes[j]@ == s.0[r].2;
                        assert(hashes[j]@ != hashes[m as int]@);
                    }
                }
                lemma_given_len(entries, hashes, m);
                lemma_price_rows_len(v.2);
                lemma_with_names_len(s.1, last_per_name(v.2));
            },
            Err(_) => {},
        }
    }
    if n == entries.len() && (forall|i: int|
        0 <= i < entries.len() && #[trigger] entries[i] is Some ==> receipt_of(
            entries[i]->0,
        ) is Ok) {
        lemma_failures_skipped(entries);
        assert(entries.subrange(0, n as int) =~= entries);
    }
}

proof fn lemma_given_len(entries: Seq<Option<AnalyzeResultOperation>>, hashes: Seq<String>, n: nat)
    ensures
        given_receipts(entries, hashes, n).len() <= n,
    decreases n,
{
    if n > 0 {
        lemma_given_len(entries, hashes, (n - 1) as nat);
    }
}

/// Whether `h` is among the first `n` keys.
pub open spec fn among_first(hashes: Seq<String>, h: Seq<char>, n: int) -> bool {
    exists|j: int| 0 <= j < n && #[trigger] hashes[j]@ == h
}

proof fn lemma_given_hashes(entries: Seq<Option<AnalyzeResultOperation>>, hashes: Seq<String>, n: nat)
    requires
        n <= entries.len() == hashes.len(),
    ensures
        forall|r: int|
            0 <= r < given_receipts(entries, hashes, n).len() ==> #[trigger] among_first(
                hashes,
                given_receipts(entries, hashes, n)[r].2,
                n as int,
            ),
    decreases n,
{
    if n > 0 {
        let m = (n - 1) as nat;
        lemma_given_hashes(entries, hashes, m);
        let g = given_receipts(entries, hashes, m);
        let g2 = given_receipts(entries, hashes, n);
        assert forall|r: int| 0 <= r < g2.len() implies #[trigger] among_first(
            hashes,
            g2[r].2,
            n as int,
        ) by {
            if r < g.len() {
                assert(g2[r] == g[r]);
                assert(among_first(hashes, g[r].2, m as int));
                let j = choose|j: int| 0 <= j < m && #[trigger] hashes[j]@ == g[r].2;
                assert(hashes[j]@ == g2[r].2);
            } else {
                assert(hashes[m as int]@ == g2[r].2);
            }
        }
    }
}

proof fn lemma_stores_file_view(receipts: Seq<ReceiptRow>, h: Seq<char>)
    ensures
        has_file(receipts, h) == stores_file(
            receipts.map_values(|r: ReceiptRow| receipt_view(r)),
            h,
        ),
{
    let v = receipts.map_values(|r: ReceiptRow| receipt_view(r));
    if has_file(receipts, h) {
        let i = choose|i: int| 0 <= i < receipts.len() && #[trigger] receipts[i].file_hash@ == h;
        assert(v[i].2 == h);
    }
    if stores_file(v, h) {
        let i = choose|i: int| 0 <= i < v.len() && #[trigger] v[i].2 == h;
        assert(receipts[i].file_hash@ == h);
    }
}

proof fn lemma_has_product_view(products: Seq<String>, n: Seq<char>)
    ensures
        has_product(products, n) == names_view(products).contains(n),
{
    let v = names_view(products);
    if has_product(products, n) {
        let i = choose|i: int| 0 <= i < products.len() && #[trigger] products[i]@ == n;
        assert(v[i] == n);
    }
    if v.contains(n) {
        let i = choose|i: int| 0 <= i < v.len() && v[i] == n;
        assert(products[i]@ == n);
    }
}

proof fn lemma_with_names_contains(products: Seq<Seq<char>>, rows: Seq<LineView>, k: int)
    requires
        0 <= k < rows.len(),
    ensures
        with_names(products, rows).contains(rows[k].0),
    decreases rows.len(),
{
    let earlier = with_names(products, rows.drop_last());
    if k < rows.len() - 1 {
        assert(rows.drop_last()[k] == rows[k]);
        lemma_with_names_contains(products, rows.drop_last(), k);
        if !earlier.contains(rows.last().0) {
            let j = choose|j: int| 0 <= j < earlier.len() && earlier[j] == rows[k].0;
            assert(earlier.push(rows.last().0)[j] == rows[k].0);
        }
    } else if !earlier.contains(rows.last().0) {
        assert(earlier.push(rows.last().0)[earlier.len() as int] == rows[k].0);
    }
}

/// When a receipt is stored, the last of its lines with a given name is
/// stored too: its name is a product, and among the new receipt's price
/// rows exactly one carries that name, holding that line's count and unit
/// price.
pub proof fn lemma_stored_line(
    s: StoreView,
    merchant: Seq<char>,
    paid_at: PaidAt,
    lines: Seq<LineView>,
    h: Seq<char>,
    i: int,
)
    requires
        persisted(s, merchant, paid_at, lines, h) is Ok,
        0 <= i < lines.len(),
        forall|j: int| i < j < lines.len() ==> #[trigger] lines[j].0 != lines[i].0,
    ensures
        ({
            let t = persisted(s, merchant, paid_at, lines, h)->Ok_0;
            let added = t.2.subrange(s.2.len() as int, t.2.len() as int);
            &&& t.1.contains(lines[i].0)
            &&& added == rows_priced(s.0.len() as int, last_per_name(lines))
            &&& added.contains((s.0.len() as int, lines[i].0, lines[i].1, lines[i].2))
            &&& rows_named(last_per_name(lines), lines[i].0) == 1
        }),
{
    let rows = last_per_name(lines);
    let t = persisted(s, merchant, paid_at, lines, h)->Ok_0;
    let id = s.0.len() as int;
    lemma_last_line_wins(lines, i);
    let k = choose|k: int| 0 <= k < rows.len() && rows[k] == lines[i];
    lemma_with_names_contains(s.1, rows, k);
    let added = t.2.subrange(s.2.len() as int, t.2.len() as int);
    assert(added =~= rows_priced(id, rows));
    assert(added[k] == (id, lines[i].0, lines[i].1, lines[i].2));
}

/// Two price rows of one receipt never share a name.
proof fn lemma_distinct_names(rows: Seq<LineView>, a: int, b: int)
    requires
        forall|n: Seq<char>| #[trigger] rows_named(rows, n) <= 1,
        0 <= a < b < rows.len(),
    ensures
        rows[a].0 != rows[b].0,
{
    if rows[a].0 == rows[b].0 {
        lemma_two_named(rows, a, b);
        assert(rows_named(rows, rows[a].0) <= 1);
    }
}

proof fn lemma_two_named(s: Seq<LineView>, a: int, b: int)
    requires
        0 <= a < b < s.len(),
        s[a].0 == s[b].0,
    ensures
        rows_named(s, s[a].0) >= 2,
    decreases s.len(),
{
    let n = s[a].0;
    if b < s.len() - 1 {
        assert(s.drop_last()[a] == s[a] && s.drop_last()[b] == s[b]);
        lemma_two_named(s.drop_last(), a, b);
    } else {
        assert(s.drop_last()[a] == s[a]);
        lemma_one_named(s.drop_last(), a);
    }
}

proof fn lemma_one_named(s: Seq<LineView>, a: int)
    requires
        0 <= a < s.len(),
    ensures
        rows_named(s, s[a].0) >= 1,
    decreases s.len(),
{
    if a < s.len() - 1 {
        assert(s.drop_last()[a] == s[a]);
        lemma_one_named(s.drop_last(), a);
    }
}

} // verus!
