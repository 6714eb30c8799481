//! What a report shows: the products in SKU order, the totals over the
//! catalog, the weekly counters and the session log.

use crate::inventory::InventoryApp;
use crate::log::LogType;
use crate::product::{Product, ProductView};
use vstd::prelude::*;
use vstd::utf8::encode_utf8;

verus! {

/// The three totals of a report.
#[derive(Debug, Clone, Copy, PartialEq, Eq, Structural)]
pub enum Tally {
    /// Units sold.
    Sold,
    /// Units ever produced: those sold and those in stock.
    Produced,
    /// Units in stock.
    Stocked,
}

impl ProductView {
    /// What one product adds to a total.
    pub open spec fn tally(self, kind: Tally) -> int {
        match kind {
            Tally::Sold => self.sold,
            Tally::Produced => self.sold + self.stock,
            Tally::Stocked => self.stock,
        }
    }
}

/// The sum of `kind` over the products of `s`.
pub open spec fn total(s: Seq<Product>, kind: Tally) -> int
    decreases s.len(),
{
    if s.len() == 0 {
        0
    } else {
        total(s.drop_last(), kind) + s.last()@.tally(kind)
    }
}

/// `x` is a value of `i32`.
pub open spec fn fits_i32(x: int) -> bool {
    i32::MIN <= x <= i32::MAX
}

/// The order of byte strings from position `i` on, both being equal before
/// it: at the first position where they differ the smaller byte decides, and
/// a string that ends first comes first.
pub open spec fn bytes_le_from(a: Seq<u8>, b: Seq<u8>, i: int) -> bool
    decreases a.len() - i,
{
    if i < 0 || i >= a.len() {
        true
    } else if i >= b.len() {
        false
    } else if a[i] != b[i] {
        a[i] < b[i]
    } else {
        bytes_le_from(a, b, i + 1)
    }
}

/// The order in which texts are sorted: that of their UTF-8 bytes, which is
/// the order of `str`.
pub open spec fn text_le(a: Seq<char>, b: Seq<char>) -> bool {
    bytes_le_from(encode_utf8(a), encode_utf8(b), 0)
}

/// The products of `s` stand in ascending order of SKU.
pub open spec fn sorted_by_sku(s: Seq<Product>) -> bool {
    forall|i: int, j: int|
        0 <= i < j < s.len() ==> text_le((#[trigger] s[i]).sku@, (#[trigger] s[j]).sku@)
}

/// Of two byte strings one comes before the other, or they are equal.
pub proof fn lemma_bytes_le_total(a: Seq<u8>, b: Seq<u8>, i: int)
    requires
        0 <= i,
    ensures
        bytes_le_from(a, b, i) || bytes_le_from(b, a, i),
    decreases a.len() - i,
{
    if i < a.len() && i < b.len() && a[i] == b[i] {
        lemma_bytes_le_total(a, b, i + 1);
    }
}

/// The order of byte strings is transitive.
pub proof fn lemma_bytes_le_transitive(a: Seq<u8>, b: Seq<u8>, c: Seq<u8>, i: int)
    requires
        0 <= i,
        bytes_le_from(a, b, i),
        bytes_le_from(b, c, i),
    ensures
        bytes_le_from(a, c, i),
    decreases a.len() - i,
{
    if i < a.len() && a[i] == b[i] && b[i] == c[i] {
        lemma_bytes_le_transitive(a, b, c, i + 1);
    }
}

/// Whether `a` comes before `b`, or equals it, in the order of their bytes.
pub fn bytes_le(a: &[u8], b: &[u8]) -> (r: bool)
    ensures
        r == bytes_le_from(a@, b@, 0),
{
    let mut i: usize = 0;
    loop
        invariant
            i <= a.len(),
            i <= b.len(),
            bytes_le_from(a@, b@, 0) == bytes_le_from(a@, b@, i as int),
        decreases a.len() - i,
    {
        if i >= a.len() {
            return true;
        }
        if i >= b.len() {
            return false;
        }
        if a[i] != b[i] {
            return a[i] < b[i];
        }
        i += 1;
    }
}

/// What a report shows.
#[derive(Debug)]
pub struct ServerReport {
    pub report_product_list: Vec<Product>,
    pub report_weekly_sold: i32,
    pub report_weekly_produced: i32,
    pub report_total_sold: i32,
    pub report_total_produced: i32,
    pub report_currently_stocked: i32,
    pub report_terminal_log: Vec<LogType>,
}

impl InventoryApp {
    /// The three totals are values of `i32`.
    pub open spec fn totals_fit(&self) -> bool {
        &&& fits_i32(total(self.product_list@, Tally::Sold))
        &&& fits_i32(total(self.product_list@, Tally::Produced))
        &&& fits_i32(total(self.product_list@, Tally::Stocked))
    }

    /// The total of `kind` over the catalog, or `None` where it is no value
    /// of `i32`.
    pub fn checked_total(&self, kind: Tally) -> (r: Option<i32>)
        ensures
            r == if fits_i32(total(self.product_list@, kind)) {
                Some(total(self.product_list@, kind) as i32)
            } else {
                None
            },
    {
        let mut sum: i128 = 0;
        let mut i: usize = 0;
        while i < self.product_list.len()
            invariant
                i <= self.product_list.len(),
                sum == total(self.product_list@.take(i as int), kind),
                -0x1_0000_0000 * i <= sum <= 0x1_0000_0000 * i,
            decreases self.product_list.len() - i,
        {
            let p = &self.product_list[i];
            assert(self.product_list@.take(i + 1).drop_last() =~= self.product_list@.take(
                i as int,
            ));
            let part: i128 = match kind {
                Tally::Sold => p.sold as i128,
                Tally::Produced => p.sold as i128 + p.stock as i128,
                Tally::Stocked => p.stock as i128,
            };
            sum = sum + part;
            i += 1;
        }
        assert(self.product_list@.take(i as int) =~= self.product_list@);
        if sum < i32::MIN as i128 || sum > i32::MAX as i128 {
            None
        } else {
            Some(sum as i32)
        }
    }

    /// The units sold, over all products.
    pub fn total_sold(&self) -> (r: i32)
        requires
            fits_i32(total(self.product_list@, Tally::Sold)),
        ensures
            r == total(self.product_list@, Tally::Sold),
    {
        match self.checked_total(Tally::Sold) {
            Some(sum) => sum,
            None => 0,
        }
    }

    /// The units ever produced, over all products: those sold and those in
    /// stock.
    pub fn total_produced(&self) -> (r: i32)
        requires
            fits_i32(total(self.product_list@, Tally::Produced)),
        ensures
            r == total(self.product_list@, Tally::Produced),
    {
        match self.checked_total(Tally::Produced) {
            Some(sum) => sum,
            None => 0,
        }
    }

    /// The units in stock, over all products.
    pub fn currently_stocked(&self) -> (r: i32)
        requires
            fits_i32(total(self.product_list@, Tally::Stocked)),
        ensures
            r == total(self.product_list@, Tally::Stocked),
    {
        match self.checked_total(Tally::Stocked) {
            Some(sum) => sum,
            None => 0,
        }
    }

    /// Whether the three totals are values of `i32`.
    pub fn totals_in_range(&self) -> (r: bool)
        ensures
            r == self.totals_fit(),
    {
        self.checked_total(Tally::Sold).is_some() && self.checked_total(Tally::Produced).is_some()
            && self.checked_total(Tally::Stocked).is_some()
    }

    /// The products of the catalog, each once, in ascending order of SKU.
    pub fn sorted_products(&self) -> (r: Vec<Product>)
        ensures
            sorted_by_sku(r@),
            r@.to_multiset() == self.product_list@.to_multiset(),
    {
        let mut sorted: Vec<Product> = Vec::new();
        let mut i: usize = 0;
        assert(self.product_list@.take(0) =~= Seq::<Product>::empty());
        while i < self.product_list.len()
            invariant
                i <= self.product_list.len(),
                sorted_by_sku(sorted@),
                sorted@.to_multiset() == self.product_list@.take(i as int).to_multiset(),
            decreases self.product_list.len() - i,
        {
            let p = self.product_list[i].clone();
            let mut j: usize = 0;
            while j < sorted.len() && bytes_le(
                sorted[j].sku.as_str().as_bytes(),
                p.sku.as_str().as_bytes(),
            )
                invariant
                    j <= sorted.len(),
                    forall|k: int| 0 <= k < j ==> text_le((#[trigger] sorted@[k]).sku@, p.sku@),
                decreases sorted.len() - j,
            {
                j += 1;
            }
            let ghost before = sorted@;
            proof {
                assert forall|k: int| j <= k < before.len() implies text_le(
                    p.sku@,
                    (#[trigger] before[k]).sku@,
                ) by {
                    let first = encode_utf8(before[j as int].sku@);
                    let here = encode_utf8(before[k].sku@);
                    let new = encode_utf8(p.sku@);
                    lemma_bytes_le_total(first, new, 0);
                    if j < k {
                        lemma_bytes_le_transitive(new, first, here, 0);
                    }
                }
                vstd::seq_lib::to_multiset_insert(before, j as int, p);
                vstd::seq_lib::to_multiset_build(self.product_list@.take(i as int), p);
                assert(self.product_list@.take(i + 1) =~= self.product_list@.take(i as int).push(
                    p,
                ));
            }
            sorted.insert(j, p);
            assert(sorted_by_sku(sorted@)) by {
                assert forall|a: int, b: int| 0 <= a < b < sorted@.len() implies text_le(
                    (#[trigger] sorted@[a]).sku@,
                    (#[trigger] sorted@[b]).sku@,
                ) by {
                    if a < j && b > j {
                        assert(sorted@[a] == before[a] && sorted@[b] == before[b - 1]);
                    } else if a < j && b < j {
                        assert(sorted@[a] == before[a] && sorted@[b] == before[b]);
                    } else if a > j {
                        assert(sorted@[a] == before[a - 1] && sorted@[b] == before[b - 1]);
                    } else if a == j {
                        assert(sorted@[b] == before[b - 1]);
                    } else {
                        assert(sorted@[a] == before[a]);
                    }
                }
            }
            i += 1;
        }
        assert(self.product_list@.take(i as int) =~= self.product_list@);
        sorted
    }

    /// What a report shows of the catalog and of the session log `log`: the
    /// products in ascending order of SKU, the three totals, the weekly
    /// counters, and the log as it was handed in.
    pub fn build_server_report(&self, log: Vec<LogType>) -> (r: ServerReport)
        requires
            self.totals_fit(),
        ensures
            sorted_by_sku(r.report_product_list@),
            r.report_product_list@.to_multiset() == self.product_list@.to_multiset(),
            r.report_weekly_sold == self.weekly_sold,
            r.report_weekly_produced == self.weekly_produced,
            r.report_total_sold == total(self.product_list@, Tally::Sold),
            r.report_total_produced == total(self.product_list@, Tally::Produced),
            r.report_currently_stocked == total(self.product_list@, Tally::Stocked),
            r.report_terminal_log == log,
    {
        ServerReport {
            report_product_list: self.sorted_products(),
            report_weekly_sold: self.weekly_sold,
            report_weekly_produced: self.weekly_produced,
            report_total_sold: self.total_sold(),
            report_total_produced: self.total_produced(),
            report_currently_stocked: self.currently_stocked(),
            report_terminal_log: log,
        }
    }
}

} // verus!
