//! The catalog: products keyed by SKU, and the running weekly counters.

use crate::product::{Product, ProductView};
use vstd::prelude::*;

verus! {

/// The catalog of products with the counters of the current week.
///
/// The products are kept in the order in which their SKUs first came in. No
/// SKU occurs twice ([`InventoryApp::wf`]), so the list stands for a mapping
/// from SKU to product.
#[derive(Debug)]
pub struct InventoryApp {
    pub product_list: Vec<Product>,
    pub weekly_produced: i32,
    pub weekly_sold: i32,
}

/// The mathematical value of an [`InventoryApp`].
pub struct Catalog {
    /// Each product under its SKU.
    pub products: Map<Seq<char>, ProductView>,
    pub weekly_produced: int,
    pub weekly_sold: int,
}

/// No two products of `s` share a SKU.
pub open spec fn distinct_skus(s: Seq<Product>) -> bool {
    forall|i: int, j: int| 0 <= i < j < s.len() ==> (#[trigger] s[i]).sku@ != (#[trigger] s[j]).sku@
}

/// Some product of `s` has the SKU `sku`.
pub open spec fn has_sku(s: Seq<Product>, sku: Seq<char>) -> bool {
    exists|i: int| 0 <= i < s.len() && (#[trigger] s[i]).sku@ == sku
}

/// The mapping that a list of product records stands for: each record is
/// entered under its SKU, a later record replacing an earlier one with the
/// same SKU.
pub open spec fn catalog_of(s: Seq<Product>) -> Map<Seq<char>, ProductView>
    decreases s.len(),
{
    if s.len() == 0 {
        Map::empty()
    } else {
        catalog_of(s.drop_last()).insert(s.last().sku@, s.last()@)
    }
}

/// The keys of `catalog_of(s)` are the SKUs that occur in `s`.
pub proof fn lemma_catalog_keys(s: Seq<Product>)
    ensures
        forall|k: Seq<char>| #[trigger] catalog_of(s).contains_key(k) <==> has_sku(s, k),
    decreases s.len(),
{
    if s.len() > 0 {
        let front = s.drop_last();
        lemma_catalog_keys(front);
        assert forall|k: Seq<char>| #[trigger]
            catalog_of(s).contains_key(k) <==> has_sku(s, k) by {
            assert(catalog_of(front).contains_key(k) <==> has_sku(front, k));
            assert(catalog_of(s).contains_key(k) <==> (k == s.last().sku@ || catalog_of(
                front,
            ).contains_key(k)));
            if has_sku(s, k) {
                let i = choose|i: int| 0 <= i < s.len() && (#[trigger] s[i]).sku@ == k;
                if i < s.len() - 1 {
                    assert(front[i].sku@ == k);
                }
            }
            if has_sku(front, k) {
                let i = choose|i: int| 0 <= i < front.len() && (#[trigger] front[i]).sku@ == k;
                assert(s[i].sku@ == k);
            }
            if k == s.last().sku@ {
                assert(s[s.len() - 1].sku@ == k);
            }
        }
    }
}

/// Where no SKU occurs twice, each product of `s` is the entry under its SKU.
pub proof fn lemma_catalog_entry(s: Seq<Product>, i: int)
    requires
        distinct_skus(s),
        0 <= i < s.len(),
    ensures
        catalog_of(s).contains_key(s[i].sku@),
        catalog_of(s)[s[i].sku@] == s[i]@,
    decreases s.len(),
{
    if i < s.len() - 1 {
        let front = s.drop_last();
        assert(distinct_skus(front)) by {
            assert forall|a: int, b: int| 0 <= a < b < front.len() implies (#[trigger] front[a]).sku@
                != (#[trigger] front[b]).sku@ by {
                assert(front[a] == s[a] && front[b] == s[b]);
            }
        }
        lemma_catalog_entry(front, i);
        assert(front[i] == s[i]);
        assert(s[i].sku@ != s[s.len() - 1].sku@);
    }
}

/// Replacing a product by one with the same SKU replaces its entry and keeps
/// the SKUs distinct.
pub proof fn lemma_catalog_update(s: Seq<Product>, i: int, p: Product)
    requires
        distinct_skus(s),
        0 <= i < s.len(),
        p.sku@ == s[i].sku@,
    ensures
        distinct_skus(s.update(i, p)),
        catalog_of(s.update(i, p)) == catalog_of(s).insert(p.sku@, p@),
    decreases s.len(),
{
    let t = s.update(i, p);
    assert(distinct_skus(t)) by {
        assert forall|a: int, b: int| 0 <= a < b < t.len() implies (#[trigger] t[a]).sku@ != (
        #[trigger] t[b]).sku@ by {
            assert(t[a].sku@ == s[a].sku@ && t[b].sku@ == s[b].sku@);
        }
    }
    if i == s.len() - 1 {
        assert(t.drop_last() =~= s.drop_last());
        assert(catalog_of(t) =~= catalog_of(s).insert(p.sku@, p@));
    } else {
        let front = s.drop_last();
        assert(distinct_skus(front)) by {
            assert forall|a: int, b: int| 0 <= a < b < front.len() implies (#[trigger] front[a]).sku@
                != (#[trigger] front[b]).sku@ by {
                assert(front[a] == s[a] && front[b] == s[b]);
            }
        }
        assert(front[i] == s[i]);
        lemma_catalog_update(front, i, p);
        assert(t.drop_last() =~= front.update(i, p));
        assert(t.last() == s.last());
        assert(s[i].sku@ != s[s.len() - 1].sku@);
        assert(catalog_of(t) =~= catalog_of(s).insert(p.sku@, p@));
    }
}

/// Every entry of `catalog_of(s)` stands under the SKU that it holds.
pub proof fn lemma_catalog_keyed_by_sku(s: Seq<Product>)
    ensures
        forall|k: Seq<char>| #[trigger]
            catalog_of(s).contains_key(k) ==> catalog_of(s)[k].sku == k,
    decreases s.len(),
{
    if s.len() > 0 {
        let front = s.drop_last();
        lemma_catalog_keyed_by_sku(front);
        assert forall|k: Seq<char>| #[trigger] catalog_of(s).contains_key(k) implies catalog_of(
            s,
        )[k].sku == k by {
            if k != s.last().sku@ {
                assert(catalog_of(front).contains_key(k));
            }
        }
    }
}

/// Saving a catalog and loading it again gives the same products under the
/// same SKUs, in whatever order the records were written: a list that holds
/// each product of the catalog once stands for the mapping that the catalog
/// holds.
pub proof fn lemma_reload_restores_catalog(app: InventoryApp, saved: Seq<Product>)
    requires
        app.wf(),
        saved.to_multiset() == app.product_list@.to_multiset(),
    ensures
        distinct_skus(saved),
        catalog_of(saved) == app@.products,
{
    let list = app.product_list@;
    broadcast use vstd::seq_lib::group_to_multiset_ensures;

    assert(list.no_duplicates()) by {
        assert forall|i: int, j: int| 0 <= i < list.len() && 0 <= j < list.len() && i != j implies list[i]
            != list[j] by {
            if i < j {
                assert(list[i].sku@ != list[j].sku@);
            } else {
                assert(list[j].sku@ != list[i].sku@);
            }
        }
    }
    list.lemma_multiset_has_no_duplicates();
    saved.lemma_multiset_has_no_duplicates_conv();
    assert forall|x: Product| saved.contains(x) <==> list.contains(x) by {
        assert(saved.to_multiset().count(x) == list.to_multiset().count(x));
    }
    assert(distinct_skus(saved)) by {
        assert forall|i: int, j: int| 0 <= i < j < saved.len() implies (#[trigger] saved[i]).sku@ != (
        #[trigger] saved[j]).sku@ by {
            assert(saved.contains(saved[i]) && saved.contains(saved[j]));
            let a = choose|a: int| 0 <= a < list.len() && list[a] == saved[i];
            let b = choose|b: int| 0 <= b < list.len() && list[b] == saved[j];
            assert(saved[i] != saved[j]);
            if a < b {
                assert(list[a].sku@ != list[b].sku@);
            } else if b < a {
                assert(list[b].sku@ != list[a].sku@);
            }
        }
    }
    lemma_catalog_keys(saved);
    lemma_catalog_keys(list);
    assert forall|k: Seq<char>| has_sku(saved, k) <==> has_sku(list, k) by {
        if has_sku(saved, k) {
            let i = choose|i: int| 0 <= i < saved.len() && (#[trigger] saved[i]).sku@ == k;
            assert(saved.contains(saved[i]));
            let a = choose|a: int| 0 <= a < list.len() && list[a] == saved[i];
            assert(list[a].sku@ == k);
        }
        if has_sku(list, k) {
            let a = choose|a: int| 0 <= a < list.len() && (#[trigger] list[a]).sku@ == k;
            assert(list.contains(list[a]));
            let i = choose|i: int| 0 <= i < saved.len() && saved[i] == list[a];
            assert(saved[i].sku@ == k);
        }
    }
    assert(catalog_of(saved) =~= catalog_of(list)) by {
        assert forall|k: Seq<char>| catalog_of(saved).contains_key(k) implies catalog_of(saved)[k]
            == catalog_of(list)[k] by {
            let i = choose|i: int| 0 <= i < saved.len() && (#[trigger] saved[i]).sku@ == k;
            assert(saved.contains(saved[i]));
            let a = choose|a: int| 0 <= a < list.len() && list[a] == saved[i];
            lemma_catalog_entry(saved, i);
            lemma_catalog_entry(list, a);
        }
    }
}

/// The first place in `list` of a product with the SKU `sku`, if there is one.
pub fn find_sku(list: &Vec<Product>, sku: &str) -> (r: Option<usize>)
    ensures
        match r {
            Some(i) => {
                &&& i < list.len()
                &&& list[i as int].sku@ == sku@
                &&& forall|j: int| 0 <= j < i ==> (#[trigger] list[j]).sku@ != sku@
            },
            None => !has_sku(list@, sku@),
        },
{
    let key = sku.to_owned();
    let mut i: usize = 0;
    while i < list.len()
        invariant
            i <= list.len(),
            key@ == sku@,
            forall|j: int| 0 <= j < i ==> (#[trigger] list[j]).sku@ != sku@,
        decreases list.len() - i,
    {
        if list[i].sku == key {
            return Some(i);
        }
        i += 1;
    }
    None
}

impl View for InventoryApp {
    type V = Catalog;

    open spec fn view(&self) -> Catalog {
        Catalog {
            products: catalog_of(self.product_list@),
            weekly_produced: self.weekly_produced as int,
            weekly_sold: self.weekly_sold as int,
        }
    }
}

impl InventoryApp {
    /// No SKU occurs twice in the product list.
    pub open spec fn wf(&self) -> bool {
        distinct_skus(self.product_list@)
    }

    /// The catalog that the stored records `products` stand for, at the start
    /// of a week: a later record replaces an earlier one with the same SKU,
    /// and both counters are zero.
    pub fn new(products: Vec<Product>) -> (r: InventoryApp)
        ensures
            r.wf(),
            r@ == (Catalog {
                products: catalog_of(products@),
                weekly_produced: 0,
                weekly_sold: 0,
            }),
    {
        let mut list: Vec<Product> = Vec::new();
        let mut i: usize = 0;
        while i < products.len()
            invariant
                i <= products.len(),
                distinct_skus(list@),
                catalog_of(list@) == catalog_of(products@.take(i as int)),
            decreases products.len() - i,
        {
            let p = products[i].clone();
            let ghost before = list@;
            assert(products@.take(i + 1).drop_last() =~= products@.take(i as int));
            match find_sku(&list, p.sku.as_str()) {
                Some(j) => {
                    list[j] = p;
                    proof {
                        lemma_catalog_update(before, j as int, p);
                    }
                },
                None => {
                    list.push(p);
                    assert(list@.drop_last() =~= before);
                    assert(distinct_skus(list@)) by {
                        assert forall|a: int, b: int| 0 <= a < b < list@.len() implies (
                        #[trigger] list@[a]).sku@ != (#[trigger] list@[b]).sku@ by {
                            if b == list@.len() - 1 {
                                assert(before[a].sku@ != p.sku@);
                            } else {
                                assert(list@[a] == before[a] && list@[b] == before[b]);
                            }
                        }
                    }
                },
            }
            i += 1;
        }
        assert(products@.take(i as int) =~= products@);
        InventoryApp { product_list: list, weekly_produced: 0, weekly_sold: 0 }
    }

    /// The product with the SKU `sku`, to read or to change. While the
    /// product keeps its SKU, the catalog stays well formed and only the
    /// entry under `sku` changes.
    pub fn product_by_sku(&mut self, sku: &str) -> (r: Option<&mut Product>)
        requires
            old(self).wf(),
        ensures
            match r {
                Some(p) => {
                    &&& old(self)@.products.contains_key(sku@)
                    &&& p@ == old(self)@.products[sku@]
                    &&& final(self).weekly_produced == old(self).weekly_produced
                    &&& final(self).weekly_sold == old(self).weekly_sold
                    &&& final(self).product_list.len() == old(self).product_list.len()
                    &&& final(p).sku@ == sku@ ==> final(self).wf()
                        && final(self)@.products == old(self)@.products.insert(sku@, final(p)@)
                },
                None => !old(self)@.products.contains_key(sku@) && *final(self) == *old(self),
            },
    {
        proof {
            lemma_catalog_keys(self.product_list@);
        }
        match find_sku(&self.product_list, sku) {
            Some(i) => {
                proof {
                    lemma_catalog_entry(self.product_list@, i as int);
                    assert forall|q: Product| q.sku@ == sku@ implies distinct_skus(
                        #[trigger] self.product_list@.update(i as int, q),
                    ) && catalog_of(self.product_list@.update(i as int, q)) == catalog_of(
                        self.product_list@,
                    ).insert(sku@, q@) by {
                        lemma_catalog_update(self.product_list@, i as int, q);
                    }
                }
                Some(&mut self.product_list[i])
            },
            None => None,
        }
    }
}

} // verus!
