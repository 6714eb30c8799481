//! The action dispatcher: applies one action to the catalog and says what
//! came of it.

use crate::command::{classified, Action, ActionView, MenuItems};
use crate::inventory::{
    find_sku, lemma_catalog_entry, lemma_catalog_keys, lemma_catalog_update, Catalog, InventoryApp,
};
use crate::product::{Product, ProductView, TransactionType};
use crate::report::fits_i32;
use vstd::prelude::*;

verus! {

/// Why an action was refused.
#[derive(Debug, Clone, Copy, PartialEq, Eq, Structural)]
pub enum RejectReason {
    /// No product has the SKU.
    NotAProduct,
    /// A product with the SKU exists already.
    AlreadyExists,
    /// The product to retire is retired.
    AlreadyRetired,
    /// The product to restore is active.
    AlreadyActive,
    /// The line asks for nothing that the dispatcher knows.
    NotAnAction,
}

/// What an action did. Each product is shown as it is after the action.
#[derive(Debug, PartialEq)]
pub enum Description {
    Transaction { kind: TransactionType, product: Product },
    Created { product: Product },
    Inspected { product: Product },
    RetirementSet { product: Product },
    Menu { item: MenuItems },
}

/// The result of dispatching one action.
#[derive(Debug, PartialEq)]
pub enum Outcome {
    Applied { description: Description },
    Rejected { reason: RejectReason },
}

/// The mathematical value of a [`Description`].
pub enum DescriptionView {
    Transaction { kind: TransactionType, product: ProductView },
    Created { product: ProductView },
    Inspected { product: ProductView },
    RetirementSet { product: ProductView },
    Menu { item: MenuItems },
}

/// The mathematical value of an [`Outcome`].
pub enum OutcomeView {
    Applied { description: DescriptionView },
    Rejected { reason: RejectReason },
}

impl View for Description {
    type V = DescriptionView;

    open spec fn view(&self) -> DescriptionView {
        match self {
            Description::Transaction { kind, product } => DescriptionView::Transaction {
                kind: *kind,
                product: product@,
            },
            Description::Created { product } => DescriptionView::Created { product: product@ },
            Description::Inspected { product } => DescriptionView::Inspected { product: product@ },
            Description::RetirementSet { product } => DescriptionView::RetirementSet {
                product: product@,
            },
            Description::Menu { item } => DescriptionView::Menu { item: *item },
        }
    }
}

impl View for Outcome {
    type V = OutcomeView;

    open spec fn view(&self) -> OutcomeView {
        match self {
            Outcome::Applied { description } => OutcomeView::Applied { description: description@ },
            Outcome::Rejected { reason } => OutcomeView::Rejected { reason: *reason },
        }
    }
}

impl DescriptionView {
    /// The action changed the products of the catalog.
    pub open spec fn mutates(self) -> bool {
        match self {
            DescriptionView::Transaction { .. } => true,
            DescriptionView::Created { .. } => true,
            DescriptionView::RetirementSet { .. } => true,
            DescriptionView::Inspected { .. } => false,
            DescriptionView::Menu { .. } => false,
        }
    }
}

impl OutcomeView {
    /// The catalog is to be saved: the action was applied and changed its
    /// products.
    pub open spec fn asks_save(self) -> bool {
        match self {
            OutcomeView::Applied { description } => description.mutates(),
            OutcomeView::Rejected { .. } => false,
        }
    }

    /// The session is to end: the menu command `quit` was applied.
    pub open spec fn ends_session(self) -> bool {
        self == (OutcomeView::Applied {
            description: DescriptionView::Menu { item: MenuItems::Quit },
        })
    }
}

/// The kind of transaction that a stock-or-sell quantity stands for.
pub open spec fn transaction_of(quantity: int) -> TransactionType {
    if quantity > 0 {
        TransactionType::Stock
    } else if quantity < 0 {
        TransactionType::Sell
    } else {
        TransactionType::Gift
    }
}

/// The product that a create-product action enters.
pub open spec fn created_product(
    sku: Seq<char>,
    name: Seq<char>,
    initial_quantity: int,
    today: Seq<char>,
) -> ProductView {
    ProductView { name, sku, stock: initial_quantity, sold: 0, released: today, retired: false }
}

impl Catalog {
    /// The catalog with `product` entered under `sku`.
    pub open spec fn with_product(self, sku: Seq<char>, product: ProductView) -> Catalog {
        Catalog { products: self.products.insert(sku, product), ..self }
    }

    /// The catalog after `action` on the day `today`, and what came of the
    /// action. A refused action leaves the catalog as it was.
    pub open spec fn dispatched(self, action: ActionView, today: Seq<char>) -> (
        Catalog,
        OutcomeView,
    ) {
        match action {
            ActionView::StockOrSell { sku, quantity } => {
                if self.products.contains_key(sku) {
                    let product = self.products[sku].moved(quantity);
                    (
                        Catalog {
                            products: self.products.insert(sku, product),
                            weekly_produced: if quantity > 0 {
                                self.weekly_produced + quantity
                            } else {
                                self.weekly_produced
                            },
                            weekly_sold: if quantity < 0 {
                                self.weekly_sold - quantity
                            } else {
                                self.weekly_sold
                            },
                        },
                        OutcomeView::Applied {
                            description: DescriptionView::Transaction {
                                kind: transaction_of(quantity),
                                product,
                            },
                        },
                    )
                } else {
                    (self, OutcomeView::Rejected { reason: RejectReason::NotAProduct })
                }
            },
            ActionView::CreateProduct { sku, name, initial_quantity } => {
                if self.products.contains_key(sku) {
                    (self, OutcomeView::Rejected { reason: RejectReason::AlreadyExists })
                } else {
                    let product = created_product(sku, name, initial_quantity, today);
                    (
                        Catalog {
                            products: self.products.insert(sku, product),
                            weekly_produced: self.weekly_produced + initial_quantity,
                            weekly_sold: self.weekly_sold,
                        },
                        OutcomeView::Applied { description: DescriptionView::Created { product } },
                    )
                }
            },
            ActionView::Inspect { sku } => {
                if self.products.contains_key(sku) {
                    (
                        self,
                        OutcomeView::Applied {
                            description: DescriptionView::Inspected { product: self.products[sku] },
                        },
                    )
                } else {
                    (self, OutcomeView::Rejected { reason: RejectReason::NotAProduct })
                }
            },
            ActionView::SetRetired { sku, retired } => {
                if !self.products.contains_key(sku) {
                    (self, OutcomeView::Rejected { reason: RejectReason::NotAProduct })
                } else if self.products[sku].retired == retired {
                    (
                        self,
                        OutcomeView::Rejected {
                            reason: if retired {
                                RejectReason::AlreadyRetired
                            } else {
                                RejectReason::AlreadyActive
                            },
                        },
                    )
                } else {
                    let product = self.products[sku].with_retired(retired);
                    (
                        self.with_product(sku, product),
                        OutcomeView::Applied {
                            description: DescriptionView::RetirementSet { product },
                        },
                    )
                }
            },
            ActionView::MenuCommand { kind } => {
                if kind == MenuItems::Invalid {
                    (self, OutcomeView::Rejected { reason: RejectReason::NotAnAction })
                } else {
                    (self, OutcomeView::Applied { description: DescriptionView::Menu { item: kind } })
                }
            },
            ActionView::UnreadQuantity { sku, create } => (
                self,
                OutcomeView::Rejected {
                    reason: if create {
                        if self.products.contains_key(sku) {
                            RejectReason::AlreadyExists
                        } else {
                            RejectReason::NotAnAction
                        }
                    } else {
                        if self.products.contains_key(sku) {
                            RejectReason::NotAnAction
                        } else {
                            RejectReason::NotAProduct
                        }
                    },
                },
            ),
            ActionView::Rejected { .. } => (
                self,
                OutcomeView::Rejected { reason: RejectReason::NotAnAction },
            ),
        }
    }

    /// The quantities that `action` leaves behind are values of `i32`: the
    /// stock and the sold count of the product it moves, and both weekly
    /// counters.
    pub open spec fn admits(self, action: ActionView) -> bool {
        match action {
            ActionView::StockOrSell { sku, quantity } => self.products.contains_key(sku) ==> {
                &&& self.products[sku].moved(quantity).in_range()
                &&& quantity > 0 ==> fits_i32(self.weekly_produced + quantity)
                &&& quantity < 0 ==> fits_i32(self.weekly_sold - quantity)
            },
            ActionView::CreateProduct { sku, initial_quantity, .. } => !self.products.contains_key(
                sku,
            ) ==> fits_i32(self.weekly_produced + initial_quantity),
            _ => true,
        }
    }
}

impl Catalog {
    /// Every product stands under the SKU that it holds.
    pub open spec fn keyed_by_sku(self) -> bool {
        forall|k: Seq<char>| #[trigger] self.products.contains_key(k) ==> self.products[k].sku == k
    }
}

/// A line of the form `SKU*N` for a product of the catalog is applied and
/// moves the stock of that product by `N`, or down by one where `N` is zero.
/// A negative `N` adds `-N` to its sold count, any other leaves the count as
/// it was. No other product changes, and none comes or goes.
pub proof fn lemma_stock_or_sell_moves_stock(
    catalog: Catalog,
    text: Seq<char>,
    sku: Seq<char>,
    quantity: int,
    today: Seq<char>,
)
    requires
        classified(text) == (ActionView::StockOrSell { sku, quantity }),
        catalog.products.contains_key(sku),
    ensures
        ({
            let before = catalog.products[sku];
            let (next, outcome) = catalog.dispatched(classified(text), today);
            let after = next.products[sku];
            &&& outcome is Applied
            &&& quantity != 0 ==> after.stock == before.stock + quantity
            &&& quantity == 0 ==> after.stock == before.stock - 1
            &&& quantity < 0 ==> after.sold == before.sold - quantity
            &&& quantity >= 0 ==> after.sold == before.sold
            &&& next.products.dom() == catalog.products.dom()
            &&& forall|other: Seq<char>|
                other != sku && catalog.products.contains_key(other) ==> #[trigger] next.products[other]
                    == catalog.products[other]
        }),
{
    let next = catalog.dispatched(classified(text), today).0;
    assert(next.products.dom() =~= catalog.products.dom());
}

/// A line of the form `Q+[SKU](Name)D` with a SKU that the catalog lacks is
/// applied, and the catalog gains exactly one entry: under that SKU, with the
/// quantity of the line in stock, nothing sold and not retired. The weekly
/// count of units produced rises by that quantity.
pub proof fn lemma_create_adds_one_product(
    catalog: Catalog,
    text: Seq<char>,
    sku: Seq<char>,
    name: Seq<char>,
    initial_quantity: int,
    today: Seq<char>,
)
    requires
        classified(text) == (ActionView::CreateProduct { sku, name, initial_quantity }),
        !catalog.products.contains_key(sku),
    ensures
        ({
            let (next, outcome) = catalog.dispatched(classified(text), today);
            let entry = next.products[sku];
            &&& outcome is Applied
            &&& next.products.dom() == catalog.products.dom().insert(sku)
            &&& entry.sku == sku
            &&& entry.name == name
            &&& entry.stock == initial_quantity
            &&& entry.sold == 0
            &&& !entry.retired
            &&& entry.released == today
            &&& next.weekly_produced == catalog.weekly_produced + initial_quantity
            &&& forall|other: Seq<char>|
                catalog.products.contains_key(other) ==> #[trigger] next.products[other]
                    == catalog.products[other]
        }),
{
    let next = catalog.dispatched(classified(text), today).0;
    assert(next.products.dom() =~= catalog.products.dom().insert(sku));
}

/// Asking for the retirement state that a product has already is refused:
/// restoring an active product, or retiring a retired one, changes nothing.
pub proof fn lemma_same_state_is_refused(
    catalog: Catalog,
    sku: Seq<char>,
    retired: bool,
    today: Seq<char>,
)
    requires
        catalog.products.contains_key(sku),
        catalog.products[sku].retired == retired,
    ensures
        catalog.dispatched(ActionView::SetRetired { sku, retired }, today) == (
            catalog,
            OutcomeView::Rejected {
                reason: if retired {
                    RejectReason::AlreadyRetired
                } else {
                    RejectReason::AlreadyActive
                },
            },
        ),
{
}

/// The same retire-or-restore action twice in a row: whatever came of the
/// first, the second is refused and changes nothing.
pub proof fn lemma_set_retired_twice(
    catalog: Catalog,
    sku: Seq<char>,
    retired: bool,
    first_day: Seq<char>,
    second_day: Seq<char>,
)
    ensures
        ({
            let action = ActionView::SetRetired { sku, retired };
            let once = catalog.dispatched(action, first_day).0;
            let twice = once.dispatched(action, second_day);
            &&& twice.0 == once
            &&& twice.1 is Rejected
            &&& catalog.products.contains_key(sku) ==> twice.1 == (OutcomeView::Rejected {
                reason: if retired {
                    RejectReason::AlreadyRetired
                } else {
                    RejectReason::AlreadyActive
                },
            })
        }),
{
}

/// A refused action changes nothing and asks for no save; an action asks for
/// a save only where it was applied.
pub proof fn lemma_refusal_changes_nothing(catalog: Catalog, action: ActionView, today: Seq<char>)
    ensures
        ({
            let (next, outcome) = catalog.dispatched(action, today);
            &&& outcome is Rejected ==> next == catalog
            &&& !outcome.asks_save() ==> next == catalog
        }),
{
}

/// Dispatching keeps every product under the SKU that it holds.
pub proof fn lemma_dispatch_keeps_keys(catalog: Catalog, action: ActionView, today: Seq<char>)
    requires
        catalog.keyed_by_sku(),
    ensures
        catalog.dispatched(action, today).0.keyed_by_sku(),
{
    let next = catalog.dispatched(action, today).0;
    assert forall|k: Seq<char>| #[trigger] next.products.contains_key(k) implies next.products[k].sku
        == k by {
        if catalog.products.contains_key(k) {
            assert(catalog.products[k].sku == k);
        }
    }
}

impl Outcome {
    /// Whether the catalog is to be saved.
    pub fn needs_save(&self) -> (r: bool)
        ensures
            r == self@.asks_save(),
    {
        match self {
            Outcome::Applied { description } => match description {
                Description::Transaction { .. } => true,
                Description::Created { .. } => true,
                Description::RetirementSet { .. } => true,
                Description::Inspected { .. } => false,
                Description::Menu { .. } => false,
            },
            Outcome::Rejected { .. } => false,
        }
    }

    /// Whether the session is to end.
    pub fn is_quit(&self) -> (r: bool)
        ensures
            r == self@.ends_session(),
    {
        match self {
            Outcome::Applied { description } => match description {
                Description::Menu { item } => match item {
                    MenuItems::Quit => true,
                    _ => false,
                },
                _ => false,
            },
            Outcome::Rejected { .. } => false,
        }
    }
}

impl InventoryApp {
    /// Whether the quantities that `action` leaves behind are values of
    /// `i32`.
    pub fn admits(&self, action: &Action) -> (r: bool)
        requires
            self.wf(),
        ensures
            r == self@.admits(action@),
    {
        proof {
            lemma_catalog_keys(self.product_list@);
        }
        match action {
            Action::StockOrSell { sku, quantity } => {
                match find_sku(&self.product_list, sku.as_str()) {
                    None => true,
                    Some(i) => {
                        proof {
                            lemma_catalog_entry(self.product_list@, i as int);
                        }
                        let product = &self.product_list[i];
                        let quantity: i32 = *quantity;
                        if quantity > 0 {
                            product.stock.checked_add(quantity).is_some()
                                && self.weekly_produced.checked_add(quantity).is_some()
                        } else if quantity < 0 {
                            product.stock.checked_add(quantity).is_some() && product.sold.checked_sub(
                                quantity,
                            ).is_some() && self.weekly_sold.checked_sub(quantity).is_some()
                        } else {
                            product.stock > i32::MIN
                        }
                    },
                }
            },
            Action::CreateProduct { sku, name: _, initial_quantity } => {
                match find_sku(&self.product_list, sku.as_str()) {
                    None => self.weekly_produced.checked_add(*initial_quantity).is_some(),
                    Some(_) => true,
                }
            },
            _ => true,
        }
    }

    /// Applies `action` to the catalog on the day `today`.
    ///
    /// A stock-or-sell action moves the stock of its product and adds to the
    /// weekly counters; a create-product action enters a new product,
    /// released today; a retire-or-restore action sets the flag of its
    /// product. An action on a SKU that the catalog lacks, the creation of a
    /// SKU that it has, and a retirement state that the product has already
    /// are refused and change nothing. The SKU is looked up before the
    /// quantity is asked for: a line whose quantity could not be read is
    /// refused for its SKU where that alone refuses it, and as no action
    /// otherwise.
    pub fn dispatch(&mut self, action: Action, today: &str) -> (out: Outcome)
        requires
            old(self).wf(),
            old(self)@.admits(action@),
        ensures
            final(self).wf(),
            final(self)@ == old(self)@.dispatched(action@, today@).0,
            out@ == old(self)@.dispatched(action@, today@).1,
    {
        let ghost before = self.product_list@;
        proof {
            lemma_catalog_keys(before);
        }
        match action {
            Action::StockOrSell { sku, quantity } => {
                match find_sku(&self.product_list, sku.as_str()) {
                    None => Outcome::Rejected { reason: RejectReason::NotAProduct },
                    Some(i) => {
                        proof {
                            lemma_catalog_entry(before, i as int);
                        }
                        let kind = if quantity > 0 {
                            let _ = self.product_list[i].stock_product(quantity);
                            self.weekly_produced = self.weekly_produced + quantity;
                            TransactionType::Stock
                        } else if quantity < 0 {
                            let _ = self.product_list[i].sell_product(quantity);
                            self.weekly_sold = self.weekly_sold - quantity;
                            TransactionType::Sell
                        } else {
                            self.product_list[i].gift_product();
                            TransactionType::Gift
                        };
                        proof {
                            assert(self.product_list@ =~= before.update(
                                i as int,
                                self.product_list@[i as int],
                            ));
                            lemma_catalog_update(before, i as int, self.product_list@[i as int]);
                        }
                        Outcome::Applied {
                            description: Description::Transaction {
                                kind,
                                product: self.product_list[i].clone(),
                            },
                        }
                    },
                }
            },
            Action::CreateProduct { sku, name, initial_quantity } => {
                match find_sku(&self.product_list, sku.as_str()) {
                    Some(_) => Outcome::Rejected { reason: RejectReason::AlreadyExists },
                    None => {
                        let product = Product {
                            name,
                            sku,
                            stock: initial_quantity,
                            sold: 0,
                            released: today.to_owned(),
                            retired: false,
                        };
                        let shown = product.clone();
                        self.weekly_produced = self.weekly_produced + initial_quantity;
                        self.product_list.push(product);
                        proof {
                            assert(self.product_list@.drop_last() =~= before);
                            assert forall|a: int, b: int|
                                0 <= a < b < self.product_list@.len() implies (
                            #[trigger] self.product_list@[a]).sku@ != (
                            #[trigger] self.product_list@[b]).sku@ by {
                                if b == before.len() {
                                    assert(before[a].sku@ != product.sku@);
                                } else {
                                    assert(self.product_list@[a] == before[a]
                                        && self.product_list@[b] == before[b]);
                                }
                            }
                        }
                        Outcome::Applied { description: Description::Created { product: shown } }
                    },
                }
            },
            Action::Inspect { sku } => {
                match find_sku(&self.product_list, sku.as_str()) {
                    None => Outcome::Rejected { reason: RejectReason::NotAProduct },
                    Some(i) => {
                        proof {
                            lemma_catalog_entry(before, i as int);
                        }
                        Outcome::Applied {
                            description: Description::Inspected {
                                product: self.product_list[i].clone(),
                            },
                        }
                    },
                }
            },
            Action::SetRetired { sku, retired } => {
                match find_sku(&self.product_list, sku.as_str()) {
                    None => Outcome::Rejected { reason: RejectReason::NotAProduct },
                    Some(i) => {
                        proof {
                            lemma_catalog_entry(before, i as int);
                        }
                        match self.product_list[i].set_retired(retired) {
                            Err(_) => {
                                assert(self.product_list@ =~= before);
                                Outcome::Rejected {
                                    reason: if retired {
                                        RejectReason::AlreadyRetired
                                    } else {
                                        RejectReason::AlreadyActive
                                    },
                                }
                            },
                            Ok(_) => {
                                proof {
                                    assert(self.product_list@ =~= before.update(
                                        i as int,
                                        self.product_list@[i as int],
                                    ));
                                    lemma_catalog_update(
                                        before,
                                        i as int,
                                        self.product_list@[i as int],
                                    );
                                }
                                Outcome::Applied {
                                    description: Description::RetirementSet {
                                        product: self.product_list[i].clone(),
                                    },
                                }
                            },
                        }
                    },
                }
            },
            Action::MenuCommand { kind } => match kind {
                MenuItems::Invalid => Outcome::Rejected { reason: RejectReason::NotAnAction },
                _ => Outcome::Applied { description: Description::Menu { item: kind } },
            },
            Action::UnreadQuantity { sku, create } => {
                let known = find_sku(&self.product_list, sku.as_str()).is_some();
                Outcome::Rejected {
                    reason: if create {
                        if known {
                            RejectReason::AlreadyExists
                        } else {
                            RejectReason::NotAnAction
                        }
                    } else {
                        if known {
                            RejectReason::NotAnAction
                        } else {
                            RejectReason::NotAProduct
                        }
                    },
                }
            },
            Action::Rejected { raw_text: _ } => Outcome::Rejected {
                reason: RejectReason::NotAnAction,
            },
        }
    }

    /// Starts a new week: both weekly counters go back to zero.
    pub fn reset_weekly(&mut self)
        ensures
            final(self).product_list == old(self).product_list,
            final(self).weekly_produced == 0,
            final(self).weekly_sold == 0,
    {
        self.weekly_produced = 0;
        self.weekly_sold = 0;
    }
}

} // verus!
