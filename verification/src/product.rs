//! The catalog entity and its transactions.

use vstd::prelude::*;

verus! {

/// One product of the catalog.
#[derive(Debug, PartialEq)]
pub struct Product {
    pub name: String,
    pub sku: String,
    pub stock: i32,
    pub sold: i32,
    pub released: String,
    pub retired: bool,
}

/// The mathematical value of a [`Product`]: texts as sequences of
/// characters, quantities as unbounded integers.
pub struct ProductView {
    pub name: Seq<char>,
    pub sku: Seq<char>,
    pub stock: int,
    pub sold: int,
    pub released: Seq<char>,
    pub retired: bool,
}

/// The three transactions that move stock.
#[derive(Debug, Clone, Copy, PartialEq, Eq, Structural)]
pub enum TransactionType {
    Sell,
    Stock,
    Gift,
}

/// Why a transaction on a product was refused.
#[derive(Debug, Clone, Copy, PartialEq, Eq, Structural)]
pub enum ProductError {
    /// The quantity has the wrong sign for the transaction.
    InvalidQuantity,
    /// The product already is in the requested retirement state.
    AlreadyInState,
}

impl ProductView {
    /// `quantity` units come in.
    pub open spec fn stocked(self, quantity: int) -> ProductView {
        ProductView { stock: self.stock + quantity, ..self }
    }

    /// `-quantity` units go out to a buyer; `quantity` is negative.
    pub open spec fn sold_by(self, quantity: int) -> ProductView {
        ProductView { stock: self.stock + quantity, sold: self.sold - quantity, ..self }
    }

    /// One unit is given away.
    pub open spec fn gifted(self) -> ProductView {
        ProductView { stock: self.stock - 1, ..self }
    }

    /// The retirement flag is set to `retired`.
    pub open spec fn with_retired(self, retired: bool) -> ProductView {
        ProductView { retired, ..self }
    }

    /// The effect of a stock-or-sell quantity: positive restocks, negative
    /// sells, zero gives one unit away.
    pub open spec fn moved(self, quantity: int) -> ProductView {
        if quantity > 0 {
            self.stocked(quantity)
        } else if quantity < 0 {
            self.sold_by(quantity)
        } else {
            self.gifted()
        }
    }

    /// Both quantities fit the machine integers of a [`Product`].
    pub open spec fn in_range(self) -> bool {
        &&& i32::MIN <= self.stock <= i32::MAX
        &&& i32::MIN <= self.sold <= i32::MAX
    }
}

impl View for Product {
    type V = ProductView;

    open spec fn view(&self) -> ProductView {
        ProductView {
            name: self.name@,
            sku: self.sku@,
            stock: self.stock as int,
            sold: self.sold as int,
            released: self.released@,
            retired: self.retired,
        }
    }
}

impl Clone for Product {
    fn clone(&self) -> (r: Product)
        ensures
            r == *self,
    {
        Product {
            name: self.name.clone(),
            sku: self.sku.clone(),
            stock: self.stock,
            sold: self.sold,
            released: self.released.clone(),
            retired: self.retired,
        }
    }
}

impl Default for Product {
    fn default() -> (r: Product)
        ensures
            r@ == (ProductView {
                name: Seq::empty(),
                sku: Seq::empty(),
                stock: 0,
                sold: 0,
                released: Seq::empty(),
                retired: false,
            }),
    {
        Product {
            name: String::new(),
            sku: String::new(),
            stock: 0,
            sold: 0,
            released: String::new(),
            retired: false,
        }
    }
}

impl Product {
    /// The placeholder product: no stock, nothing sold, not retired.
    pub fn new() -> (r: Product)
        ensures
            r@ == (ProductView {
                name: "Default product"@,
                sku: "NOSKU"@,
                stock: 0,
                sold: 0,
                released: "01/01/1900"@,
                retired: false,
            }),
    {
        Product {
            name: "Default product".to_owned(),
            sku: "NOSKU".to_owned(),
            stock: 0,
            sold: 0,
            released: "01/01/1900".to_owned(),
            retired: false,
        }
    }

    /// Sells `-negative` units: stock falls and the sold count rises by that
    /// many. A quantity that is not negative is refused and changes nothing.
    /// Stock may fall below zero.
    pub fn sell_product(&mut self, negative: i32) -> (r: Result<(), ProductError>)
        requires
            negative < 0 ==> old(self)@.sold_by(negative as int).in_range(),
        ensures
            negative < 0 ==> r == Ok::<(), ProductError>(())
                && final(self)@ == old(self)@.sold_by(negative as int),
            negative >= 0 ==> r == Err::<(), ProductError>(ProductError::InvalidQuantity)
                && *final(self) == *old(self),
    {
        if negative >= 0 {
            return Err(ProductError::InvalidQuantity);
        }
        self.stock = self.stock + negative;
        self.sold = self.sold - negative;
        Ok(())
    }

    /// Takes `positive` units into stock. A quantity that is not positive is
    /// refused and changes nothing.
    pub fn stock_product(&mut self, positive: i32) -> (r: Result<(), ProductError>)
        requires
            positive > 0 ==> old(self)@.stocked(positive as int).in_range(),
        ensures
            positive > 0 ==> r == Ok::<(), ProductError>(())
                && final(self)@ == old(self)@.stocked(positive as int),
            positive <= 0 ==> r == Err::<(), ProductError>(ProductError::InvalidQuantity)
                && *final(self) == *old(self),
    {
        if positive <= 0 {
            return Err(ProductError::InvalidQuantity);
        }
        self.stock = self.stock + positive;
        Ok(())
    }

    /// Gives one unit away: stock falls by one, the sold count stays.
    pub fn gift_product(&mut self)
        requires
            old(self)@.gifted().in_range(),
        ensures
            final(self)@ == old(self)@.gifted(),
    {
        self.stock = self.stock - 1;
    }

    /// Retires or restores the product. Asking for the state it already has
    /// is refused and changes nothing.
    pub fn set_retired(&mut self, retired: bool) -> (r: Result<(), ProductError>)
        ensures
            retired != old(self).retired ==> r == Ok::<(), ProductError>(())
                && final(self)@ == old(self)@.with_retired(retired),
            retired == old(self).retired ==> r == Err::<(), ProductError>(ProductError::AlreadyInState)
                && *final(self) == *old(self),
    {
        if self.retired == retired {
            return Err(ProductError::AlreadyInState);
        }
        self.retired = retired;
        Ok(())
    }
}

} // verus!
