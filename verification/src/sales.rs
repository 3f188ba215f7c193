//! The sales ledger: drawing stock down and keeping the record of it.

use vstd::prelude::*;
use crate::clock::current_time;
use crate::clock::Timestamp;
use crate::error::StoreError;
use crate::error::StoreErrorView;
use crate::error::Violation;
use crate::inventory::catalog_view;
use crate::inventory::catalog_well_formed;
use crate::inventory::find_index;
use crate::inventory::holds;
use crate::inventory::index_of;
use crate::inventory::lemma_first_at_is_index;
use crate::inventory::lemma_index_of_holds;
use crate::inventory::lemma_lookup_after_update;
use crate::inventory::lemma_update_keeps_well_formed;
use crate::inventory::lookup;
use crate::inventory::Product;
use crate::inventory::ProductView;
use crate::inventory::set_quantity;
use crate::purchase::lot_price;
use crate::validate::check_at_least;
use crate::validate::check_length;

verus! {

/// One completed sale. `sale_price` is the unit price in cents, `total` the
/// price of the whole lot and `profit` what the lot brought over its cost.
#[derive(Debug)]
pub struct Sale {
    pub product_name: String,
    pub quantity: u32,
    pub sale_price: u64,
    pub profit: i128,
    pub total: u128,
    pub timestamp: Timestamp,
}

/// The mathematical value of a [`Sale`].
pub struct SaleView {
    pub product_name: Seq<char>,
    pub quantity: u32,
    pub sale_price: u64,
    pub profit: i128,
    pub total: u128,
    pub timestamp: Timestamp,
}

impl View for Sale {
    type V = SaleView;

    open spec fn view(&self) -> SaleView {
        SaleView {
            product_name: self.product_name@,
            quantity: self.quantity,
            sale_price: self.sale_price,
            profit: self.profit,
            total: self.total,
            timestamp: self.timestamp,
        }
    }
}

impl Clone for Sale {
    fn clone(&self) -> (copy: Sale)
        ensures
            copy@ == self@,
    {
        Sale {
            product_name: self.product_name.clone(),
            quantity: self.quantity,
            sale_price: self.sale_price,
            profit: self.profit,
            total: self.total,
            timestamp: self.timestamp,
        }
    }
}

/// The constraints that a sale with these fields violates, in field order.
pub open spec fn sale_violations(name: Seq<char>, quantity: u32, price: u64) -> Seq<Violation> {
    (if name.len() >= 1 {
        Seq::<Violation>::empty()
    } else {
        seq![Violation::SaleProductName]
    }) + (if quantity >= 1 {
        Seq::<Violation>::empty()
    } else {
        seq![Violation::SaleQuantity]
    }) + (if price >= 1 {
        Seq::<Violation>::empty()
    } else {
        seq![Violation::SalePrice]
    })
}

/// A sale is valid when it names a product, is for at least one unit and
/// brings at least one cent a unit.
pub open spec fn sale_valid(name: Seq<char>, quantity: u32, price: u64) -> bool {
    name.len() >= 1 && quantity >= 1 && price >= 1
}

/// The values of the records of a ledger, in order.
pub open spec fn sales_view(records: Seq<Sale>) -> Seq<SaleView> {
    records.map_values(|s: Sale| s@)
}

impl SaleView {
    /// The record's fields meet their constraints and its total is derived
    /// from price and quantity.
    pub open spec fn well_formed(self) -> bool {
        &&& sale_valid(self.product_name, self.quantity, self.sale_price)
        &&& self.total == self.sale_price * self.quantity
    }
}

/// Every record of the ledger is well formed.
pub open spec fn sales_well_formed(records: Seq<SaleView>) -> bool {
    forall|i: int| 0 <= i < records.len() ==> (#[trigger] records[i]).well_formed()
}

/// What `quantity` units bring over their cost when sold at `sale_price` and
/// booked at `unit_cost`, in cents. It is negative for a sale at a loss.
pub open spec fn sale_profit(sale_price: u64, unit_cost: u64, quantity: u32) -> int {
    (sale_price - unit_cost) * quantity
}

/// The record that a sale with these fields leaves in the ledger. The cost
/// basis is the price that the catalog holds for the product when it is sold.
pub open spec fn sale_record(
    name: Seq<char>,
    quantity: u32,
    sale_price: u64,
    unit_cost: u64,
    timestamp: Timestamp,
) -> SaleView {
    SaleView {
        product_name: name,
        quantity,
        sale_price,
        profit: sale_profit(sale_price, unit_cost, quantity) as i128,
        total: (sale_price * quantity) as u128,
        timestamp,
    }
}

/// The failure of a sale with these fields, if it fails: an unknown product
/// first, then a lack of stock, then invalid fields.
pub open spec fn sale_refusal(
    catalog: Seq<ProductView>,
    name: Seq<char>,
    quantity: u32,
    price: u64,
) -> Option<StoreErrorView> {
    if !holds(catalog, name) {
        Some(StoreErrorView::NotFound)
    } else if lookup(catalog, name).quantity < quantity {
        Some(
            StoreErrorView::InsufficientStock {
                available: lookup(catalog, name).quantity,
                requested: quantity,
            },
        )
    } else if !sale_valid(name, quantity, price) {
        Some(StoreErrorView::Validation(sale_violations(name, quantity, price)))
    } else {
        None
    }
}

/// The catalog after `quantity` units of the named product have left it.
pub open spec fn drawn_down(catalog: Seq<ProductView>, name: Seq<char>, quantity: u32) -> Seq<
    ProductView,
> {
    let before = lookup(catalog, name);
    catalog.update(
        index_of(catalog, name),
        ProductView { quantity: (before.quantity - quantity) as u32, ..before },
    )
}

/// What recording a sale at `timestamp` does: the result and the states of
/// ledger and catalog after it, from the states before it.
pub open spec fn sale_outcome(
    ledger: Seq<SaleView>,
    catalog: Seq<ProductView>,
    name: Seq<char>,
    quantity: u32,
    price: u64,
    timestamp: Timestamp,
    result: Result<SaleView, StoreErrorView>,
    ledger_after: Seq<SaleView>,
    catalog_after: Seq<ProductView>,
) -> bool {
    match sale_refusal(catalog, name, quantity, price) {
        Some(error) => {
            &&& result == Err::<SaleView, StoreErrorView>(error)
            &&& ledger_after == ledger
            &&& catalog_after == catalog
        },
        None => {
            let sale = sale_record(name, quantity, price, lookup(catalog, name).price, timestamp);
            &&& result == Ok::<SaleView, StoreErrorView>(sale)
            &&& ledger_after == ledger.push(sale)
            &&& catalog_after == drawn_down(catalog, name, quantity)
        },
    }
}

/// The view of a result of recording a sale.
pub open spec fn sale_result_view(result: Result<Sale, StoreError>) -> Result<
    SaleView,
    StoreErrorView,
> {
    match result {
        Ok(s) => Ok(s@),
        Err(e) => Err(e@),
    }
}

/// Lists the constraints that a sale with these fields violates.
pub fn check_sale(name: &str, quantity: u32, price: u64) -> (found: Vec<Violation>)
    ensures
        found@ == sale_violations(name@, quantity, price),
{
    let mut found: Vec<Violation> = Vec::new();
    if !check_length(name, Some(1), None) {
        found.push(Violation::SaleProductName);
    }
    if !check_at_least(quantity as u64, 1) {
        found.push(Violation::SaleQuantity);
    }
    if !check_at_least(price, 1) {
        found.push(Violation::SalePrice);
    }
    proof {
        assert(found@ =~= sale_violations(name@, quantity, price));
    }
    found
}

/// Computes what a lot brings over its cost.
pub fn lot_profit(sale_price: u64, unit_cost: u64, quantity: u32) -> (profit: i128)
    ensures
        profit == sale_profit(sale_price, unit_cost, quantity),
{
    let margin: i128 = sale_price as i128 - unit_cost as i128;
    proof {
        assert(-0xffff_ffff_ffff_ffff * 0xffff_ffff <= margin * quantity <= 0xffff_ffff_ffff_ffff
            * 0xffff_ffff) by (nonlinear_arith)
            requires
                -0xffff_ffff_ffff_ffff <= margin <= 0xffff_ffff_ffff_ffff,
                0 <= quantity <= 0xffff_ffff,
        ;
    }
    margin * (quantity as i128)
}

/// The sales ledger's operations.
pub trait Sales {
    /// The records that the ledger holds, oldest first.
    spec fn records(&self) -> Seq<SaleView>;

    /// Records a sale made now. The record's timestamp is whatever the clock
    /// gave; everything else is as [`Sales::record_sale_at`] states it.
    fn record_sale(
        &mut self,
        product_name: &str,
        quantity: u32,
        sale_price: u64,
        inventory: &mut Vec<Product>,
    ) -> (recorded: Result<Sale, StoreError>)
        ensures
            exists|timestamp: Timestamp|
                sale_outcome(
                    old(self).records(),
                    catalog_view(old(inventory)@),
                    product_name@,
                    quantity,
                    sale_price,
                    timestamp,
                    sale_result_view(recorded),
                    final(self).records(),
                    catalog_view(final(inventory)@),
                ),
            catalog_well_formed(catalog_view(old(inventory)@)) ==> catalog_well_formed(
                catalog_view(final(inventory)@),
            ),
            sales_well_formed(old(self).records()) ==> sales_well_formed(final(self).records()),
    ;

    /// Records a sale made at `timestamp`. The product is looked up, the
    /// stock is compared with the quantity asked for, and the sale's fields
    /// are validated, in this order and all before anything changes. Then the
    /// stock is drawn down and the record is appended and returned. A refusal
    /// changes neither ledger nor catalog.
    fn record_sale_at(
        &mut self,
        product_name: &str,
        quantity: u32,
        sale_price: u64,
        timestamp: Timestamp,
        inventory: &mut Vec<Product>,
    ) -> (recorded: Result<Sale, StoreError>)
        ensures
            sale_outcome(
                old(self).records(),
                catalog_view(old(inventory)@),
                product_name@,
                quantity,
                sale_price,
                timestamp,
                sale_result_view(recorded),
                final(self).records(),
                catalog_view(final(inventory)@),
            ),
            catalog_well_formed(catalog_view(old(inventory)@)) ==> catalog_well_formed(
                catalog_view(final(inventory)@),
            ),
            sales_well_formed(old(self).records()) ==> sales_well_formed(final(self).records()),
    ;
}

impl Sales for Vec<Sale> {
    open spec fn records(&self) -> Seq<SaleView> {
        sales_view(self@)
    }

    fn record_sale(
        &mut self,
        product_name: &str,
        quantity: u32,
        sale_price: u64,
        inventory: &mut Vec<Product>,
    ) -> (recorded: Result<Sale, StoreError>) {
        let now = current_time();
        self.record_sale_at(product_name, quantity, sale_price, now, inventory)
    }

    fn record_sale_at(
        &mut self,
        product_name: &str,
        quantity: u32,
        sale_price: u64,
        timestamp: Timestamp,
        inventory: &mut Vec<Product>,
    ) -> (recorded: Result<Sale, StoreError>) {
        let i = match find_index(inventory, product_name) {
            Some(i) => i,
            None => {
                return Err(StoreError::NotFound);
            },
        };
        proof {
            lemma_first_at_is_index(catalog_view(inventory@), product_name@, i as int);
        }
        let available = inventory[i].quantity;
        if available < quantity {
            return Err(StoreError::InsufficientStock { available, requested: quantity });
        }
        let found = check_sale(product_name, quantity, sale_price);
        if found.len() > 0 {
            return Err(StoreError::Validation(found));
        }
        let sale = Sale {
            product_name: inventory[i].name.clone(),
            quantity,
            sale_price,
            profit: lot_profit(sale_price, inventory[i].price, quantity),
            total: lot_price(sale_price, quantity),
            timestamp,
        };
        set_quantity(inventory, i, available - quantity);
        self.push(sale.clone());
        proof {
            let catalog = catalog_view(old(inventory)@);
            let record = sale_record(
                product_name@,
                quantity,
                sale_price,
                lookup(catalog, product_name@).price,
                timestamp,
            );
            assert(self.records() =~= old(self).records().push(record));
            if catalog_well_formed(catalog) {
                lemma_sale_keeps_catalog_well_formed(catalog, product_name@, quantity);
            }
            if sales_well_formed(old(self).records()) {
                lemma_sale_keeps_ledger_well_formed(
                    old(self).records(),
                    catalog,
                    product_name@,
                    quantity,
                    sale_price,
                    timestamp,
                    Ok(record),
                    self.records(),
                    catalog_view(inventory@),
                );
            }
        }
        Ok(sale)
    }
}

/// The stock after a sale. A sale that asks for more than is in stock is
/// refused for want of stock and leaves the catalog as it was. One that asks
/// for no more than that, and is valid or is for no unit at all, leaves
/// exactly the stock less the quantity sold; price and description stay.
pub proof fn lemma_sale_draws_stock(
    ledger: Seq<SaleView>,
    catalog: Seq<ProductView>,
    name: Seq<char>,
    quantity: u32,
    price: u64,
    timestamp: Timestamp,
    result: Result<SaleView, StoreErrorView>,
    ledger_after: Seq<SaleView>,
    catalog_after: Seq<ProductView>,
)
    requires
        holds(catalog, name),
        sale_outcome(
            ledger,
            catalog,
            name,
            quantity,
            price,
            timestamp,
            result,
            ledger_after,
            catalog_after,
        ),
    ensures
        quantity > lookup(catalog, name).quantity ==> {
            &&& catalog_after == catalog
            &&& ledger_after == ledger
            &&& result == Err::<SaleView, StoreErrorView>(
                StoreErrorView::InsufficientStock {
                    available: lookup(catalog, name).quantity,
                    requested: quantity,
                },
            )
        },
        quantity <= lookup(catalog, name).quantity && (sale_valid(name, quantity, price) || quantity
            == 0) ==> {
            &&& holds(catalog_after, name)
            &&& catalog_after.len() == catalog.len()
            &&& lookup(catalog_after, name).quantity == lookup(catalog, name).quantity - quantity
            &&& lookup(catalog_after, name).price == lookup(catalog, name).price
            &&& lookup(catalog_after, name).description == lookup(catalog, name).description
        },
{
    if sale_refusal(catalog, name, quantity, price) is None {
        let before = lookup(catalog, name);
        lemma_index_of_holds(catalog, name);
        lemma_lookup_after_update(
            catalog,
            name,
            ProductView { quantity: (before.quantity - quantity) as u32, ..before },
        );
    }
}

/// The profit of a recorded sale is the sale price less the price that the
/// catalog held for the product before the sale, times the quantity sold;
/// that is the sale's total less the cost of the units sold. The sale leaves
/// the catalog's price as it was.
pub proof fn lemma_sale_profit(
    ledger: Seq<SaleView>,
    catalog: Seq<ProductView>,
    name: Seq<char>,
    quantity: u32,
    price: u64,
    timestamp: Timestamp,
    result: Result<SaleView, StoreErrorView>,
    ledger_after: Seq<SaleView>,
    catalog_after: Seq<ProductView>,
)
    requires
        sale_outcome(
            ledger,
            catalog,
            name,
            quantity,
            price,
            timestamp,
            result,
            ledger_after,
            catalog_after,
        ),
        result is Ok,
    ensures
        result->Ok_0.profit == (price - lookup(catalog, name).price) * quantity,
        result->Ok_0.total == price * quantity,
        result->Ok_0.profit == result->Ok_0.total - lookup(catalog, name).price * quantity,
        result->Ok_0.well_formed(),
        ledger_after.last() == result->Ok_0,
        lookup(catalog_after, name).price == lookup(catalog, name).price,
{
    let before = lookup(catalog, name);
    let cost = before.price;
    let margin = price - cost;
    assert(-0xffff_ffff_ffff_ffff * 0xffff_ffff <= margin * quantity <= 0xffff_ffff_ffff_ffff
        * 0xffff_ffff) by (nonlinear_arith)
        requires
            -0xffff_ffff_ffff_ffff <= margin <= 0xffff_ffff_ffff_ffff,
            0 <= quantity <= 0xffff_ffff,
    ;
    assert(0 <= price * quantity <= 0xffff_ffff_ffff_ffff * 0xffff_ffff) by (nonlinear_arith)
        requires
            0 <= price <= 0xffff_ffff_ffff_ffff,
            0 <= quantity <= 0xffff_ffff,
    ;
    assert((price - cost) * quantity == price * quantity - cost * quantity) by (nonlinear_arith);
    lemma_index_of_holds(catalog, name);
    lemma_lookup_after_update(
        catalog,
        name,
        ProductView { quantity: (before.quantity - quantity) as u32, ..before },
    );
}

/// A sale keeps the catalog well formed.
pub proof fn lemma_sale_keeps_catalog_well_formed(
    catalog: Seq<ProductView>,
    name: Seq<char>,
    quantity: u32,
)
    requires
        catalog_well_formed(catalog),
        holds(catalog, name),
    ensures
        catalog_well_formed(drawn_down(catalog, name, quantity)),
{
    let before = lookup(catalog, name);
    lemma_index_of_holds(catalog, name);
    lemma_update_keeps_well_formed(
        catalog,
        index_of(catalog, name),
        ProductView { quantity: (before.quantity - quantity) as u32, ..before },
    );
}

/// The ledger never comes to hold an invalid record: whatever a sale's
/// outcome, a ledger of well-formed records stays one.
pub proof fn lemma_sale_keeps_ledger_well_formed(
    ledger: Seq<SaleView>,
    catalog: Seq<ProductView>,
    name: Seq<char>,
    quantity: u32,
    price: u64,
    timestamp: Timestamp,
    result: Result<SaleView, StoreErrorView>,
    ledger_after: Seq<SaleView>,
    catalog_after: Seq<ProductView>,
)
    requires
        sales_well_formed(ledger),
        sale_outcome(
            ledger,
            catalog,
            name,
            quantity,
            price,
            timestamp,
            result,
            ledger_after,
            catalog_after,
        ),
    ensures
        sales_well_formed(ledger_after),
{
    if result is Ok {
        lemma_sale_profit(
            ledger,
            catalog,
            name,
            quantity,
            price,
            timestamp,
            result,
            ledger_after,
            catalog_after,
        );
        assert forall|i: int| 0 <= i < ledger_after.len() implies (
        #[trigger] ledger_after[i]).well_formed() by {
            if i < ledger.len() {
                assert(ledger_after[i] == ledger[i]);
            }
        }
    }
}

} // verus!
