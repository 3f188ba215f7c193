//! The purchase ledger: restocking the catalog and keeping the record of it.

use vstd::prelude::*;
use crate::clock::current_time;
use crate::clock::Timestamp;
use crate::error::StoreError;
use crate::error::StoreErrorView;
use crate::error::Violation;
use crate::inventory::catalog_view;
use crate::inventory::check_product;
use crate::inventory::catalog_well_formed;
use crate::inventory::find_index;
use crate::inventory::holds;
use crate::inventory::index_of;
use crate::inventory::lemma_add_then_get;
use crate::inventory::lemma_first_at_is_index;
use crate::inventory::lemma_index_of_holds;
use crate::inventory::lemma_lookup_after_update;
use crate::inventory::lemma_push_keeps_well_formed;
use crate::inventory::lemma_update_keeps_well_formed;
use crate::inventory::lookup;
use crate::inventory::Product;
use crate::inventory::product_valid;
use crate::inventory::product_violations;
use crate::inventory::ProductView;
use crate::inventory::set_quantity;
use crate::validate::check_at_least;
use crate::validate::check_length;

verus! {

/// One completed purchase. `purchase_price` is the unit price in cents and
/// `total_cost` the price of the whole lot.
#[derive(Debug)]
pub struct Purchase {
    pub product_name: String,
    pub quantity: u32,
    pub purchase_price: u64,
    pub timestamp: Timestamp,
    pub total_cost: u128,
}

/// The mathematical value of a [`Purchase`].
pub struct PurchaseView {
    pub product_name: Seq<char>,
    pub quantity: u32,
    pub purchase_price: u64,
    pub timestamp: Timestamp,
    pub total_cost: u128,
}

impl View for Purchase {
    type V = PurchaseView;

    open spec fn view(&self) -> PurchaseView {
        PurchaseView {
            product_name: self.product_name@,
            quantity: self.quantity,
            purchase_price: self.purchase_price,
            timestamp: self.timestamp,
            total_cost: self.total_cost,
        }
    }
}

impl Clone for Purchase {
    fn clone(&self) -> (copy: Purchase)
        ensures
            copy@ == self@,
    {
        Purchase {
            product_name: self.product_name.clone(),
            quantity: self.quantity,
            purchase_price: self.purchase_price,
            timestamp: self.timestamp,
            total_cost: self.total_cost,
        }
    }
}

impl PurchaseView {
    /// The record's fields meet their constraints and its total is derived
    /// from price and quantity.
    pub open spec fn well_formed(self) -> bool {
        &&& purchase_valid(self.product_name, self.quantity, self.purchase_price)
        &&& self.total_cost == self.purchase_price * self.quantity
    }
}

/// The constraints that a purchase with these fields violates, in field order.
pub open spec fn purchase_violations(name: Seq<char>, quantity: u32, price: u64) -> Seq<Violation> {
    (if name.len() >= 1 {
        Seq::<Violation>::empty()
    } else {
        seq![Violation::PurchaseProductName]
    }) + (if quantity >= 1 {
        Seq::<Violation>::empty()
    } else {
        seq![Violation::PurchaseQuantity]
    }) + (if price >= 1 {
        Seq::<Violation>::empty()
    } else {
        seq![Violation::PurchasePrice]
    })
}

/// A purchase is valid when it names a product, is for at least one unit and
/// costs at least one cent a unit.
pub open spec fn purchase_valid(name: Seq<char>, quantity: u32, price: u64) -> bool {
    name.len() >= 1 && quantity >= 1 && price >= 1
}

/// The values of the records of a ledger, in order.
pub open spec fn purchases_view(records: Seq<Purchase>) -> Seq<PurchaseView> {
    records.map_values(|p: Purchase| p@)
}

/// Every record of the ledger is well formed.
pub open spec fn purchases_well_formed(records: Seq<PurchaseView>) -> bool {
    forall|i: int| 0 <= i < records.len() ==> (#[trigger] records[i]).well_formed()
}

/// The sum of the total costs of the records.
pub open spec fn purchases_total(records: Seq<PurchaseView>) -> int
    decreases records.len(),
{
    if records.len() == 0 {
        0
    } else {
        purchases_total(records.drop_last()) + records.last().total_cost
    }
}

/// The record that a purchase with these fields leaves in the ledger.
pub open spec fn purchase_record(
    name: Seq<char>,
    quantity: u32,
    price: u64,
    timestamp: Timestamp,
) -> PurchaseView {
    PurchaseView {
        product_name: name,
        quantity,
        purchase_price: price,
        timestamp,
        total_cost: (price * quantity) as u128,
    }
}

/// Whether a purchase with these fields goes through: it is valid, and where
/// the catalog does not hold the product yet, the product it would create is
/// valid too.
pub open spec fn purchase_accepted(
    catalog: Seq<ProductView>,
    name: Seq<char>,
    quantity: u32,
    price: u64,
    description: Seq<char>,
) -> bool {
    &&& purchase_valid(name, quantity, price)
    &&& holds(catalog, name) || product_valid(name, price, description)
}

/// The violations reported for a purchase that does not go through: those of
/// the purchase itself, or else those of the product it would create.
pub open spec fn purchase_refusal(name: Seq<char>, quantity: u32, price: u64, description: Seq<char>)
    -> Seq<Violation> {
    if !purchase_valid(name, quantity, price) {
        purchase_violations(name, quantity, price)
    } else {
        product_violations(name, price, description)
    }
}

/// The catalog after a purchase that went through: the product's stock grows
/// by the purchased quantity, its price and description staying as they
/// were; an unknown product is appended with the purchase's price, quantity
/// and description.
pub open spec fn restocked(
    catalog: Seq<ProductView>,
    name: Seq<char>,
    quantity: u32,
    price: u64,
    description: Seq<char>,
) -> Seq<ProductView> {
    if holds(catalog, name) {
        let before = lookup(catalog, name);
        catalog.update(
            index_of(catalog, name),
            ProductView { quantity: (before.quantity + quantity) as u32, ..before },
        )
    } else {
        catalog.push(ProductView { name, price, quantity, description })
    }
}

/// Whether the stock of the named product can take `quantity` more units.
pub open spec fn stock_has_room(catalog: Seq<ProductView>, name: Seq<char>, quantity: u32) -> bool {
    holds(catalog, name) ==> lookup(catalog, name).quantity + quantity <= u32::MAX
}

/// What recording a purchase at `timestamp` does: the result and the states
/// of ledger and catalog after it, from the states before it.
pub open spec fn purchase_outcome(
    ledger: Seq<PurchaseView>,
    catalog: Seq<ProductView>,
    name: Seq<char>,
    quantity: u32,
    price: u64,
    description: Seq<char>,
    timestamp: Timestamp,
    result: Result<PurchaseView, StoreErrorView>,
    ledger_after: Seq<PurchaseView>,
    catalog_after: Seq<ProductView>,
) -> bool {
    if purchase_accepted(catalog, name, quantity, price, description) {
        &&& result == Ok::<PurchaseView, StoreErrorView>(
            purchase_record(name, quantity, price, timestamp),
        )
        &&& ledger_after == ledger.push(purchase_record(name, quantity, price, timestamp))
        &&& catalog_after == restocked(catalog, name, quantity, price, description)
    } else {
        &&& result == Err::<PurchaseView, StoreErrorView>(
            StoreErrorView::Validation(purchase_refusal(name, quantity, price, description)),
        )
        &&& ledger_after == ledger
        &&& catalog_after == catalog
    }
}

/// The view of a result of recording a purchase.
pub open spec fn purchase_result_view(result: Result<Purchase, StoreError>) -> Result<
    PurchaseView,
    StoreErrorView,
> {
    match result {
        Ok(p) => Ok(p@),
        Err(e) => Err(e@),
    }
}

/// Lists the constraints that a purchase with these fields violates.
pub fn check_purchase(name: &str, quantity: u32, price: u64) -> (found: Vec<Violation>)
    ensures
        found@ == purchase_violations(name@, quantity, price),
{
    let mut found: Vec<Violation> = Vec::new();
    if !check_length(name, Some(1), None) {
        found.push(Violation::PurchaseProductName);
    }
    if !check_at_least(quantity as u64, 1) {
        found.push(Violation::PurchaseQuantity);
    }
    if !check_at_least(price, 1) {
        found.push(Violation::PurchasePrice);
    }
    proof {
        assert(found@ =~= purchase_violations(name@, quantity, price));
    }
    found
}

/// The price of `quantity` units at `price` cents each.
pub fn lot_price(price: u64, quantity: u32) -> (total: u128)
    ensures
        total == price * quantity,
{
    proof {
        assert(price * quantity <= 0xffff_ffff_ffff_ffff * 0xffff_ffff) by (nonlinear_arith)
            requires
                0 <= price <= 0xffff_ffff_ffff_ffff,
                0 <= quantity <= 0xffff_ffff,
        ;
    }
    (price as u128) * (quantity as u128)
}

/// Tells whether the stock of the named product can take `quantity` more
/// units: whether a purchase of that many may be recorded.
pub fn has_room(inventory: &Vec<Product>, product_name: &str, quantity: u32) -> (room: bool)
    ensures
        room == stock_has_room(catalog_view(inventory@), product_name@, quantity),
{
    match find_index(inventory, product_name) {
        Some(i) => {
            proof {
                lemma_first_at_is_index(catalog_view(inventory@), product_name@, i as int);
            }
            inventory[i].quantity <= u32::MAX - quantity
        },
        None => true,
    }
}

/// The sum of the total costs of the records, or `None` where that sum is
/// more than a `u128` can hold.
pub fn total_cost(records: &[Purchase]) -> (total: Option<u128>)
    ensures
        match total {
            Some(t) => t == purchases_total(purchases_view(records@)),
            None => purchases_total(purchases_view(records@)) > u128::MAX,
        },
{
    let ghost all = purchases_view(records@);
    let mut sum: u128 = 0;
    let mut i: usize = 0;
    while i < records.len()
        invariant
            i <= records.len(),
            all == purchases_view(records@),
            sum == purchases_total(all.take(i as int)),
        decreases records.len() - i,
    {
        proof {
            assert(all.take(i + 1).drop_last() =~= all.take(i as int));
            lemma_total_grows(all, i + 1);
        }
        match sum.checked_add(records[i].total_cost) {
            Some(next) => {
                sum = next;
            },
            None => {
                return None;
            },
        }
        i += 1;
    }
    proof {
        assert(all.take(i as int) =~= all);
    }
    Some(sum)
}

/// The purchase ledger's operations.
pub trait Purchases {
    /// The records that the ledger holds, oldest first.
    spec fn records(&self) -> Seq<PurchaseView>;

    /// Records a purchase made now. The record's timestamp is whatever the
    /// clock gave; everything else is as [`Purchases::record_purchase_at`]
    /// states it, and the same is asked of the caller.
    fn record_purchase(
        &mut self,
        product_name: &str,
        quantity: u32,
        purchase_price: u64,
        description: &str,
        inventory: &mut Vec<Product>,
    ) -> (recorded: Result<Purchase, StoreError>)
        requires
            stock_has_room(catalog_view(old(inventory)@), product_name@, quantity),
        ensures
            exists|timestamp: Timestamp|
                purchase_outcome(
                    old(self).records(),
                    catalog_view(old(inventory)@),
                    product_name@,
                    quantity,
                    purchase_price,
                    description@,
                    timestamp,
                    purchase_result_view(recorded),
                    final(self).records(),
                    catalog_view(final(inventory)@),
                ),
            catalog_well_formed(catalog_view(old(inventory)@)) ==> catalog_well_formed(
                catalog_view(final(inventory)@),
            ),
            purchases_well_formed(old(self).records()) ==> purchases_well_formed(
                final(self).records(),
            ),
    ;

    /// Records a purchase made at `timestamp`. The purchase is validated
    /// first. Then an existing product is restocked, or a new one is
    /// validated and added. Last the record is appended and returned. A
    /// refusal changes neither ledger nor catalog.
    ///
    /// The stock of a product that the catalog holds must have room for the
    /// purchased units: [`has_room`] tells.
    fn record_purchase_at(
        &mut self,
        product_name: &str,
        quantity: u32,
        purchase_price: u64,
        description: &str,
        timestamp: Timestamp,
        inventory: &mut Vec<Product>,
    ) -> (recorded: Result<Purchase, StoreError>)
        requires
            stock_has_room(catalog_view(old(inventory)@), product_name@, quantity),
        ensures
            purchase_outcome(
                old(self).records(),
                catalog_view(old(inventory)@),
                product_name@,
                quantity,
                purchase_price,
                description@,
                timestamp,
                purchase_result_view(recorded),
                final(self).records(),
                catalog_view(final(inventory)@),
            ),
            catalog_well_formed(catalog_view(old(inventory)@)) ==> catalog_well_formed(
                catalog_view(final(inventory)@),
            ),
            purchases_well_formed(old(self).records()) ==> purchases_well_formed(
                final(self).records(),
            ),
    ;

    /// The sum of the total costs of all records, or `None` where that sum
    /// is more than a `u128` can hold.
    fn get_total_purchases(&self) -> (total: Option<u128>)
        ensures
            match total {
                Some(t) => t == purchases_total(self.records()),
                None => purchases_total(self.records()) > u128::MAX,
            },
    ;

    /// The records of the purchases of one product, oldest first, or `None`
    /// where there is none.
    fn get_purchases(&self, product_name: &str) -> (found: Option<Vec<Purchase>>)
        ensures
            match found {
                Some(list) => list@.len() > 0 && purchases_view(list@) == self.records().filter(
                    |p: PurchaseView| p.product_name == product_name@,
                ),
                None => self.records().filter(
                    |p: PurchaseView| p.product_name == product_name@,
                ).len() == 0,
            },
    ;
}

impl Purchases for Vec<Purchase> {
    open spec fn records(&self) -> Seq<PurchaseView> {
        purchases_view(self@)
    }

    fn record_purchase(
        &mut self,
        product_name: &str,
        quantity: u32,
        purchase_price: u64,
        description: &str,
        inventory: &mut Vec<Product>,
    ) -> (recorded: Result<Purchase, StoreError>) {
        let now = current_time();
        self.record_purchase_at(product_name, quantity, purchase_price, description, now, inventory)
    }

    fn record_purchase_at(
        &mut self,
        product_name: &str,
        quantity: u32,
        purchase_price: u64,
        description: &str,
        timestamp: Timestamp,
        inventory: &mut Vec<Product>,
    ) -> (recorded: Result<Purchase, StoreError>) {
        let purchase = Purchase {
            product_name: product_name.to_owned(),
            quantity,
            purchase_price,
            timestamp,
            total_cost: lot_price(purchase_price, quantity),
        };
        let found = check_purchase(product_name, quantity, purchase_price);
        if found.len() > 0 {
            return Err(StoreError::Validation(found));
        }
        match find_index(inventory, product_name) {
            Some(i) => {
                proof {
                    lemma_first_at_is_index(catalog_view(inventory@), product_name@, i as int);
                }
                let stock = inventory[i].quantity;
                set_quantity(inventory, i, stock + quantity);
            },
            None => {
                let gaps = check_product(product_name, purchase_price, description);
                if gaps.len() > 0 {
                    return Err(StoreError::Validation(gaps));
                }
                inventory.push(
                    Product {
                        name: product_name.to_owned(),
                        price: purchase_price,
                        quantity,
                        description: description.to_owned(),
                    },
                );
                proof {
                    assert(catalog_view(inventory@) =~= restocked(
                        catalog_view(old(inventory)@),
                        product_name@,
                        quantity,
                        purchase_price,
                        description@,
                    ));
                }
            },
        }
        self.push(purchase.clone());
        proof {
            let record = purchase_record(product_name@, quantity, purchase_price, timestamp);
            let catalog = catalog_view(old(inventory)@);
            assert(self.records() =~= old(self).records().push(record));
            if catalog_well_formed(catalog) {
                lemma_purchase_keeps_catalog_well_formed(
                    catalog,
                    product_name@,
                    quantity,
                    purchase_price,
                    description@,
                );
            }
            if purchases_well_formed(old(self).records()) {
                lemma_purchase_keeps_ledger_well_formed(
                    old(self).records(),
                    catalog,
                    product_name@,
                    quantity,
                    purchase_price,
                    description@,
                    timestamp,
                    Ok(record),
                    self.records(),
                    catalog_view(inventory@),
                );
            }
        }
        Ok(purchase)
    }

    fn get_total_purchases(&self) -> (total: Option<u128>) {
        total_cost(self.as_slice())
    }

    fn get_purchases(&self, product_name: &str) -> (found: Option<Vec<Purchase>>) {
        let ghost wanted = |p: PurchaseView| p.product_name == product_name@;
        let name = product_name.to_owned();
        let mut list: Vec<Purchase> = Vec::new();
        let mut i: usize = 0;
        while i < self.len()
            invariant
                i <= self.len(),
                wanted == |p: PurchaseView| p.product_name == product_name@,
                name@ == product_name@,
                purchases_view(list@) == self.records().take(i as int).filter(wanted),
            decreases self.len() - i,
        {
            proof {
                reveal(Seq::filter);
                assert(self.records().take(i + 1).drop_last() =~= self.records().take(i as int));
            }
            if self[i].product_name == name {
                list.push(self[i].clone());
                proof {
                    assert(purchases_view(list@) =~= self.records().take(i + 1).filter(wanted));
                }
            }
            i += 1;
        }
        proof {
            assert(self.records().take(i as int) =~= self.records());
        }
        if list.is_empty() {
            None
        } else {
            Some(list)
        }
    }
}

/// The total of a ledger is at least the total of any of its beginnings.
pub proof fn lemma_total_grows(records: Seq<PurchaseView>, n: int)
    requires
        0 <= n <= records.len(),
    ensures
        purchases_total(records.take(n)) <= purchases_total(records),
    decreases records.len() - n,
{
    if n < records.len() {
        assert(records.take(n + 1).drop_last() =~= records.take(n));
        lemma_total_grows(records, n + 1);
    } else {
        assert(records.take(n) =~= records);
    }
}

/// A purchase of a product that the catalog holds raises its stock by
/// exactly the purchased quantity and leaves its price and description as
/// they were. This is stated of every purchase that is valid or is for no
/// unit at all; any other is refused and changes nothing.
pub proof fn lemma_purchase_restocks_existing(
    catalog: Seq<ProductView>,
    name: Seq<char>,
    quantity: u32,
    price: u64,
    description: Seq<char>,
)
    requires
        holds(catalog, name),
        stock_has_room(catalog, name, quantity),
        purchase_valid(name, quantity, price) || quantity == 0,
    ensures
        ({
            let after = if purchase_accepted(catalog, name, quantity, price, description) {
                restocked(catalog, name, quantity, price, description)
            } else {
                catalog
            };
            &&& holds(after, name)
            &&& after.len() == catalog.len()
            &&& lookup(after, name).quantity == lookup(catalog, name).quantity + quantity
            &&& lookup(after, name).price == lookup(catalog, name).price
            &&& lookup(after, name).description == lookup(catalog, name).description
        }),
{
    if purchase_accepted(catalog, name, quantity, price, description) {
        let before = lookup(catalog, name);
        lemma_index_of_holds(catalog, name);
        lemma_lookup_after_update(
            catalog,
            name,
            ProductView { quantity: (before.quantity + quantity) as u32, ..before },
        );
    }
}

/// A valid purchase of a product that the catalog does not hold, with a
/// valid name and description, creates the product with the purchase's
/// price, quantity and description.
pub proof fn lemma_purchase_creates_unknown(
    catalog: Seq<ProductView>,
    name: Seq<char>,
    quantity: u32,
    price: u64,
    description: Seq<char>,
)
    requires
        !holds(catalog, name),
        purchase_accepted(catalog, name, quantity, price, description),
    ensures
        holds(restocked(catalog, name, quantity, price, description), name),
        lookup(restocked(catalog, name, quantity, price, description), name) == (ProductView {
            name,
            price,
            quantity,
            description,
        }),
{
    lemma_add_then_get(catalog, name, price, quantity, description);
}

/// A purchase that goes through keeps the catalog well formed.
pub proof fn lemma_purchase_keeps_catalog_well_formed(
    catalog: Seq<ProductView>,
    name: Seq<char>,
    quantity: u32,
    price: u64,
    description: Seq<char>,
)
    requires
        catalog_well_formed(catalog),
        purchase_accepted(catalog, name, quantity, price, description),
    ensures
        catalog_well_formed(restocked(catalog, name, quantity, price, description)),
{
    if holds(catalog, name) {
        let before = lookup(catalog, name);
        lemma_index_of_holds(catalog, name);
        lemma_update_keeps_well_formed(
            catalog,
            index_of(catalog, name),
            ProductView { quantity: (before.quantity + quantity) as u32, ..before },
        );
    } else {
        lemma_push_keeps_well_formed(catalog, ProductView { name, price, quantity, description });
    }
}

/// The ledger never comes to hold an invalid record: whatever a purchase's
/// outcome, a ledger of well-formed records stays one.
pub proof fn lemma_purchase_keeps_ledger_well_formed(
    ledger: Seq<PurchaseView>,
    catalog: Seq<ProductView>,
    name: Seq<char>,
    quantity: u32,
    price: u64,
    description: Seq<char>,
    timestamp: Timestamp,
    result: Result<PurchaseView, StoreErrorView>,
    ledger_after: Seq<PurchaseView>,
    catalog_after: Seq<ProductView>,
)
    requires
        purchases_well_formed(ledger),
        purchase_outcome(
            ledger,
            catalog,
            name,
            quantity,
            price,
            description,
            timestamp,
            result,
            ledger_after,
            catalog_after,
        ),
    ensures
        purchases_well_formed(ledger_after),
        result matches Ok(record) ==> record.well_formed(),
{
    if purchase_accepted(catalog, name, quantity, price, description) {
        let record = purchase_record(name, quantity, price, timestamp);
        assert(price * quantity <= 0xffff_ffff_ffff_ffff * 0xffff_ffff) by (nonlinear_arith)
            requires
                0 <= price <= 0xffff_ffff_ffff_ffff,
                0 <= quantity <= 0xffff_ffff,
        ;
        assert(0 <= price * quantity) by (nonlinear_arith)
            requires
                0 <= price,
                0 <= quantity,
        ;
        assert(record.well_formed());
        assert forall|i: int| 0 <= i < ledger_after.len() implies (
        #[trigger] ledger_after[i]).well_formed() by {
            if i < ledger.len() {
                assert(ledger_after[i] == ledger[i]);
            }
        }
    }
}

} // verus!
