//! The product catalog: an ordered collection of products, found by name.

use vstd::prelude::*;
use crate::error::StoreError;
use crate::error::StoreErrorView;
use crate::error::Violation;
use crate::validate::check_at_least;
use crate::validate::check_length;

verus! {

/// The longest product name, in characters.
pub const MAX_NAME_LEN: u64 = 50;

/// The longest product description, in characters.
pub const MAX_DESCRIPTION_LEN: u64 = 255;

/// A product on sale in the store. `price` is the unit price in cents.
#[derive(Debug)]
pub struct Product {
    pub name: String,
    pub price: u64,
    pub quantity: u32,
    pub description: String,
}

/// The mathematical value of a [`Product`].
pub struct ProductView {
    pub name: Seq<char>,
    pub price: u64,
    pub quantity: u32,
    pub description: Seq<char>,
}

impl View for Product {
    type V = ProductView;

    open spec fn view(&self) -> ProductView {
        ProductView {
            name: self.name@,
            price: self.price,
            quantity: self.quantity,
            description: self.description@,
        }
    }
}

/// The constraints that a product with these fields violates, in field
/// order. A quantity of zero is a valid stock level, so no quantity violates
/// anything.
pub open spec fn product_violations(name: Seq<char>, price: u64, description: Seq<char>) -> Seq<
    Violation,
> {
    (if 1 <= name.len() <= MAX_NAME_LEN {
        Seq::<Violation>::empty()
    } else {
        seq![Violation::ProductName]
    }) + (if price >= 1 {
        Seq::<Violation>::empty()
    } else {
        seq![Violation::ProductPrice]
    }) + (if 1 <= description.len() <= MAX_DESCRIPTION_LEN {
        Seq::<Violation>::empty()
    } else {
        seq![Violation::ProductDescription]
    })
}

/// A product is valid when it violates no constraint.
pub open spec fn product_valid(name: Seq<char>, price: u64, description: Seq<char>) -> bool {
    &&& 1 <= name.len() <= MAX_NAME_LEN
    &&& price >= 1
    &&& 1 <= description.len() <= MAX_DESCRIPTION_LEN
}

/// The values of the products of a catalog, in order.
pub open spec fn catalog_view(products: Seq<Product>) -> Seq<ProductView> {
    products.map_values(|p: Product| p@)
}

/// Whether the catalog holds a product of this name.
pub open spec fn holds(catalog: Seq<ProductView>, name: Seq<char>) -> bool {
    exists|i: int| 0 <= i < catalog.len() && #[trigger] catalog[i].name == name
}

/// Whether `i` is the place of the first product of this name.
pub open spec fn first_at(catalog: Seq<ProductView>, name: Seq<char>, i: int) -> bool {
    &&& 0 <= i < catalog.len()
    &&& catalog[i].name == name
    &&& forall|j: int| 0 <= j < i ==> #[trigger] catalog[j].name != name
}

/// The place of the first product of this name, where the catalog holds one.
pub open spec fn index_of(catalog: Seq<ProductView>, name: Seq<char>) -> int {
    choose|i: int| first_at(catalog, name, i)
}

/// The product of this name, where the catalog holds one.
pub open spec fn lookup(catalog: Seq<ProductView>, name: Seq<char>) -> ProductView {
    catalog[index_of(catalog, name)]
}

/// No two products of the catalog share a name.
pub open spec fn distinct_names(catalog: Seq<ProductView>) -> bool {
    forall|i: int, j: int|
        0 <= i < j < catalog.len() ==> #[trigger] catalog[i].name != #[trigger] catalog[j].name
}

impl ProductView {
    /// The product's fields meet their constraints.
    pub open spec fn well_formed(self) -> bool {
        product_valid(self.name, self.price, self.description)
    }
}

/// The catalog's invariant: no two products share a name, and every product
/// meets the constraints on its fields.
pub open spec fn catalog_well_formed(catalog: Seq<ProductView>) -> bool {
    &&& distinct_names(catalog)
    &&& forall|i: int| 0 <= i < catalog.len() ==> (#[trigger] catalog[i]).well_formed()
}

/// A first place is the only first place, and it is what `index_of` names.
pub proof fn lemma_first_at_is_index(catalog: Seq<ProductView>, name: Seq<char>, i: int)
    requires
        first_at(catalog, name, i),
    ensures
        holds(catalog, name),
        index_of(catalog, name) == i,
{
    let k = index_of(catalog, name);
    assert(first_at(catalog, name, k));
    if k < i {
        assert(catalog[k].name != name);
    } else if i < k {
        assert(catalog[i].name != name);
    }
}

/// Where the catalog holds the name, `index_of` is the first place of it.
pub proof fn lemma_index_of_holds(catalog: Seq<ProductView>, name: Seq<char>)
    requires
        holds(catalog, name),
    ensures
        first_at(catalog, name, index_of(catalog, name)),
    decreases catalog.len(),
{
    let w = choose|i: int| 0 <= i < catalog.len() && #[trigger] catalog[i].name == name;
    lemma_first_below(catalog, name, w);
}

/// Below any place that has the name lies a first place.
proof fn lemma_first_below(catalog: Seq<ProductView>, name: Seq<char>, w: int)
    requires
        0 <= w < catalog.len(),
        catalog[w].name == name,
    ensures
        exists|i: int| first_at(catalog, name, i),
    decreases w,
{
    if forall|j: int| 0 <= j < w ==> #[trigger] catalog[j].name != name {
        assert(first_at(catalog, name, w));
    } else {
        let j = choose|j: int| 0 <= j < w && #[trigger] catalog[j].name == name;
        lemma_first_below(catalog, name, j);
    }
}

/// Overwriting the first product of a name with another of the same name
/// keeps it the first: a lookup then finds the new value.
pub proof fn lemma_lookup_after_update(
    catalog: Seq<ProductView>,
    name: Seq<char>,
    replacement: ProductView,
)
    requires
        holds(catalog, name),
        replacement.name == name,
    ensures
        holds(catalog.update(index_of(catalog, name), replacement), name),
        index_of(catalog.update(index_of(catalog, name), replacement), name) == index_of(
            catalog,
            name,
        ),
        lookup(catalog.update(index_of(catalog, name), replacement), name) == replacement,
{
    lemma_index_of_holds(catalog, name);
    let i = index_of(catalog, name);
    let after = catalog.update(i, replacement);
    assert(first_at(after, name, i));
    lemma_first_at_is_index(after, name, i);
}

/// Overwriting a product with a valid one of the same name keeps the
/// catalog well formed.
pub proof fn lemma_update_keeps_well_formed(
    catalog: Seq<ProductView>,
    i: int,
    replacement: ProductView,
)
    requires
        catalog_well_formed(catalog),
        0 <= i < catalog.len(),
        replacement.name == catalog[i].name,
        replacement.well_formed(),
    ensures
        catalog_well_formed(catalog.update(i, replacement)),
{
    let after = catalog.update(i, replacement);
    assert forall|a: int, b: int| 0 <= a < b < after.len() implies #[trigger] after[a].name
        != #[trigger] after[b].name by {
        assert(after[a].name == catalog[a].name);
        assert(after[b].name == catalog[b].name);
    }
    assert forall|k: int| 0 <= k < after.len() implies (#[trigger] after[k]).well_formed() by {
        if k != i {
            assert(after[k] == catalog[k]);
        }
    }
}

/// Appending a valid product under a name that the catalog does not hold
/// keeps the catalog well formed.
pub proof fn lemma_push_keeps_well_formed(catalog: Seq<ProductView>, added: ProductView)
    requires
        catalog_well_formed(catalog),
        !holds(catalog, added.name),
        added.well_formed(),
    ensures
        catalog_well_formed(catalog.push(added)),
{
    let after = catalog.push(added);
    assert forall|a: int, b: int| 0 <= a < b < after.len() implies #[trigger] after[a].name
        != #[trigger] after[b].name by {
        if b == catalog.len() {
            assert(catalog[a].name != added.name);
        } else {
            assert(after[a].name == catalog[a].name);
            assert(after[b].name == catalog[b].name);
        }
    }
    assert forall|k: int| 0 <= k < after.len() implies (#[trigger] after[k]).well_formed() by {
        if k < catalog.len() {
            assert(after[k] == catalog[k]);
        }
    }
}

/// A product that was added is found again, with exactly the fields it was
/// added with: where the fields are valid and the name is new, `add_item`
/// appends the product, and `get_item` on the catalog so extended returns it.
pub proof fn lemma_add_then_get(
    catalog: Seq<ProductView>,
    name: Seq<char>,
    price: u64,
    quantity: u32,
    description: Seq<char>,
)
    requires
        product_valid(name, price, description),
        !holds(catalog, name),
    ensures
        holds(catalog.push(ProductView { name, price, quantity, description }), name),
        lookup(catalog.push(ProductView { name, price, quantity, description }), name)
            == (ProductView { name, price, quantity, description }),
{
    let added = ProductView { name, price, quantity, description };
    let after = catalog.push(added);
    let last = catalog.len() as int;
    assert forall|j: int| 0 <= j < last implies #[trigger] after[j].name != name by {
        assert(catalog[j].name != name);
    }
    assert(first_at(after, name, last));
    lemma_first_at_is_index(after, name, last);
}

/// In a well-formed catalog, a product that was removed is not found any
/// more, and the catalog stays well formed.
pub proof fn lemma_remove_then_get(catalog: Seq<ProductView>, name: Seq<char>)
    requires
        catalog_well_formed(catalog),
        holds(catalog, name),
    ensures
        !holds(catalog.remove(index_of(catalog, name)), name),
        catalog_well_formed(catalog.remove(index_of(catalog, name))),
{
    lemma_index_of_holds(catalog, name);
    let i = index_of(catalog, name);
    let after = catalog.remove(i);
    assert forall|j: int| 0 <= j < after.len() implies #[trigger] after[j].name != name by {
        if j < i {
            assert(after[j] == catalog[j]);
        } else {
            assert(after[j] == catalog[j + 1]);
            assert(catalog[i].name != catalog[j + 1].name);
        }
    }
    assert forall|a: int, b: int| 0 <= a < b < after.len() implies #[trigger] after[a].name
        != #[trigger] after[b].name by {
        let a0 = if a < i { a } else { a + 1 };
        let b0 = if b < i { b } else { b + 1 };
        assert(after[a] == catalog[a0]);
        assert(after[b] == catalog[b0]);
    }
    assert forall|k: int| 0 <= k < after.len() implies (#[trigger] after[k]).well_formed() by {
        let k0 = if k < i { k } else { k + 1 };
        assert(after[k] == catalog[k0]);
    }
}

impl Product {
    /// Checks the product's fields against their constraints.
    pub fn validate(&self) -> (checked: Result<(), StoreError>)
        ensures
            checked is Ok <==> product_valid(self.name@, self.price, self.description@),
            checked matches Err(e) ==> e@ == StoreErrorView::Validation(
                product_violations(self.name@, self.price, self.description@),
            ),
    {
        let found = check_product(self.name.as_str(), self.price, self.description.as_str());
        if found.len() == 0 {
            Ok(())
        } else {
            Err(StoreError::Validation(found))
        }
    }
}

/// Lists the constraints that a product with these fields violates.
pub fn check_product(name: &str, price: u64, description: &str) -> (found: Vec<Violation>)
    ensures
        found@ == product_violations(name@, price, description@),
{
    let mut found: Vec<Violation> = Vec::new();
    if !check_length(name, Some(1), Some(MAX_NAME_LEN)) {
        found.push(Violation::ProductName);
    }
    if !check_at_least(price, 1) {
        found.push(Violation::ProductPrice);
    }
    if !check_length(description, Some(1), Some(MAX_DESCRIPTION_LEN)) {
        found.push(Violation::ProductDescription);
    }
    proof {
        assert(found@ =~= product_violations(name@, price, description@));
    }
    found
}

/// Finds the place of the first product of this name.
pub fn find_index(products: &Vec<Product>, name: &str) -> (place: Option<usize>)
    ensures
        match place {
            Some(i) => first_at(catalog_view(products@), name@, i as int),
            None => !holds(catalog_view(products@), name@),
        },
{
    let wanted = name.to_owned();
    let mut i: usize = 0;
    while i < products.len()
        invariant
            i <= products.len(),
            wanted@ == name@,
            forall|j: int| 0 <= j < i ==> #[trigger] catalog_view(products@)[j].name != name@,
        decreases products.len() - i,
    {
        if products[i].name == wanted {
            return Some(i);
        }
        i += 1;
    }
    None
}

/// Sets the stock level of the product at place `i`.
pub fn set_quantity(products: &mut Vec<Product>, i: usize, quantity: u32)
    requires
        i < old(products).len(),
    ensures
        catalog_view(final(products)@) == catalog_view(old(products)@).update(
            i as int,
            (ProductView { quantity, ..old(products)[i as int]@ }),
        ),
{
    let updated = Product {
        name: products[i].name.clone(),
        price: products[i].price,
        quantity,
        description: products[i].description.clone(),
    };
    products.set(i, updated);
    proof {
        assert(catalog_view(products@) =~= catalog_view(old(products)@).update(
            i as int,
            (ProductView { quantity, ..old(products)[i as int]@ }),
        ));
    }
}

/// The catalog operations.
pub trait Inventory {
    /// The products that the catalog holds, in order.
    spec fn products(&self) -> Seq<ProductView>;

    /// Adds a product. A name that the catalog holds already is refused as a
    /// duplicate; otherwise invalid fields are refused; otherwise the product
    /// is appended. A refusal leaves the catalog as it was.
    fn add_item(&mut self, name: &str, price: u64, quantity: u32, description: &str) -> (added:
        Result<(), StoreError>)
        ensures
            match added {
                Ok(()) => {
                    &&& !holds(old(self).products(), name@)
                    &&& product_valid(name@, price, description@)
                    &&& final(self).products() == old(self).products().push(
                        (ProductView { name: name@, price, quantity, description: description@ }),
                    )
                },
                Err(e) => {
                    &&& final(self).products() == old(self).products()
                    &&& holds(old(self).products(), name@) || !product_valid(
                        name@,
                        price,
                        description@,
                    )
                    &&& e@ == (if holds(old(self).products(), name@) {
                        StoreErrorView::DuplicateProduct
                    } else {
                        StoreErrorView::Validation(product_violations(name@, price, description@))
                    })
                },
            },
            catalog_well_formed(old(self).products()) ==> catalog_well_formed(
                final(self).products(),
            ),
    ;

    /// Removes the product of this name, or reports that there is none.
    fn remove_item(&mut self, name: &str) -> (removed: Result<(), StoreError>)
        ensures
            match removed {
                Ok(()) => {
                    &&& holds(old(self).products(), name@)
                    &&& final(self).products() == old(self).products().remove(
                        index_of(old(self).products(), name@),
                    )
                },
                Err(e) => {
                    &&& !holds(old(self).products(), name@)
                    &&& e@ == StoreErrorView::NotFound
                    &&& final(self).products() == old(self).products()
                },
            },
            catalog_well_formed(old(self).products()) ==> catalog_well_formed(
                final(self).products(),
            ),
    ;

    /// Overwrites the price, quantity and description of the product of this
    /// name. The new values are validated first; then the name is looked up.
    fn update_item(&mut self, name: &str, price: u64, quantity: u32, description: &str) -> (updated:
        Result<(), StoreError>)
        ensures
            match updated {
                Ok(()) => {
                    &&& product_valid(name@, price, description@)
                    &&& holds(old(self).products(), name@)
                    &&& final(self).products() == old(self).products().update(
                        index_of(old(self).products(), name@),
                        (ProductView { name: name@, price, quantity, description: description@ }),
                    )
                },
                Err(e) => {
                    &&& final(self).products() == old(self).products()
                    &&& !product_valid(name@, price, description@) || !holds(
                        old(self).products(),
                        name@,
                    )
                    &&& e@ == (if !product_valid(name@, price, description@) {
                        StoreErrorView::Validation(product_violations(name@, price, description@))
                    } else {
                        StoreErrorView::NotFound
                    })
                },
            },
            catalog_well_formed(old(self).products()) ==> catalog_well_formed(
                final(self).products(),
            ),
    ;

    /// Looks a product up by name, changing nothing.
    fn get_item(&self, name: &str) -> (found: Option<&Product>)
        ensures
            match found {
                Some(product) => holds(self.products(), name@) && product@ == lookup(
                    self.products(),
                    name@,
                ),
                None => !holds(self.products(), name@),
            },
    ;
}

impl Inventory for Vec<Product> {
    open spec fn products(&self) -> Seq<ProductView> {
        catalog_view(self@)
    }

    fn add_item(&mut self, name: &str, price: u64, quantity: u32, description: &str) -> (added:
        Result<(), StoreError>) {
        if find_index(self, name).is_some() {
            return Err(StoreError::DuplicateProduct);
        }
        let found = check_product(name, price, description);
        if found.len() > 0 {
            return Err(StoreError::Validation(found));
        }
        let product = Product {
            name: name.to_owned(),
            price,
            quantity,
            description: description.to_owned(),
        };
        self.push(product);
        proof {
            let added = ProductView { name: name@, price, quantity, description: description@ };
            assert(self.products() =~= old(self).products().push(added));
            if catalog_well_formed(old(self).products()) {
                lemma_push_keeps_well_formed(old(self).products(), added);
            }
        }
        Ok(())
    }

    fn remove_item(&mut self, name: &str) -> (removed: Result<(), StoreError>) {
        match find_index(self, name) {
            Some(i) => {
                proof {
                    lemma_first_at_is_index(self.products(), name@, i as int);
                }
                self.remove(i);
                proof {
                    assert(self.products() =~= old(self).products().remove(i as int));
                    if catalog_well_formed(old(self).products()) {
                        lemma_remove_then_get(old(self).products(), name@);
                    }
                }
                Ok(())
            },
            None => Err(StoreError::NotFound),
        }
    }

    fn update_item(&mut self, name: &str, price: u64, quantity: u32, description: &str) -> (updated:
        Result<(), StoreError>) {
        let found = check_product(name, price, description);
        if found.len() > 0 {
            return Err(StoreError::Validation(found));
        }
        match find_index(self, name) {
            Some(i) => {
                proof {
                    lemma_first_at_is_index(self.products(), name@, i as int);
                }
                let product = Product {
                    name: name.to_owned(),
                    price,
                    quantity,
                    description: description.to_owned(),
                };
                self.set(i, product);
                proof {
                    let replacement = ProductView {
                        name: name@,
                        price,
                        quantity,
                        description: description@,
                    };
                    assert(self.products() =~= old(self).products().update(i as int, replacement));
                    if catalog_well_formed(old(self).products()) {
                        lemma_update_keeps_well_formed(old(self).products(), i as int, replacement);
                    }
                }
                Ok(())
            },
            None => Err(StoreError::NotFound),
        }
    }

    fn get_item(&self, name: &str) -> (found: Option<&Product>) {
        match find_index(self, name) {
            Some(i) => {
                proof {
                    lemma_first_at_is_index(self.products(), name@, i as int);
                }
                Some(&self[i])
            },
            None => None,
        }
    }
}

} // verus!
