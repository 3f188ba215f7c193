//! The ways in which an operation on the store can fail.

use vstd::prelude::*;
use vstd::string::StringExecFns;
use crate::text::decimal;
use crate::text::decimal_text;

verus! {

/// A single field constraint that a candidate record failed.
#[derive(Clone, Copy, Debug, PartialEq, Eq, Structural)]
pub enum Violation {
    /// A product's name is empty or longer than 50 characters.
    ProductName,
    /// A product's unit price is not greater than zero.
    ProductPrice,
    /// A product's description is empty or longer than 255 characters.
    ProductDescription,
    /// A purchase names no product.
    PurchaseProductName,
    /// A purchase is for fewer than one unit.
    PurchaseQuantity,
    /// A purchase's unit price is under one cent.
    PurchasePrice,
    /// A sale names no product.
    SaleProductName,
    /// A sale is for fewer than one unit.
    SaleQuantity,
    /// A sale's unit price is under one cent.
    SalePrice,
}

impl Violation {
    /// The name of the field that the constraint is on.
    pub open spec fn field_text(self) -> Seq<char> {
        match self {
            Violation::ProductName => "name"@,
            Violation::ProductPrice => "price"@,
            Violation::ProductDescription => "description"@,
            Violation::PurchaseProductName => "product_name"@,
            Violation::PurchaseQuantity => "quantity"@,
            Violation::PurchasePrice => "purchase_price"@,
            Violation::SaleProductName => "product_name"@,
            Violation::SaleQuantity => "quantity"@,
            Violation::SalePrice => "sale_price"@,
        }
    }

    /// The reason given to the user.
    pub open spec fn reason_text(self) -> Seq<char> {
        match self {
            Violation::ProductName => "Product name must be 1-50 characters"@,
            Violation::ProductPrice => "Price must be greater than 0"@,
            Violation::ProductDescription => "Description must be 1-255 characters"@,
            Violation::PurchaseProductName => "Product name cannot be empty"@,
            Violation::PurchaseQuantity => "Quantity must be at least 1"@,
            Violation::PurchasePrice => "Purchase price must be at least 0.01"@,
            Violation::SaleProductName => "Product name must be at least 1 character"@,
            Violation::SaleQuantity => "Quantity must be at least 1"@,
            Violation::SalePrice => "Sale price must be greater than 0"@,
        }
    }

    /// The name of the violated field.
    pub fn field(self) -> (text: &'static str)
        ensures
            text@ == self.field_text(),
    {
        match self {
            Violation::ProductName => "name",
            Violation::ProductPrice => "price",
            Violation::ProductDescription => "description",
            Violation::PurchaseProductName => "product_name",
            Violation::PurchaseQuantity => "quantity",
            Violation::PurchasePrice => "purchase_price",
            Violation::SaleProductName => "product_name",
            Violation::SaleQuantity => "quantity",
            Violation::SalePrice => "sale_price",
        }
    }

    /// Why the field was refused.
    pub fn reason(self) -> (text: &'static str)
        ensures
            text@ == self.reason_text(),
    {
        match self {
            Violation::ProductName => "Product name must be 1-50 characters",
            Violation::ProductPrice => "Price must be greater than 0",
            Violation::ProductDescription => "Description must be 1-255 characters",
            Violation::PurchaseProductName => "Product name cannot be empty",
            Violation::PurchaseQuantity => "Quantity must be at least 1",
            Violation::PurchasePrice => "Purchase price must be at least 0.01",
            Violation::SaleProductName => "Product name must be at least 1 character",
            Violation::SaleQuantity => "Quantity must be at least 1",
            Violation::SalePrice => "Sale price must be greater than 0",
        }
    }
}

/// Why an operation on the store was refused. Every failure leaves the
/// catalog and the ledgers as they were.
#[derive(Debug)]
pub enum StoreError {
    /// One or more field constraints were violated; they are listed in the
    /// order of the record's fields.
    Validation(Vec<Violation>),
    /// The catalog already holds a product of that name.
    DuplicateProduct,
    /// The catalog holds no product of that name.
    NotFound,
    /// The sale asks for more units than are in stock.
    InsufficientStock { available: u32, requested: u32 },
}

/// What a caller can observe of a [`StoreError`].
pub enum StoreErrorView {
    Validation(Seq<Violation>),
    DuplicateProduct,
    NotFound,
    InsufficientStock { available: u32, requested: u32 },
}

impl View for StoreError {
    type V = StoreErrorView;

    open spec fn view(&self) -> StoreErrorView {
        match *self {
            StoreError::Validation(list) => StoreErrorView::Validation(list@),
            StoreError::DuplicateProduct => StoreErrorView::DuplicateProduct,
            StoreError::NotFound => StoreErrorView::NotFound,
            StoreError::InsufficientStock { available, requested } => (StoreErrorView::InsufficientStock {
                available,
                requested,
            }),
        }
    }
}

/// A text with one violation after it, on a line of its own.
pub open spec fn with_violation(text: Seq<char>, violation: Violation) -> Seq<char> {
    text + "\n  "@ + violation.field_text() + ": "@ + violation.reason_text()
}

/// A text with the violations after it, in order.
pub open spec fn with_violations(text: Seq<char>, list: Seq<Violation>) -> Seq<char>
    decreases list.len(),
{
    if list.len() == 0 {
        text
    } else {
        with_violation(with_violations(text, list.drop_last()), list.last())
    }
}

/// What the user is told of a failure of an operation on the product
/// `name`. A lack of stock is reported with the units available and the
/// units asked for.
pub open spec fn error_text(error: StoreErrorView, name: Seq<char>) -> Seq<char> {
    match error {
        StoreErrorView::Validation(list) => with_violations("Validation errors:"@, list),
        StoreErrorView::DuplicateProduct => "Product "@ + name + " already exists"@,
        StoreErrorView::NotFound => "Product "@ + name + " not found"@,
        StoreErrorView::InsufficientStock { available, requested } => "Insufficient stock for '"@
            + name + "'. Available: "@ + decimal(available as nat) + ", Requested: "@ + decimal(
            requested as nat,
        ),
    }
}

impl StoreError {
    /// Writes what the user is told of the failure of an operation on the
    /// product `product_name`.
    pub fn message(&self, product_name: &str) -> (text: String)
        ensures
            text@ == error_text(self@, product_name@),
    {
        match self {
            StoreError::Validation(list) => {
                let mut text = String::from_str("Validation errors:");
                let mut i: usize = 0;
                while i < list.len()
                    invariant
                        i <= list.len(),
                        text@ == with_violations("Validation errors:"@, list@.take(i as int)),
                    decreases list.len() - i,
                {
                    proof {
                        assert(list@.take(i + 1).drop_last() =~= list@.take(i as int));
                    }
                    let violation = list[i];
                    text.append("\n  ");
                    text.append(violation.field());
                    text.append(": ");
                    text.append(violation.reason());
                    i += 1;
                }
                proof {
                    assert(list@.take(i as int) =~= list@);
                }
                text
            },
            StoreError::DuplicateProduct => {
                let mut text = String::from_str("Product ");
                text.append(product_name);
                text.append(" already exists");
                text
            },
            StoreError::NotFound => {
                let mut text = String::from_str("Product ");
                text.append(product_name);
                text.append(" not found");
                text
            },
            StoreError::InsufficientStock { available, requested } => {
                let have = decimal_text(*available as u128);
                let want = decimal_text(*requested as u128);
                let mut text = String::from_str("Insufficient stock for '");
                text.append(product_name);
                text.append("'. Available: ");
                text.append(have.as_str());
                text.append(", Requested: ");
                text.append(want.as_str());
                text
            },
        }
    }
}

} // verus!
