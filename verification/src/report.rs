//! Reports on the catalog and the ledgers, as text.

use vstd::prelude::*;
use vstd::string::StringExecFns;
use crate::clock::format_timestamp;
use crate::clock::utc_text;
use crate::clock::Timestamp;
use crate::inventory::catalog_view;
use crate::inventory::Product;
use crate::inventory::ProductView;
use crate::purchase::lot_price;
use crate::purchase::purchases_total;
use crate::purchase::purchases_view;
use crate::purchase::total_cost;
use crate::purchase::Purchase;
use crate::purchase::PurchaseView;
use crate::sales::sales_view;
use crate::sales::Sale;
use crate::sales::SaleView;
use crate::text::balance_text;
use crate::text::decimal;
use crate::text::decimal_text;
use crate::text::money;
use crate::text::money_text;
use crate::text::signed_money;
use crate::text::signed_money_text;

verus! {

/// Writes the reports.
pub struct Reporter;

/// The sum of a sequence of numbers.
pub open spec fn sum(terms: Seq<int>) -> int
    decreases terms.len(),
{
    if terms.len() == 0 {
        0
    } else {
        sum(terms.drop_last()) + terms.last()
    }
}

/// The amounts as mathematical integers.
pub open spec fn amounts(list: Seq<u128>) -> Seq<int> {
    list.map_values(|a: u128| a as int)
}

/// The sum of the first terms of a sequence of numbers that are not negative
/// is not negative and not more than the sum of all of them.
pub proof fn lemma_sum_of_prefix(terms: Seq<int>, n: int)
    requires
        0 <= n <= terms.len(),
        forall|i: int| 0 <= i < terms.len() ==> terms[i] >= 0,
    ensures
        0 <= sum(terms.take(n)) <= sum(terms),
    decreases terms.len() - n,
{
    if n < terms.len() {
        assert(terms.take(n + 1).drop_last() =~= terms.take(n));
        lemma_sum_of_prefix(terms, n + 1);
        lemma_sum_not_negative(terms.take(n));
    } else {
        assert(terms.take(n) =~= terms);
        lemma_sum_not_negative(terms);
    }
}

/// A sum of numbers that are not negative is not negative.
pub proof fn lemma_sum_not_negative(terms: Seq<int>)
    requires
        forall|i: int| 0 <= i < terms.len() ==> terms[i] >= 0,
    ensures
        0 <= sum(terms),
    decreases terms.len(),
{
    if terms.len() > 0 {
        lemma_sum_not_negative(terms.drop_last());
    }
}

/// Adds the amounts up, or returns `None` where their sum is more than a
/// `u128` can hold.
pub fn checked_total(list: &Vec<u128>) -> (total: Option<u128>)
    ensures
        match total {
            Some(t) => t == sum(amounts(list@)),
            None => sum(amounts(list@)) > u128::MAX,
        },
{
    let ghost terms = amounts(list@);
    let mut total: u128 = 0;
    let mut i: usize = 0;
    while i < list.len()
        invariant
            i <= list.len(),
            terms == amounts(list@),
            total == sum(terms.take(i as int)),
        decreases list.len() - i,
    {
        proof {
            assert(terms.take(i + 1).drop_last() =~= terms.take(i as int));
            lemma_sum_of_prefix(terms, i + 1);
        }
        match total.checked_add(list[i]) {
            Some(next) => {
                total = next;
            },
            None => {
                return None;
            },
        }
        i += 1;
    }
    proof {
        assert(terms.take(i as int) =~= terms);
    }
    Some(total)
}

/// The number of units in stock, over all products.
pub open spec fn stock_units(catalog: Seq<ProductView>) -> int {
    sum(catalog.map_values(|p: ProductView| p.quantity as int))
}

/// The value of the stock at catalog prices, in cents.
pub open spec fn stock_value(catalog: Seq<ProductView>) -> int {
    sum(catalog.map_values(|p: ProductView| p.price * p.quantity))
}

/// Whether the totals of the catalog fit the machine's numbers.
pub open spec fn inventory_fits(catalog: Seq<ProductView>) -> bool {
    stock_units(catalog) <= u128::MAX && stock_value(catalog) <= u128::MAX
}

/// The takings of all sales, in cents.
pub open spec fn sales_revenue(records: Seq<SaleView>) -> int {
    sum(records.map_values(|s: SaleView| s.total as int))
}

/// The profits of the sales that made one, in cents.
pub open spec fn sales_gains(records: Seq<SaleView>) -> int {
    sum(records.map_values(|s: SaleView| if s.profit > 0 { s.profit as int } else { 0 }))
}

/// The losses of the sales that made one, in cents.
pub open spec fn sales_losses(records: Seq<SaleView>) -> int {
    sum(records.map_values(|s: SaleView| if s.profit < 0 { -s.profit } else { 0 }))
}

/// The profit of all sales, in cents.
pub open spec fn sales_profit(records: Seq<SaleView>) -> int {
    sum(records.map_values(|s: SaleView| s.profit as int))
}

/// Whether the totals of the sales ledger fit the machine's numbers.
pub open spec fn sales_fit(records: Seq<SaleView>) -> bool {
    &&& sales_revenue(records) <= u128::MAX
    &&& sales_gains(records) <= u128::MAX
    &&& sales_losses(records) <= u128::MAX
}

/// The profit of all sales is their gains less their losses.
pub proof fn lemma_profit_is_gains_less_losses(records: Seq<SaleView>)
    ensures
        sales_profit(records) == sales_gains(records) - sales_losses(records),
    decreases records.len(),
{
    let profits = records.map_values(|s: SaleView| s.profit as int);
    let gains = records.map_values(|s: SaleView| if s.profit > 0 { s.profit as int } else { 0 });
    let losses = records.map_values(|s: SaleView| if s.profit < 0 { -s.profit } else { 0 });
    if records.len() > 0 {
        let rest = records.drop_last();
        lemma_profit_is_gains_less_losses(rest);
        assert(profits.drop_last() =~= rest.map_values(|s: SaleView| s.profit as int));
        assert(gains.drop_last() =~= rest.map_values(
            |s: SaleView| if s.profit > 0 { s.profit as int } else { 0 },
        ));
        assert(losses.drop_last() =~= rest.map_values(
            |s: SaleView| if s.profit < 0 { -s.profit } else { 0 },
        ));
    }
}

/// What the reports show for a date: its text, or `unknown` where there is
/// none.
pub open spec fn shown_date(date: Option<Seq<char>>) -> Seq<char> {
    match date {
        Some(text) => text,
        None => "unknown"@,
    }
}

/// The date of a record as the reports show it.
pub open spec fn date_text(at: Timestamp) -> Seq<char> {
    shown_date(utc_text(at.seconds, at.nanos))
}

/// The text of a date, if there is one.
pub open spec fn date_view(date: Option<String>) -> Option<Seq<char>> {
    match date {
        Some(text) => Some(text@),
        None => None,
    }
}

/// A text with the line of one product after it.
pub open spec fn with_product_line(text: Seq<char>, p: ProductView) -> Seq<char> {
    text + "Product: "@ + p.name + " | Price: $"@ + money(p.price as nat) + " | Qty: "@ + decimal(
        p.quantity as nat,
    ) + " | Description: "@ + p.description + "\n"@
}

/// A text with the lines of the products after it, in order.
pub open spec fn with_product_lines(text: Seq<char>, catalog: Seq<ProductView>) -> Seq<char>
    decreases catalog.len(),
{
    if catalog.len() == 0 {
        text
    } else {
        with_product_line(with_product_lines(text, catalog.drop_last()), catalog.last())
    }
}

/// The inventory report: a heading, then either the line that says the
/// catalog is empty, or a line for each product and the totals.
pub open spec fn inventory_report(catalog: Seq<ProductView>) -> Seq<char> {
    if catalog.len() == 0 {
        "INVENTORY REPORT\n================\n"@ + "No products in inventory.\n"@
    } else {
        with_product_lines("INVENTORY REPORT\n================\n"@, catalog) + "\nTotal Items: "@
            + decimal(stock_units(catalog) as nat) + " | Total Value: $"@ + money(
            stock_value(catalog) as nat,
        ) + "\n"@
    }
}

/// A text with the line of one sale after it.
pub open spec fn with_sale_line(text: Seq<char>, s: SaleView, date: Seq<char>) -> Seq<char> {
    text + "Product: "@ + s.product_name + " | Qty: "@ + decimal(s.quantity as nat)
        + " | Price: $"@ + money(s.sale_price as nat) + " | Total: $"@ + money(s.total as nat)
        + " | Profit: $"@ + signed_money(s.profit as int) + " | Date: "@ + date + "\n"@
}

/// A text with the lines of the sales after it, in order.
pub open spec fn with_sale_lines(text: Seq<char>, records: Seq<SaleView>) -> Seq<char>
    decreases records.len(),
{
    if records.len() == 0 {
        text
    } else {
        with_sale_line(
            with_sale_lines(text, records.drop_last()),
            records.last(),
            date_text(records.last().timestamp),
        )
    }
}

/// The sales report: a heading, then either the line that says no sale was
/// recorded, or a line for each sale and the totals.
pub open spec fn sales_report(records: Seq<SaleView>) -> Seq<char> {
    if records.len() == 0 {
        "SALES REPORT\n============\n"@ + "No sales recorded.\n"@
    } else {
        with_sale_lines("SALES REPORT\n============\n"@, records) + "\nTotal Sales: $"@ + money(
            sales_revenue(records) as nat,
        ) + " | Total Profit: $"@ + signed_money(sales_profit(records)) + "\n"@
    }
}

/// A text with the line of one purchase after it.
pub open spec fn with_purchase_line(text: Seq<char>, p: PurchaseView, date: Seq<char>) -> Seq<
    char,
> {
    text + "Product: "@ + p.product_name + " | Qty: "@ + decimal(p.quantity as nat)
        + " | Unit Price: $"@ + money(p.purchase_price as nat) + " | Total: $"@ + money(
        p.total_cost as nat,
    ) + " | Date: "@ + date + "\n"@
}

/// A text with the lines of the purchases after it, in order.
pub open spec fn with_purchase_lines(text: Seq<char>, records: Seq<PurchaseView>) -> Seq<char>
    decreases records.len(),
{
    if records.len() == 0 {
        text
    } else {
        with_purchase_line(
            with_purchase_lines(text, records.drop_last()),
            records.last(),
            date_text(records.last().timestamp),
        )
    }
}

/// The purchase report: a heading, then either the line that says no
/// purchase was recorded, or a line for each purchase and the total.
pub open spec fn purchase_report(records: Seq<PurchaseView>) -> Seq<char> {
    if records.len() == 0 {
        "PURCHASE REPORT\n===============\n"@ + "No purchases recorded.\n"@
    } else {
        with_purchase_lines("PURCHASE REPORT\n===============\n"@, records)
            + "\nTotal Purchase Cost: $"@ + money(purchases_total(records) as nat) + "\n"@
    }
}

/// Gives what the reports show for a date: its text, or `unknown` where
/// there is none.
pub fn shown_date_text(date: Option<String>) -> (text: String)
    ensures
        text@ == shown_date(date_view(date)),
{
    match date {
        Some(text) => text,
        None => String::from_str("unknown"),
    }
}

/// Appends the line of one product to a text.
pub fn push_product_line(out: &mut String, product: &Product)
    ensures
        final(out)@ == with_product_line(old(out)@, product@),
{
    let price = money_text(product.price as u128);
    let quantity = decimal_text(product.quantity as u128);
    out.append("Product: ");
    out.append(product.name.as_str());
    out.append(" | Price: $");
    out.append(price.as_str());
    out.append(" | Qty: ");
    out.append(quantity.as_str());
    out.append(" | Description: ");
    out.append(product.description.as_str());
    out.append("\n");
}

/// Appends the line of one sale to a text, with the date as it is to be
/// shown.
pub fn push_sale_line(out: &mut String, sale: &Sale, date: &str)
    ensures
        final(out)@ == with_sale_line(old(out)@, sale@, date@),
{
    let quantity = decimal_text(sale.quantity as u128);
    let price = money_text(sale.sale_price as u128);
    let total = money_text(sale.total);
    let profit = signed_money_text(sale.profit);
    out.append("Product: ");
    out.append(sale.product_name.as_str());
    out.append(" | Qty: ");
    out.append(quantity.as_str());
    out.append(" | Price: $");
    out.append(price.as_str());
    out.append(" | Total: $");
    out.append(total.as_str());
    out.append(" | Profit: $");
    out.append(profit.as_str());
    out.append(" | Date: ");
    out.append(date);
    out.append("\n");
}

/// Appends the line of one purchase to a text, with the date as it is to be
/// shown.
pub fn push_purchase_line(out: &mut String, purchase: &Purchase, date: &str)
    ensures
        final(out)@ == with_purchase_line(old(out)@, purchase@, date@),
{
    let quantity = decimal_text(purchase.quantity as u128);
    let price = money_text(purchase.purchase_price as u128);
    let total = money_text(purchase.total_cost);
    out.append("Product: ");
    out.append(purchase.product_name.as_str());
    out.append(" | Qty: ");
    out.append(quantity.as_str());
    out.append(" | Unit Price: $");
    out.append(price.as_str());
    out.append(" | Total: $");
    out.append(total.as_str());
    out.append(" | Date: ");
    out.append(date);
    out.append("\n");
}

/// The totals of a sales ledger: the takings, and the profits and losses of
/// the single sales, each added up apart.
pub struct SalesTotals {
    pub revenue: u128,
    pub gains: u128,
    pub losses: u128,
}

impl Reporter {
    /// The units in stock and their value at catalog prices, or `None` where
    /// one of the two is more than a `u128` can hold.
    pub fn inventory_totals(inventory: &[Product]) -> (totals: Option<(u128, u128)>)
        ensures
            match totals {
                Some((units, value)) => {
                    &&& units == stock_units(catalog_view(inventory@))
                    &&& value == stock_value(catalog_view(inventory@))
                },
                None => !inventory_fits(catalog_view(inventory@)),
            },
    {
        let ghost catalog = catalog_view(inventory@);
        let mut units: Vec<u128> = Vec::new();
        let mut values: Vec<u128> = Vec::new();
        let mut i: usize = 0;
        while i < inventory.len()
            invariant
                i <= inventory.len(),
                catalog == catalog_view(inventory@),
                units@.len() == i,
                values@.len() == i,
                forall|j: int| 0 <= j < i ==> units@[j] == catalog[j].quantity,
                forall|j: int| 0 <= j < i ==> values@[j] == catalog[j].price * catalog[j].quantity,
            decreases inventory.len() - i,
        {
            units.push(inventory[i].quantity as u128);
            values.push(lot_price(inventory[i].price, inventory[i].quantity));
            i += 1;
        }
        proof {
            assert(amounts(units@) =~= catalog.map_values(|p: ProductView| p.quantity as int));
            assert(amounts(values@) =~= catalog.map_values(|p: ProductView| p.price * p.quantity));
        }
        match (checked_total(&units), checked_total(&values)) {
            (Some(u), Some(v)) => Some((u, v)),
            _ => None,
        }
    }

    /// The totals of a sales ledger, or `None` where one of them is more
    /// than a `u128` can hold.
    pub fn sales_totals(sales: &[Sale]) -> (totals: Option<SalesTotals>)
        ensures
            match totals {
                Some(t) => {
                    &&& t.revenue == sales_revenue(sales_view(sales@))
                    &&& t.gains == sales_gains(sales_view(sales@))
                    &&& t.losses == sales_losses(sales_view(sales@))
                    &&& t.gains - t.losses == sales_profit(sales_view(sales@))
                },
                None => !sales_fit(sales_view(sales@)),
            },
    {
        let ghost records = sales_view(sales@);
        let mut totals: Vec<u128> = Vec::new();
        let mut gains: Vec<u128> = Vec::new();
        let mut losses: Vec<u128> = Vec::new();
        let mut i: usize = 0;
        while i < sales.len()
            invariant
                i <= sales.len(),
                records == sales_view(sales@),
                totals@.len() == i,
                gains@.len() == i,
                losses@.len() == i,
                forall|j: int| 0 <= j < i ==> totals@[j] == records[j].total,
                forall|j: int|
                    0 <= j < i ==> gains@[j] == if records[j].profit > 0 {
                        records[j].profit as int
                    } else {
                        0
                    },
                forall|j: int|
                    0 <= j < i ==> losses@[j] == if records[j].profit < 0 {
                        -records[j].profit
                    } else {
                        0
                    },
            decreases sales.len() - i,
        {
            let profit = sales[i].profit;
            totals.push(sales[i].total);
            if profit > 0 {
                gains.push(profit as u128);
                losses.push(0);
            } else if profit < 0 {
                gains.push(0);
                losses.push((-(profit + 1)) as u128 + 1);
            } else {
                gains.push(0);
                losses.push(0);
            }
            i += 1;
        }
        proof {
            assert(amounts(totals@) =~= records.map_values(|s: SaleView| s.total as int));
            assert(amounts(gains@) =~= records.map_values(
                |s: SaleView| if s.profit > 0 { s.profit as int } else { 0 },
            ));
            assert(amounts(losses@) =~= records.map_values(
                |s: SaleView| if s.profit < 0 { -s.profit } else { 0 },
            ));
            lemma_profit_is_gains_less_losses(records);
        }
        match (checked_total(&totals), checked_total(&gains), checked_total(&losses)) {
            (Some(revenue), Some(gains), Some(losses)) => Some(
                SalesTotals { revenue, gains, losses },
            ),
            _ => None,
        }
    }

    /// Writes the inventory report. The totals must fit a `u128`, which
    /// [`Reporter::inventory_totals`] tells.
    pub fn generate_inventory_report(inventory: &[Product]) -> (report: String)
        requires
            inventory_fits(catalog_view(inventory@)),
        ensures
            report@ == inventory_report(catalog_view(inventory@)),
    {
        let ghost catalog = catalog_view(inventory@);
        let mut report = String::from_str("INVENTORY REPORT\n================\n");
        if inventory.len() == 0 {
            report.append("No products in inventory.\n");
            return report;
        }
        let mut i: usize = 0;
        while i < inventory.len()
            invariant
                i <= inventory.len(),
                catalog == catalog_view(inventory@),
                report@ == with_product_lines(
                    "INVENTORY REPORT\n================\n"@,
                    catalog.take(i as int),
                ),
            decreases inventory.len() - i,
        {
            proof {
                assert(catalog.take(i + 1).drop_last() =~= catalog.take(i as int));
            }
            push_product_line(&mut report, &inventory[i]);
            i += 1;
        }
        proof {
            assert(catalog.take(i as int) =~= catalog);
        }
        if let Some((units, value)) = Reporter::inventory_totals(inventory) {
            let units_text = decimal_text(units);
            let value_text = money_text(value);
            report.append("\nTotal Items: ");
            report.append(units_text.as_str());
            report.append(" | Total Value: $");
            report.append(value_text.as_str());
            report.append("\n");
        }
        report
    }

    /// Writes the sales report. The totals must fit a `u128`, which
    /// [`Reporter::sales_totals`] tells.
    pub fn generate_sales_report(sales: &[Sale]) -> (report: String)
        requires
            sales_fit(sales_view(sales@)),
        ensures
            report@ == sales_report(sales_view(sales@)),
    {
        let ghost records = sales_view(sales@);
        let mut report = String::from_str("SALES REPORT\n============\n");
        if sales.len() == 0 {
            report.append("No sales recorded.\n");
            return report;
        }
        let mut i: usize = 0;
        while i < sales.len()
            invariant
                i <= sales.len(),
                records == sales_view(sales@),
                report@ == with_sale_lines("SALES REPORT\n============\n"@, records.take(i as int)),
            decreases sales.len() - i,
        {
            proof {
                assert(records.take(i + 1).drop_last() =~= records.take(i as int));
            }
            let date = shown_date_text(format_timestamp(sales[i].timestamp));
            push_sale_line(&mut report, &sales[i], date.as_str());
            i += 1;
        }
        proof {
            assert(records.take(i as int) =~= records);
        }
        if let Some(totals) = Reporter::sales_totals(sales) {
            let revenue_text = money_text(totals.revenue);
            let profit_text = balance_text(totals.gains, totals.losses);
            report.append("\nTotal Sales: $");
            report.append(revenue_text.as_str());
            report.append(" | Total Profit: $");
            report.append(profit_text.as_str());
            report.append("\n");
        }
        report
    }

    /// Writes the purchase report. The total must fit a `u128`, which
    /// [`total_cost`] tells.
    pub fn generate_purchase_report(purchases: &[Purchase]) -> (report: String)
        requires
            purchases_total(purchases_view(purchases@)) <= u128::MAX,
        ensures
            report@ == purchase_report(purchases_view(purchases@)),
    {
        let ghost records = purchases_view(purchases@);
        let mut report = String::from_str("PURCHASE REPORT\n===============\n");
        if purchases.len() == 0 {
            report.append("No purchases recorded.\n");
            return report;
        }
        let mut i: usize = 0;
        while i < purchases.len()
            invariant
                i <= purchases.len(),
                records == purchases_view(purchases@),
                report@ == with_purchase_lines(
                    "PURCHASE REPORT\n===============\n"@,
                    records.take(i as int),
                ),
            decreases purchases.len() - i,
        {
            proof {
                assert(records.take(i + 1).drop_last() =~= records.take(i as int));
            }
            let date = shown_date_text(format_timestamp(purchases[i].timestamp));
            push_purchase_line(&mut report, &purchases[i], date.as_str());
            i += 1;
        }
        proof {
            assert(records.take(i as int) =~= records);
        }
        if let Some(total) = total_cost(purchases) {
            let total_text = money_text(total);
            report.append("\nTotal Purchase Cost: $");
            report.append(total_text.as_str());
            report.append("\n");
        }
        report
    }
}

} // verus!
