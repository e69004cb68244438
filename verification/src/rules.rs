//! The admission rules as mathematics: what the engine decides of a request,
//! and what an admitted trade does to the book.

use crate::riskly_error::Violation;
use vstd::prelude::*;

verus! {

/// The side code of a buy.
pub const SIDE_BUY: i32 = 0;

/// The side code of a sell.
pub const SIDE_SELL: i32 = 1;

/// A proposed trade, or an order taken as one.
pub struct TradeView {
    pub asset: Seq<char>,
    pub quantity: int,
    pub price: int,
    pub side: int,
}

/// An open order.
pub struct OrderView {
    pub id: int,
    pub asset: Seq<char>,
    pub quantity: int,
    pub side: int,
    pub limit_price: int,
    pub status: int,
}

/// The configured thresholds. A symbol absent from a map has no limit there.
pub struct Limits {
    pub max_position: Map<Seq<char>, int>,
    pub max_trade_size: Map<Seq<char>, int>,
    pub max_daily_volume: Map<Seq<char>, int>,
    pub max_allocation: Map<Seq<char>, int>,
    pub allowed: Set<Seq<char>>,
    /// How many units of an amount make one whole: at least 1.
    pub scale: int,
}

/// The trading state. A symbol absent from a map stands at zero.
pub struct Book {
    pub positions: Map<Seq<char>, int>,
    pub daily_volume: Map<Seq<char>, int>,
    pub orders: Seq<OrderView>,
    pub next_order_id: int,
    pub prices: Map<Seq<char>, int>,
    pub cost_basis: Map<Seq<char>, int>,
    pub portfolio_value_usd: int,
    pub pnl_realized: int,
    pub pnl_unrealized: Map<Seq<char>, int>,
    pub trading_enabled: bool,
}

/// The book before anything happened.
pub open spec fn opening_book(trading_enabled: bool) -> Book {
    Book {
        positions: Map::empty(),
        daily_volume: Map::empty(),
        orders: Seq::empty(),
        next_order_id: 0,
        prices: Map::empty(),
        cost_basis: Map::empty(),
        portfolio_value_usd: 0,
        pnl_realized: 0,
        pnl_unrealized: Map::empty(),
        trading_enabled,
    }
}

/// The amount of `asset` in `amounts`, zero where it has none.
pub open spec fn amount_of(amounts: Map<Seq<char>, int>, asset: Seq<char>) -> int {
    if amounts.contains_key(asset) {
        amounts[asset]
    } else {
        0
    }
}

/// The change of position that a quantity on a side makes: up for a buy,
/// down for any other side.
pub open spec fn signed_quantity(side: int, quantity: int) -> int {
    if side == SIDE_BUY {
        quantity
    } else {
        -quantity
    }
}

/// The absolute value.
pub open spec fn magnitude(x: int) -> int {
    if x < 0 {
        -x
    } else {
        x
    }
}

/// The position of the trade's asset once the trade is counted on top of `exposure`.
pub open spec fn projected_position(exposure: int, trade: TradeView) -> int {
    exposure + signed_quantity(trade.side, trade.quantity)
}

/// The day's volume of the trade's asset once the trade is counted.
pub open spec fn projected_volume(book: Book, trade: TradeView) -> int {
    amount_of(book.daily_volume, trade.asset) + trade.quantity
}

/// The share of the portfolio that the projected position is worth at the
/// trade's price, as a refusal reports it: the quotient rounded towards
/// minus infinity. With position, price and portfolio value in one
/// fixed-point scale, the share is a ratio in that scale too, and so is the
/// cap that it is held against.
pub open spec fn projected_allocation(book: Book, exposure: int, trade: TradeView) -> int {
    (projected_position(exposure, trade) * trade.price) / book.portfolio_value_usd
}

/// The value of the projected position at the trade's price is over the
/// cap's share of the portfolio. The comparison is exact: nothing is rounded.
pub open spec fn over_allocation(book: Book, exposure: int, trade: TradeView, max: int) -> bool {
    projected_position(exposure, trade) * trade.price > max * book.portfolio_value_usd
}

/// The checks that read neither position nor volume, in their order: the
/// global gate, the whitelist, the size of the trade, the side code.
pub open spec fn early_refusal(limits: Limits, book: Book, trade: TradeView) -> Option<Violation> {
    let asset = trade.asset;
    if !book.trading_enabled {
        Some(Violation::TradingDisabled)
    } else if !limits.allowed.contains(asset) {
        Some(Violation::DisallowedAsset(asset))
    } else if limits.max_trade_size.contains_key(asset) && trade.quantity
        > limits.max_trade_size[asset] {
        Some(Violation::TradeTooLarge(trade.quantity, limits.max_trade_size[asset]))
    } else if trade.side != SIDE_BUY && trade.side != SIDE_SELL {
        Some(Violation::InvalidTradeSide(trade.side))
    } else {
        None
    }
}

/// The checks on what the trade would leave behind, in their order: the
/// position, the day's volume, the share of the portfolio. The last one runs
/// only where the portfolio has a positive value and the asset has a cap; it
/// refuses exactly when the value is over the cap's share, and reports the
/// share rounded down.
pub open spec fn exposure_refusal(limits: Limits, book: Book, exposure: int, trade: TradeView) -> Option<
    Violation,
> {
    let asset = trade.asset;
    if limits.max_position.contains_key(asset) && magnitude(projected_position(exposure, trade))
        > limits.max_position[asset] {
        Some(
            Violation::ExceedsMaxPosition(
                projected_position(exposure, trade),
                limits.max_position[asset],
                asset,
            ),
        )
    } else if limits.max_daily_volume.contains_key(asset) && projected_volume(book, trade)
        > limits.max_daily_volume[asset] {
        Some(
            Violation::ExceedsDailyVolume(
                projected_volume(book, trade),
                limits.max_daily_volume[asset],
                asset,
            ),
        )
    } else if book.portfolio_value_usd > 0 && limits.max_allocation.contains_key(asset)
        && over_allocation(book, exposure, trade, limits.max_allocation[asset]) {
        Some(
            Violation::ExceedsMaxAllocation(
                projected_allocation(book, exposure, trade),
                limits.max_allocation[asset],
                asset,
            ),
        )
    } else {
        None
    }
}

/// The ordered admission checks, the cheap ones first. `exposure` is the
/// position that the trade is counted on top of. `None` admits the trade;
/// otherwise the first check that fails gives the refusal.
pub open spec fn admission(limits: Limits, book: Book, exposure: int, trade: TradeView) -> Option<
    Violation,
> {
    if early_refusal(limits, book, trade) is Some {
        early_refusal(limits, book, trade)
    } else {
        exposure_refusal(limits, book, exposure, trade)
    }
}

/// What the engine decides of a trade: it is counted on top of the current position.
pub open spec fn trade_verdict(limits: Limits, book: Book, trade: TradeView) -> Option<Violation> {
    admission(limits, book, amount_of(book.positions, trade.asset), trade)
}

/// The average cost of a position after it changed by `change` at `price`:
/// nothing for no position; the price where the position was opened or
/// changed sides; the average of old cost and price, weighted by the sizes
/// and rounded down, where the position grew; the old cost where it shrank.
pub open spec fn averaged_cost(position: int, basis: int, change: int, price: int) -> int {
    let next = position + change;
    if next == 0 {
        0
    } else if position == 0 || (position > 0) != (next > 0) {
        price
    } else if magnitude(next) > magnitude(position) {
        (magnitude(position) * basis + magnitude(change) * price) / magnitude(next)
    } else {
        basis
    }
}

/// The average cost of the trade's asset once the trade is counted.
pub open spec fn projected_cost(book: Book, trade: TradeView) -> int {
    averaged_cost(
        amount_of(book.positions, trade.asset),
        amount_of(book.cost_basis, trade.asset),
        signed_quantity(trade.side, trade.quantity),
        trade.price,
    )
}

/// The book after an admitted trade: the position moves by the signed
/// quantity, the day's volume grows by the quantity, the average cost of
/// the position follows, the rest stays.
pub open spec fn after_trade(book: Book, trade: TradeView) -> Book {
    Book {
        cost_basis: book.cost_basis.insert(trade.asset, projected_cost(book, trade)),
        positions: book.positions.insert(
            trade.asset,
            projected_position(amount_of(book.positions, trade.asset), trade),
        ),
        daily_volume: book.daily_volume.insert(trade.asset, projected_volume(book, trade)),
        ..book
    }
}

/// The book after a request for a trade: changed if the trade is admitted,
/// untouched if it is refused.
pub open spec fn after_request(limits: Limits, book: Book, trade: TradeView) -> Book {
    if trade_verdict(limits, book, trade) is None {
        after_trade(book, trade)
    } else {
        book
    }
}

/// What holds of the book at all times: no volume of the day and no average
/// cost is negative, and only whitelisted assets have a position or a volume.
pub open spec fn sound(limits: Limits, book: Book) -> bool {
    &&& forall|asset: Seq<char>| #[trigger]
        book.daily_volume.contains_key(asset) ==> book.daily_volume[asset] >= 0
            && limits.allowed.contains(asset)
    &&& forall|asset: Seq<char>| #[trigger]
        book.positions.contains_key(asset) ==> limits.allowed.contains(asset)
    &&& forall|asset: Seq<char>| #[trigger]
        book.cost_basis.contains_key(asset) ==> book.cost_basis[asset] >= 0
}

/// The machine can store what an admitted trade leaves behind.
pub open spec fn recordable(book: Book, trade: TradeView) -> bool {
    &&& i64::MIN <= projected_position(amount_of(book.positions, trade.asset), trade) <= i64::MAX
    &&& projected_volume(book, trade) <= i64::MAX
}

/// The book after the daily reset: no volume, the rest as it was.
pub open spec fn after_reset(book: Book) -> Book {
    Book { daily_volume: Map::empty(), ..book }
}

/// The book with the global gate set.
pub open spec fn with_gate(book: Book, enabled: bool) -> Book {
    Book { trading_enabled: enabled, ..book }
}

/// An exec result says what the rules decided.
pub open spec fn reports(result: Result<(), crate::riskly_error::RisklyError>, verdict: Option<Violation>) -> bool {
    match result {
        Ok(_) => verdict is None,
        Err(error) => verdict == Some(error@),
    }
}

/// An order taken as a trade at its limit price.
pub open spec fn order_as_trade(order: OrderView) -> TradeView {
    TradeView {
        asset: order.asset,
        quantity: order.quantity,
        price: order.limit_price,
        side: order.side,
    }
}

/// What one order reserves of `asset`: its signed quantity, or nothing if it
/// is for another asset.
pub open spec fn reservation(order: OrderView, asset: Seq<char>) -> int {
    if order.asset == asset {
        signed_quantity(order.side, order.quantity)
    } else {
        0
    }
}

/// What the open orders together reserve of `asset`.
pub open spec fn reserved_for(orders: Seq<OrderView>, asset: Seq<char>) -> int
    decreases orders.len(),
{
    if orders.len() == 0 {
        0
    } else {
        reserved_for(orders.drop_last(), asset) + reservation(orders.last(), asset)
    }
}

/// The exposure that a new order is counted on top of: the position and
/// what the open orders already reserve.
pub open spec fn reserved_exposure(book: Book, asset: Seq<char>) -> int {
    amount_of(book.positions, asset) + reserved_for(book.orders, asset)
}

/// What the engine decides of an order: the same checks as for a trade, with
/// the open orders counted as if they were filled.
pub open spec fn order_verdict(limits: Limits, book: Book, order: OrderView) -> Option<Violation> {
    admission(limits, book, reserved_exposure(book, order.asset), order_as_trade(order))
}

/// The machine can check the order and give it an id: the exposure fits
/// where a check reads it, and an id is free where the order is admitted.
pub open spec fn orderable(limits: Limits, book: Book, order: OrderView) -> bool {
    &&& early_refusal(limits, book, order_as_trade(order)) is None ==> i64::MIN
        <= reserved_exposure(book, order.asset) <= i64::MAX
    &&& order_verdict(limits, book, order) is None ==> book.next_order_id < u64::MAX
}

/// The book once `order` waits in it under the next free id.
pub open spec fn after_order(book: Book, order: OrderView) -> Book {
    Book {
        orders: book.orders.push(OrderView { id: book.next_order_id, ..order }),
        next_order_id: book.next_order_id + 1,
        ..book
    }
}

/// The book after a request to add an order.
pub open spec fn after_order_request(limits: Limits, book: Book, order: OrderView) -> Book {
    if order_verdict(limits, book, order) is None {
        after_order(book, order)
    } else {
        book
    }
}

/// Some open order has this id.
pub open spec fn has_order(orders: Seq<OrderView>, id: int) -> bool {
    exists|i: int| 0 <= i < orders.len() && (#[trigger] orders[i]).id == id
}

/// The place of an order with this id, where there is one.
pub open spec fn place_of(orders: Seq<OrderView>, id: int) -> int {
    choose|i: int| 0 <= i < orders.len() && (#[trigger] orders[i]).id == id
}

/// The book after a request to remove the order `id`: without it if it was
/// there, untouched if not.
pub open spec fn after_removal(book: Book, id: int) -> Book {
    if has_order(book.orders, id) {
        Book { orders: book.orders.remove(place_of(book.orders, id)), ..book }
    } else {
        book
    }
}

/// The ids of the open orders differ and lie below the next free id.
pub open spec fn orders_sound(book: Book) -> bool {
    &&& forall|i: int| 0 <= i < book.orders.len() ==> 0 <= (#[trigger] book.orders[i]).id < book.next_order_id
    &&& forall|i: int, j: int|
        0 <= i < j < book.orders.len() ==> (#[trigger] book.orders[i]).id != (#[trigger] book.orders[j]).id
}

/// What a position is worth at a price, in the scale of the amounts: the
/// product of the two, brought back to one scale and rounded down.
pub open spec fn worth(position: int, price: int, scale: int) -> int {
    (position * price) / scale
}

/// What the holdings are worth at the given prices: the sum of what each
/// position is worth, an asset without a price counting for nothing.
pub open spec fn valuation(holdings: Seq<(Seq<char>, int)>, prices: Map<Seq<char>, int>, scale: int) -> int
    decreases holdings.len(),
{
    if holdings.len() == 0 {
        0
    } else {
        valuation(holdings.drop_last(), prices, scale) + worth(
            holdings.last().1,
            amount_of(prices, holdings.last().0),
            scale,
        )
    }
}

/// The machine can add the holdings up one by one: every partial sum fits.
pub open spec fn valuation_fits(holdings: Seq<(Seq<char>, int)>, prices: Map<Seq<char>, int>, scale: int) -> bool {
    forall|n: int|
        0 <= n <= holdings.len() ==> i64::MIN <= #[trigger] valuation(
            holdings.take(n),
            prices,
            scale,
        ) <= i64::MAX
}

/// The profit or loss that the position in `asset` shows at `price`: what
/// the position is worth at the price less its average cost.
pub open spec fn unrealized(book: Book, asset: Seq<char>, price: int, scale: int) -> int {
    worth(amount_of(book.positions, asset), price - amount_of(book.cost_basis, asset), scale)
}

/// The machine can hold what a new price for `asset` leaves behind.
pub open spec fn price_fits(
    book: Book,
    holdings: Seq<(Seq<char>, int)>,
    asset: Seq<char>,
    price: int,
    scale: int,
) -> bool {
    &&& i64::MIN <= unrealized(book, asset, price, scale) <= i64::MAX
    &&& valuation_fits(holdings, book.prices.insert(asset, price), scale)
}

/// The book after a new price for `asset`: the price is kept, the portfolio
/// is valued anew, and the asset's unrealised profit or loss is set. Where
/// the machine cannot hold the new amounts the book stays as it was.
pub open spec fn after_price(
    book: Book,
    holdings: Seq<(Seq<char>, int)>,
    asset: Seq<char>,
    price: int,
    scale: int,
) -> Book {
    let prices = book.prices.insert(asset, price);
    if price_fits(book, holdings, asset, price, scale) {
        Book {
            prices,
            portfolio_value_usd: valuation(holdings, prices, scale),
            pnl_unrealized: book.pnl_unrealized.insert(
                asset,
                unrealized(book, asset, price, scale),
            ),
            ..book
        }
    } else {
        book
    }
}

} // verus!
