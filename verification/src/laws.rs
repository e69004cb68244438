//! What holds of the rules for every book, every limit and every trade.

use crate::riskly_error::{RisklyError, Violation};
use crate::rules::{
    early_refusal, exposure_refusal, over_allocation, projected_allocation, projected_position,
    projected_volume,
    after_order, after_removal, has_order, orders_sound, place_of, reserved_for, OrderView,
    after_request, after_reset, after_trade, amount_of, magnitude, reports,
    signed_quantity, sound, trade_verdict, Book, Limits, TradeView, SIDE_BUY, SIDE_SELL,
};
use vstd::prelude::*;

verus! {

/// No limit of any kind is configured for `asset`.
pub open spec fn unlimited(limits: Limits, asset: Seq<char>) -> bool {
    &&& !limits.max_trade_size.contains_key(asset)
    &&& !limits.max_position.contains_key(asset)
    &&& !limits.max_daily_volume.contains_key(asset)
    &&& !limits.max_allocation.contains_key(asset)
}

/// While trading is enabled, a buy or a sell of a whitelisted asset without
/// configured limits is always admitted.
pub proof fn lemma_unlimited_asset_admitted(limits: Limits, book: Book, trade: TradeView)
    requires
        book.trading_enabled,
        trade.side == SIDE_BUY || trade.side == SIDE_SELL,
        limits.allowed.contains(trade.asset),
        unlimited(limits, trade.asset),
    ensures
        trade_verdict(limits, book, trade) is None,
{
}

/// While trading is enabled, a trade of a whitelisted asset whose quantity is
/// over the configured cap on a single trade is refused as too large, with
/// the quantity and the cap, and the book stays as it was.
pub proof fn lemma_oversized_trade_refused(limits: Limits, book: Book, trade: TradeView)
    requires
        book.trading_enabled,
        limits.allowed.contains(trade.asset),
        limits.max_trade_size.contains_key(trade.asset),
        trade.quantity > limits.max_trade_size[trade.asset],
    ensures
        trade_verdict(limits, book, trade) == Some(
            Violation::TradeTooLarge(trade.quantity, limits.max_trade_size[trade.asset]),
        ),
        after_request(limits, book, trade) == book,
{
}

/// A shut gate refuses every trade, whatever the limits say.
pub proof fn lemma_shut_gate_refuses(limits: Limits, book: Book, trade: TradeView)
    requires
        !book.trading_enabled,
    ensures
        trade_verdict(limits, book, trade) == Some(Violation::TradingDisabled),
        after_request(limits, book, trade) == book,
{
}

/// Deciding twice on the same trade, with nothing recorded in between,
/// gives the same answer: the same admission, or the same refusal with the
/// same values.
pub proof fn lemma_verdict_repeats(
    limits: Limits,
    book: Book,
    trade: TradeView,
    first: Result<(), RisklyError>,
    second: Result<(), RisklyError>,
)
    requires
        reports(first, trade_verdict(limits, book, trade)),
        reports(second, trade_verdict(limits, book, trade)),
    ensures
        first is Ok <==> second is Ok,
        first is Err ==> first->Err_0@ == second->Err_0@,
{
}

/// Two trades of one asset, each of which would be admitted
/// alone, but which together would pass the asset's position cap: whichever
/// is recorded first is admitted, and the other is then refused for the
/// position it would give. Exactly one of the two goes through.
pub proof fn lemma_second_trade_refused(limits: Limits, book: Book, first: TradeView, second: TradeView)
    requires
        first.asset == second.asset,
        trade_verdict(limits, book, first) is None,
        trade_verdict(limits, book, second) is None,
        limits.max_position.contains_key(first.asset),
        magnitude(
            amount_of(book.positions, first.asset) + signed_quantity(first.side, first.quantity)
                + signed_quantity(second.side, second.quantity),
        ) > limits.max_position[first.asset],
    ensures
        after_request(limits, book, first) == after_trade(book, first),
        trade_verdict(limits, after_request(limits, book, first), second) == Some(
            Violation::ExceedsMaxPosition(
                amount_of(book.positions, first.asset) + signed_quantity(first.side, first.quantity)
                    + signed_quantity(second.side, second.quantity),
                limits.max_position[first.asset],
                first.asset,
            ),
        ),
        after_request(limits, after_request(limits, book, first), second) == after_request(
            limits,
            book,
            first,
        ),
{
}

/// After an admitted trade the position of its asset is the earlier
/// position plus the quantity for a buy, minus the quantity for a sell;
/// every other position is as it was.
pub proof fn lemma_position_round_trip(limits: Limits, book: Book, trade: TradeView, other: Seq<char>)
    requires
        trade_verdict(limits, book, trade) is None,
        other != trade.asset,
    ensures
        trade.side == SIDE_BUY ==> amount_of(after_request(limits, book, trade).positions, trade.asset)
            == amount_of(book.positions, trade.asset) + trade.quantity,
        trade.side == SIDE_SELL ==> amount_of(
            after_request(limits, book, trade).positions,
            trade.asset,
        ) == amount_of(book.positions, trade.asset) - trade.quantity,
        amount_of(after_request(limits, book, trade).positions, other) == amount_of(
            book.positions,
            other,
        ),
{
}

/// After the daily reset the volume of every asset is zero.
pub proof fn lemma_reset_clears_volume(book: Book, asset: Seq<char>)
    ensures
        amount_of(after_reset(book).daily_volume, asset) == 0,
{
}

/// Between resets the day's volume of an asset never goes down: a request
/// for a trade of positive quantity leaves it as it was or raises it by the
/// quantity.
pub proof fn lemma_volume_never_falls(limits: Limits, book: Book, trade: TradeView, asset: Seq<char>)
    requires
        trade.quantity > 0,
    ensures
        amount_of(after_request(limits, book, trade).daily_volume, asset) >= amount_of(
            book.daily_volume,
            asset,
        ),
        trade_verdict(limits, book, trade) is None ==> amount_of(
            after_request(limits, book, trade).daily_volume,
            trade.asset,
        ) == amount_of(book.daily_volume, trade.asset) + trade.quantity,
{
}

/// A request for a trade keeps the book sound: only a whitelisted asset
/// gets a position or a volume, and no volume is negative.
pub proof fn lemma_request_keeps_sound(limits: Limits, book: Book, trade: TradeView)
    requires
        sound(limits, book),
        trade.quantity > 0,
        trade.price > 0,
    ensures
        sound(limits, after_request(limits, book, trade)),
{
    let next = after_request(limits, book, trade);
    assert forall|asset: Seq<char>| #[trigger] next.daily_volume.contains_key(asset) implies
        next.daily_volume[asset] >= 0 && limits.allowed.contains(asset) by {
        if asset != trade.asset {
            assert(book.daily_volume.contains_key(asset));
        } else if book.daily_volume.contains_key(asset) {
        }
    }
    assert forall|asset: Seq<char>| #[trigger] next.positions.contains_key(asset) implies
        limits.allowed.contains(asset) by {
        if asset != trade.asset {
            assert(book.positions.contains_key(asset));
        }
    }
}

/// An order that was removed is gone: removing it once more finds nothing.
pub proof fn lemma_removed_order_is_gone(book: Book, id: int)
    requires
        orders_sound(book),
        has_order(book.orders, id),
    ensures
        !has_order(after_removal(book, id).orders, id),
        after_removal(after_removal(book, id), id) == after_removal(book, id),
{
    let place = place_of(book.orders, id);
    let rest = book.orders.remove(place);
    assert forall|i: int| 0 <= i < rest.len() implies (#[trigger] rest[i]).id != id by {
        if i < place {
            assert(rest[i] == book.orders[i]);
            assert(book.orders[i].id != book.orders[place].id);
        } else {
            assert(rest[i] == book.orders[i + 1]);
            assert(book.orders[place].id != book.orders[i + 1].id);
        }
    }
}

/// An order that joins the book reserves its signed quantity of its asset,
/// on top of what the earlier orders reserve, and nothing of any other asset.
pub proof fn lemma_order_reserves(book: Book, order: OrderView, other: Seq<char>)
    requires
        other != order.asset,
    ensures
        reserved_for(after_order(book, order).orders, order.asset) == reserved_for(
            book.orders,
            order.asset,
        ) + signed_quantity(order.side, order.quantity),
        reserved_for(after_order(book, order).orders, other) == reserved_for(book.orders, other),
{
    let joined = after_order(book, order).orders;
    assert(joined.drop_last() =~= book.orders);
}

/// Where the earlier checks pass, the portfolio has a positive value and
/// the asset has an allocation cap, a trade is refused for its allocation
/// exactly when the value of the projected position is over the cap's share
/// of the portfolio, however little; the refusal carries the share rounded
/// down, which is then at least the cap.
pub proof fn lemma_allocation_decided_exactly(limits: Limits, book: Book, trade: TradeView)
    requires
        early_refusal(limits, book, trade) is None,
        limits.max_position.contains_key(trade.asset) ==> magnitude(
            projected_position(amount_of(book.positions, trade.asset), trade),
        ) <= limits.max_position[trade.asset],
        limits.max_daily_volume.contains_key(trade.asset) ==> projected_volume(book, trade)
            <= limits.max_daily_volume[trade.asset],
        book.portfolio_value_usd > 0,
        limits.max_allocation.contains_key(trade.asset),
    ensures
        over_allocation(
            book,
            amount_of(book.positions, trade.asset),
            trade,
            limits.max_allocation[trade.asset],
        ) <==> trade_verdict(limits, book, trade) == Some(
            Violation::ExceedsMaxAllocation(
                projected_allocation(book, amount_of(book.positions, trade.asset), trade),
                limits.max_allocation[trade.asset],
                trade.asset,
            ),
        ),
        !over_allocation(
            book,
            amount_of(book.positions, trade.asset),
            trade,
            limits.max_allocation[trade.asset],
        ) <==> trade_verdict(limits, book, trade) is None,
        trade_verdict(limits, book, trade) is Some ==> projected_allocation(
            book,
            amount_of(book.positions, trade.asset),
            trade,
        ) >= limits.max_allocation[trade.asset],
{
    let exposure = amount_of(book.positions, trade.asset);
    let value = projected_position(exposure, trade) * trade.price;
    let whole = book.portfolio_value_usd;
    let cap = limits.max_allocation[trade.asset];
    if over_allocation(book, exposure, trade, cap) {
        vstd::arithmetic::div_mod::lemma_div_is_ordered(cap * whole, value, whole);
        vstd::arithmetic::div_mod::lemma_div_multiples_vanish(cap, whole);
        assert(cap * whole == whole * cap) by (nonlinear_arith);
    }
}

} // verus!
