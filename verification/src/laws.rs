use vstd::prelude::*;

use crate::contract::{
    bought, buy_error, buy_overflows, call_error, call_fits, cancel_error, cancelled, create_error,
    created, initialize_error, list_error, listed, new_ticket, payments, redeem_error, step,
    ticket_at, ticket_sound, well_formed, with_ticket, Call, ContractView, resale_filter,
    event_filter, on_resale, of_event, redeemed,
};
use crate::fees::{lemma_split_bounds, organizer_part, platform_part, seller_part};
use crate::ticket::{TicketError, TicketView, TransferView};

verus! {

/// What `after` keeps of `before`: no ticket disappears; a ticket keeps its
/// id and its event; once resold it stays resold, and once used it stays used;
/// the settings never change once they are stored.
pub open spec fn keeps_history(before: ContractView, after: ContractView) -> bool {
    &&& before.tickets.len() <= after.tickets.len()
    &&& forall|i: int|
        0 <= i < before.tickets.len() ==> {
            let (b, a) = (#[trigger] before.tickets[i], after.tickets[i]);
            &&& a.id == b.id
            &&& a.event_id == b.event_id
            &&& b.is_resale ==> a.is_resale
            &&& b.used ==> a.used
        }
    &&& before.config is Some ==> after.config == before.config
}

/// Every call keeps the contract in a state that it reaches: tickets carry
/// their position as id, no price is negative, no used ticket is for sale,
/// the fees stay valid, and tickets exist only once the contract is initialized.
pub proof fn law_calls_keep_well_formed(s: ContractView, call: Call)
    requires
        well_formed(s),
        call_fits(s, call),
    ensures
        well_formed(step(s, call)),
{
    let t = step(s, call);
    if call_error(s, call) is None {
        match call {
            Call::CreateTicket { event_id, price } => {
                assert forall|i: int| 0 <= i < t.tickets.len() implies
                    ticket_sound(#[trigger] t.tickets[i], i) by {
                    if i < s.tickets.len() {
                        assert(t.tickets[i] == s.tickets[i]);
                    }
                }
            },
            _ => {},
        }
    }
}

/// Every call keeps the history of the tickets: in particular, redeeming is
/// irreversible and a resold ticket is never again a first sale.
pub proof fn law_calls_keep_history(s: ContractView, call: Call)
    requires
        well_formed(s),
    ensures
        keeps_history(s, step(s, call)),
{
    let t = step(s, call);
    if call_error(s, call) is None {
        match call {
            Call::CreateTicket { .. } => {
                assert forall|i: int| 0 <= i < s.tickets.len() implies t.tickets[i]
                    == #[trigger] s.tickets[i] by {}
            },
            _ => {},
        }
    }
}

/// Keeping the history is transitive, so it holds across any run of calls.
pub proof fn law_history_accumulates(a: ContractView, b: ContractView, c: ContractView)
    requires
        keeps_history(a, b),
        keeps_history(b, c),
    ensures
        keeps_history(a, c),
{
    assert forall|i: int| 0 <= i < a.tickets.len() implies {
        let (x, z) = (#[trigger] a.tickets[i], c.tickets[i]);
        &&& z.id == x.id
        &&& z.event_id == x.event_id
        &&& x.is_resale ==> z.is_resale
        &&& x.used ==> z.used
    } by {
        assert(b.tickets[i].id == a.tickets[i].id);
    }
}

/// The state after the calls, in order.
pub open spec fn run(s: ContractView, calls: Seq<Call>) -> ContractView
    decreases calls.len(),
{
    if calls.len() == 0 {
        s
    } else {
        step(run(s, calls.drop_last()), calls.last())
    }
}

/// None of the calls, in order, aborts on an arithmetic overflow.
pub open spec fn run_fits(s: ContractView, calls: Seq<Call>) -> bool
    decreases calls.len(),
{
    calls.len() == 0 || (run_fits(s, calls.drop_last()) && call_fits(
        run(s, calls.drop_last()),
        calls.last(),
    ))
}

/// Over any run of calls from a well-formed state (the new contract's, for
/// one), every state reached is well formed and keeps the history of the
/// first: ids stay sequential, prices non-negative, fees valid, used tickets
/// off sale, and no used or resold ticket ever goes back.
pub proof fn law_runs_keep_well_formed_and_history(s: ContractView, calls: Seq<Call>)
    requires
        well_formed(s),
        run_fits(s, calls),
    ensures
        well_formed(run(s, calls)),
        keeps_history(s, run(s, calls)),
    decreases calls.len(),
{
    if calls.len() == 0 {
        assert forall|i: int| 0 <= i < s.tickets.len() implies {
            let (b, a) = (#[trigger] s.tickets[i], s.tickets[i]);
            &&& a.id == b.id
            &&& a.event_id == b.event_id
            &&& b.is_resale ==> a.is_resale
            &&& b.used ==> a.used
        } by {}
    } else {
        let prefix = calls.drop_last();
        law_runs_keep_well_formed_and_history(s, prefix);
        let mid = run(s, prefix);
        law_calls_keep_well_formed(mid, calls.last());
        law_calls_keep_history(mid, calls.last());
        law_history_accumulates(s, mid, run(s, calls));
    }
}

/// The contract is initialized at most once: once it holds settings, every
/// further `initialize` is refused as already done.
pub proof fn law_initialize_once(s: ContractView, organizer_fee: i128, platform_fee: i128)
    requires
        s.config is Some,
    ensures
        initialize_error(s, organizer_fee, platform_fee) == Some(TicketError::AlreadyInit),
{
}

/// A created ticket can be read back at once under the next id: owned by the
/// organizer, at its price, for its event, neither for sale, resold nor used;
/// the tickets before it are untouched.
pub proof fn law_read_after_create(s: ContractView, event_id: u32, price: i128)
    requires
        well_formed(s),
        create_error(s, price) is None,
        s.tickets.len() < u32::MAX,
    ensures
        ticket_at(created(s, event_id, price), s.tickets.len() as u32) == Some(
            TicketView {
                id: s.tickets.len() as u32,
                event_id,
                owner: s.config->0.organizer,
                price,
                for_sale: false,
                is_resale: false,
                used: false,
            },
        ),
        forall|id: u32| id < s.tickets.len() ==> ticket_at(created(s, event_id, price), id)
            == #[trigger] ticket_at(s, id),
{
    let t = created(s, event_id, price);
    assert(t.tickets[s.tickets.len() as int] == new_ticket(s, event_id, price));
}

/// A used ticket is out of the market for good: listing it is refused as used,
/// buying it is refused as not for sale, and redeeming it again is refused as
/// already used.
pub proof fn law_used_ticket_is_spent(
    s: ContractView,
    ticket_id: u32,
    new_price: i128,
    buyer: Seq<char>,
)
    requires
        well_formed(s),
        ticket_id < s.tickets.len(),
        s.tickets[ticket_id as int].used,
    ensures
        list_error(s, ticket_id, new_price) == Some(TicketError::TicketUsed),
        buy_error(s, ticket_id, buyer) == Some(TicketError::NotSale),
        redeem_error(s, ticket_id) == Some(TicketError::AlreadyUsed),
{
    assert(ticket_sound(s.tickets[ticket_id as int], ticket_id as int));
}

/// Cancelling a listing undoes it: the ticket is as before the listing, but
/// for the price that the listing set.
pub proof fn law_cancel_undoes_list(s: ContractView, ticket_id: u32, new_price: i128)
    requires
        list_error(s, ticket_id, new_price) is None,
    ensures
        cancel_error(listed(s, ticket_id, new_price), ticket_id) is None,
        cancelled(listed(s, ticket_id, new_price), ticket_id) == with_ticket(
            s,
            ticket_id,
            TicketView { price: new_price, ..s.tickets[ticket_id as int] },
        ),
{
    let l = listed(s, ticket_id, new_price);
    let c = cancelled(l, ticket_id);
    assert(c.tickets =~= s.tickets.update(
        ticket_id as int,
        TicketView { price: new_price, ..s.tickets[ticket_id as int] },
    ));
}

/// The sum of the amounts of some payments.
pub open spec fn total(ps: Seq<TransferView>) -> int
    decreases ps.len(),
{
    if ps.len() == 0 {
        0
    } else {
        total(ps.drop_last()) + ps.last().amount
    }
}

/// A sale makes the buyer pay exactly the ticket's price, in payments that are
/// none of them negative and all of them from the buyer.
pub proof fn law_sale_pays_the_price(s: ContractView, ticket_id: u32, buyer: Seq<char>)
    requires
        well_formed(s),
        buy_error(s, ticket_id, buyer) is None,
        !buy_overflows(s, ticket_id, buyer),
    ensures
        total(payments(s, ticket_id, buyer)) == s.tickets[ticket_id as int].price,
        forall|k: int|
            0 <= k < payments(s, ticket_id, buyer).len() ==> {
                let p = #[trigger] payments(s, ticket_id, buyer)[k];
                p.from == buyer && p.amount >= 0
            },
{
    let t = s.tickets[ticket_id as int];
    let c = s.config->0;
    let ps = payments(s, ticket_id, buyer);
    assert(ticket_sound(t, ticket_id as int));
    lemma_split_bounds(t.price as int, c.organizer_fee as int, c.platform_fee as int);
    if t.is_resale {
        assert(ps.drop_last().drop_last().drop_last() =~= Seq::<TransferView>::empty());
        assert(total(Seq::<TransferView>::empty()) == 0);
        assert(ps[0].amount == organizer_part(t.price as int, c.organizer_fee as int));
        assert(ps[1].amount == platform_part(t.price as int, c.platform_fee as int));
        assert(ps[2].amount == seller_part(t.price as int, c.organizer_fee as int, c.platform_fee as int));
        assert(total(ps) == total(ps.drop_last()) + ps[2].amount);
        assert(total(ps.drop_last()) == total(ps.drop_last().drop_last()) + ps[1].amount);
        assert(total(ps.drop_last().drop_last()) == total(ps.drop_last().drop_last().drop_last())
            + ps[0].amount);
    } else {
        assert(ps.drop_last() =~= Seq::<TransferView>::empty());
        assert(total(Seq::<TransferView>::empty()) == 0);
        assert(total(ps) == total(ps.drop_last()) + ps[0].amount);
    }
}


/// Filtering a sequence around position `i`: the part before it, the element
/// itself when it passes, and the part after it.
proof fn lemma_filter_around<A>(ts: Seq<A>, i: int, pred: spec_fn(A) -> bool)
    requires
        0 <= i < ts.len(),
    ensures
        ts.filter(pred) == ts.take(i).filter(pred) + (if pred(ts[i]) {
            seq![ts[i]]
        } else {
            Seq::<A>::empty()
        }) + ts.skip(i + 1).filter(pred),
{
    let single = seq![ts[i]];
    assert(ts =~= ts.take(i) + single + ts.skip(i + 1));
    Seq::filter_distributes_over_add(ts.take(i) + single, ts.skip(i + 1), pred);
    Seq::filter_distributes_over_add(ts.take(i), single, pred);
    assert(single.drop_last() =~= Seq::<A>::empty());
    reveal_with_fuel(Seq::filter, 2);
    if pred(ts[i]) {
        assert(single.filter(pred) =~= single);
    } else {
        assert(single.filter(pred) =~= Seq::<A>::empty());
    }
}

/// The resale list of `after`, where only ticket `i` changed from `before`:
/// the resale list of `before` around position `i`, with the new ticket in the
/// middle when it is on sale as a resale.
proof fn lemma_resale_list_around(before: Seq<TicketView>, i: int, t: TicketView)
    requires
        0 <= i < before.len(),
    ensures
        resale_filter(before) == resale_filter(before.take(i)) + (if on_resale()(before[i]) {
            seq![before[i]]
        } else {
            Seq::<TicketView>::empty()
        }) + resale_filter(before.skip(i + 1)),
        resale_filter(before.update(i, t)) == resale_filter(before.take(i)) + (if on_resale()(t) {
            seq![t]
        } else {
            Seq::<TicketView>::empty()
        }) + resale_filter(before.skip(i + 1)),
{
    let after = before.update(i, t);
    lemma_filter_around(before, i, on_resale());
    lemma_filter_around(after, i, on_resale());
    assert(after.take(i) =~= before.take(i));
    assert(after.skip(i + 1) =~= before.skip(i + 1));
}

/// Listing a ticket that has been sold before puts it into the resale list at
/// the place of its id, with its new price; listing a ticket on its first sale
/// leaves the resale list as it was. Before the listing the ticket is not in
/// the list.
pub proof fn law_listing_enters_resale_list(s: ContractView, ticket_id: u32, new_price: i128)
    requires
        well_formed(s),
        list_error(s, ticket_id, new_price) is None,
    ensures
        resale_filter(s.tickets) == resale_filter(s.tickets.take(ticket_id as int))
            + resale_filter(s.tickets.skip(ticket_id + 1)),
        s.tickets[ticket_id as int].is_resale ==> resale_filter(
            listed(s, ticket_id, new_price).tickets,
        ) == resale_filter(s.tickets.take(ticket_id as int)) + seq![
            TicketView { price: new_price, for_sale: true, ..s.tickets[ticket_id as int] },
        ] + resale_filter(s.tickets.skip(ticket_id + 1)),
        !s.tickets[ticket_id as int].is_resale ==> resale_filter(
            listed(s, ticket_id, new_price).tickets,
        ) == resale_filter(s.tickets),
{
    let i = ticket_id as int;
    let t = TicketView { price: new_price, for_sale: true, ..s.tickets[i] };
    lemma_resale_list_around(s.tickets, i, t);
    let a = resale_filter(s.tickets.take(i));
    let b = resale_filter(s.tickets.skip(i + 1));
    assert(a + Seq::<TicketView>::empty() + b =~= a + b);
}

/// Cancelling the sale of a ticket, selling it and redeeming it all take it
/// out of the resale list: the list is the one around it, without it.
pub proof fn law_sale_end_leaves_resale_list(s: ContractView, ticket_id: u32, buyer: Seq<char>)
    requires
        ticket_id < s.tickets.len(),
    ensures
        cancel_error(s, ticket_id) is None ==> resale_filter(cancelled(s, ticket_id).tickets)
            == resale_filter(s.tickets.take(ticket_id as int)) + resale_filter(
            s.tickets.skip(ticket_id + 1),
        ),
        buy_error(s, ticket_id, buyer) is None ==> resale_filter(
            bought(s, ticket_id, buyer).tickets,
        ) == resale_filter(s.tickets.take(ticket_id as int)) + resale_filter(
            s.tickets.skip(ticket_id + 1),
        ),
        redeem_error(s, ticket_id) is None ==> resale_filter(redeemed(s, ticket_id).tickets)
            == resale_filter(s.tickets.take(ticket_id as int)) + resale_filter(
            s.tickets.skip(ticket_id + 1),
        ),
{
    let i = ticket_id as int;
    let t = s.tickets[i];
    let a = resale_filter(s.tickets.take(i));
    let b = resale_filter(s.tickets.skip(i + 1));
    assert(a + Seq::<TicketView>::empty() + b =~= a + b);
    lemma_resale_list_around(s.tickets, i, TicketView { for_sale: false, ..t });
    lemma_resale_list_around(
        s.tickets,
        i,
        TicketView { owner: buyer, for_sale: false, is_resale: true, ..t },
    );
    lemma_resale_list_around(s.tickets, i, TicketView { used: true, for_sale: false, ..t });
}

/// Creating a ticket appends it to the list of its own event and leaves the
/// list of every other event as it was.
pub proof fn law_create_extends_its_event_list(
    s: ContractView,
    event_id: u32,
    price: i128,
    other: u32,
)
    requires
        create_error(s, price) is None,
    ensures
        event_filter(created(s, event_id, price).tickets, event_id) == event_filter(
            s.tickets,
            event_id,
        ).push(new_ticket(s, event_id, price)),
        other != event_id ==> event_filter(created(s, event_id, price).tickets, other)
            == event_filter(s.tickets, other),
{
    let ts = created(s, event_id, price).tickets;
    assert(ts.drop_last() =~= s.tickets);
    reveal_with_fuel(Seq::filter, 1);
}

/// How many tickets the lists of the given events hold together.
pub open spec fn listed_total(tickets: Seq<TicketView>, events: Seq<u32>) -> int
    decreases events.len(),
{
    if events.len() == 0 {
        0
    } else {
        listed_total(tickets, events.drop_last()) + event_filter(tickets, events.last()).len()
    }
}

/// Adding one ticket to the tickets adds one to the lists of the given
/// (distinct) events when its event is among them, and nothing otherwise.
proof fn lemma_listed_total_push(tickets: Seq<TicketView>, events: Seq<u32>)
    requires
        tickets.len() > 0,
        events.no_duplicates(),
    ensures
        listed_total(tickets, events) == listed_total(tickets.drop_last(), events) + (if events.contains(
            tickets.last().event_id,
        ) {
            1int
        } else {
            0int
        }),
    decreases events.len(),
{
    if events.len() > 0 {
        let prefix = events.drop_last();
        assert(prefix.no_duplicates());
        lemma_listed_total_push(tickets, prefix);
        reveal_with_fuel(Seq::filter, 1);
        let x = tickets.last().event_id;
        if events.last() == x {
            assert(!prefix.contains(x));
            assert(events.contains(x)) by {
                assert(events[events.len() - 1] == x);
            }
        } else {
            assert(events.contains(x) == prefix.contains(x)) by {
                if events.contains(x) {
                    let k = choose|k: int| 0 <= k < events.len() && events[k] == x;
                    assert(prefix[k] == x);
                }
                if prefix.contains(x) {
                    let k = choose|k: int| 0 <= k < prefix.len() && prefix[k] == x;
                    assert(events[k] == x);
                }
            }
        }
    }
}

/// The event lists partition the tickets: each ticket is in the list of its
/// own event and in no other, so that the lists of distinct events that cover
/// every ticket's event hold all the tickets together, each once.
pub proof fn law_event_lists_partition(tickets: Seq<TicketView>, events: Seq<u32>, event_id: u32)
    requires
        events.no_duplicates(),
        forall|i: int| 0 <= i < tickets.len() ==> events.contains(#[trigger] tickets[i].event_id),
    ensures
        listed_total(tickets, events) == tickets.len(),
        forall|k: int|
            0 <= k < event_filter(tickets, event_id).len() ==> (#[trigger] event_filter(
                tickets,
                event_id,
            )[k]).event_id == event_id,
        forall|i: int|
            0 <= i < tickets.len() ==> event_filter(tickets, tickets[i].event_id).contains(
                #[trigger] tickets[i],
            ),
    decreases tickets.len(),
{
    broadcast use Seq::lemma_filter_pred, Seq::lemma_filter_contains;

    assert forall|i: int| 0 <= i < tickets.len() implies event_filter(
        tickets,
        tickets[i].event_id,
    ).contains(#[trigger] tickets[i]) by {
        assert(of_event(tickets[i].event_id)(tickets[i]));
    }
    assert forall|k: int| 0 <= k < event_filter(tickets, event_id).len() implies (
    #[trigger] event_filter(tickets, event_id)[k]).event_id == event_id by {
        assert(of_event(event_id)(event_filter(tickets, event_id)[k]));
    }
    if tickets.len() == 0 {
        lemma_listed_total_empty(tickets, events);
    } else {
        let rest = tickets.drop_last();
        assert forall|i: int| 0 <= i < rest.len() implies events.contains(
            #[trigger] rest[i].event_id,
        ) by {
            assert(rest[i] == tickets[i]);
        }
        law_event_lists_partition(rest, events, event_id);
        lemma_listed_total_push(tickets, events);
        assert(events.contains(tickets[tickets.len() - 1].event_id));
    }
}

/// With no tickets, every list is empty.
proof fn lemma_listed_total_empty(tickets: Seq<TicketView>, events: Seq<u32>)
    requires
        tickets.len() == 0,
    ensures
        listed_total(tickets, events) == 0,
    decreases events.len(),
{
    if events.len() > 0 {
        lemma_listed_total_empty(tickets, events.drop_last());
        reveal_with_fuel(Seq::filter, 1);
    }
}


/// Nobody buys a ticket from himself: whenever the buyer already owns an
/// existing ticket, the purchase is refused, and when the ticket is for sale
/// and unused the refusal is `SelfBuy`, on a first sale and on a resale
/// alike; no fee computation is attempted then.
pub proof fn law_owner_cannot_buy_own_ticket(s: ContractView, ticket_id: u32, buyer: Seq<char>)
    requires
        ticket_id < s.tickets.len(),
        s.tickets[ticket_id as int].owner == buyer,
    ensures
        buy_error(s, ticket_id, buyer) is Some,
        !buy_overflows(s, ticket_id, buyer),
        step(s, Call::BuyTicket { ticket_id, buyer }) == s,
        s.tickets[ticket_id as int].for_sale && !s.tickets[ticket_id as int].used ==> buy_error(
            s,
            ticket_id,
            buyer,
        ) == Some(TicketError::SelfBuy),
{
}

/// Reading a ticket gives the stored ticket as it is; right after a listing
/// it reads as for sale at the listed price, with everything else unchanged,
/// whether the ticket was sold before or not.
pub proof fn law_read_gives_stored_ticket(s: ContractView, ticket_id: u32, new_price: i128)
    requires
        ticket_id < s.tickets.len(),
    ensures
        ticket_at(s, ticket_id) == Some(s.tickets[ticket_id as int]),
        list_error(s, ticket_id, new_price) is None ==> ticket_at(
            listed(s, ticket_id, new_price),
            ticket_id,
        ) == Some(
            TicketView {
                id: s.tickets[ticket_id as int].id,
                event_id: s.tickets[ticket_id as int].event_id,
                owner: s.tickets[ticket_id as int].owner,
                price: new_price,
                for_sale: true,
                is_resale: s.tickets[ticket_id as int].is_resale,
                used: s.tickets[ticket_id as int].used,
            },
        ),
{
}

/// An owner may list a ticket that is neither for sale nor used at any price
/// that is not negative, below or above what was paid for it; a negative
/// price is refused.
pub proof fn law_any_non_negative_price_lists(s: ContractView, ticket_id: u32, new_price: i128)
    requires
        ticket_id < s.tickets.len(),
        !s.tickets[ticket_id as int].for_sale,
        !s.tickets[ticket_id as int].used,
    ensures
        new_price >= 0 ==> list_error(s, ticket_id, new_price) is None,
        new_price < 0 ==> list_error(s, ticket_id, new_price) == Some(TicketError::InvalidPrice),
{
}

/// A contract that is not initialized yet accepts `initialize` exactly when
/// neither fee is negative and together they stay under 100%; a fee of zero
/// is accepted.
pub proof fn law_initialize_accepts_valid_fees(
    s: ContractView,
    organizer_fee: i128,
    platform_fee: i128,
)
    requires
        s.config is None,
    ensures
        initialize_error(s, organizer_fee, platform_fee) is None <==> (0 <= organizer_fee && 0
            <= platform_fee && organizer_fee + platform_fee < 100),
{
}

/// An initialized contract issues a ticket at any price that is not negative,
/// zero included, and refuses a negative price.
pub proof fn law_create_accepts_non_negative_prices(s: ContractView, price: i128)
    requires
        s.config is Some,
    ensures
        create_error(s, price) is None <==> price >= 0,
        price < 0 ==> create_error(s, price) == Some(TicketError::InvalidPrice),
{
}


/// In a state that the contract reaches, a purchase is accepted exactly when
/// the ticket exists, is for sale, is not used, and is owned by someone other
/// than the buyer; the buyer then owns it, off sale, counted as resold, at the
/// same price, used as before.
pub proof fn law_buy_accepts_exactly(s: ContractView, ticket_id: u32, buyer: Seq<char>)
    requires
        well_formed(s),
    ensures
        buy_error(s, ticket_id, buyer) is None <==> (ticket_id < s.tickets.len()
            && s.tickets[ticket_id as int].for_sale && !s.tickets[ticket_id as int].used
            && s.tickets[ticket_id as int].owner != buyer),
        buy_error(s, ticket_id, buyer) is None ==> {
            let t = step(s, Call::BuyTicket { ticket_id, buyer }).tickets[ticket_id as int];
            let o = s.tickets[ticket_id as int];
            &&& t.owner == buyer
            &&& !t.for_sale
            &&& t.is_resale
            &&& t.price == o.price
            &&& t.used == o.used
            &&& t.id == o.id
            &&& t.event_id == o.event_id
        },
{
}

/// A sale pays from the buyer: on a first sale, one payment of the whole price
/// to the organizer; on a resale, the organizer's and the platform's
/// percentages of the price, rounded down, to them, and the rest to the seller.
pub proof fn law_sale_payments(s: ContractView, ticket_id: u32, buyer: Seq<char>)
    requires
        well_formed(s),
        buy_error(s, ticket_id, buyer) is None,
        !buy_overflows(s, ticket_id, buyer),
    ensures
        ({
            let ps = payments(s, ticket_id, buyer);
            let t = s.tickets[ticket_id as int];
            let c = s.config->0;
            &&& !t.is_resale ==> ps.len() == 1 && ps[0].from == buyer && ps[0].to == c.organizer
                && ps[0].amount == t.price
            &&& t.is_resale ==> ps.len() == 3 && ps[0].from == buyer && ps[1].from == buyer
                && ps[2].from == buyer && ps[0].to == c.organizer && ps[1].to == c.platform
                && ps[2].to == t.owner && ps[0].amount == t.price * c.organizer_fee / 100
                && ps[1].amount == t.price * c.platform_fee / 100 && ps[2].amount == t.price
                - ps[0].amount - ps[1].amount
        }),
{
    let t = s.tickets[ticket_id as int];
    let c = s.config->0;
    assert(ticket_sound(t, ticket_id as int));
    lemma_split_bounds(t.price as int, c.organizer_fee as int, c.platform_fee as int);
}

/// Cancelling is accepted exactly for an existing ticket that is for sale;
/// it takes the ticket off sale and changes nothing else.
pub proof fn law_cancel_accepts_exactly(s: ContractView, ticket_id: u32)
    ensures
        cancel_error(s, ticket_id) is None <==> (ticket_id < s.tickets.len()
            && s.tickets[ticket_id as int].for_sale),
        cancel_error(s, ticket_id) is None ==> step(s, Call::CancelSale { ticket_id }).tickets
            == s.tickets.update(
            ticket_id as int,
            TicketView { for_sale: false, ..s.tickets[ticket_id as int] },
        ),
        cancel_error(s, ticket_id) is None ==> step(s, Call::CancelSale { ticket_id }).config
            == s.config,
{
}

/// Redeeming is accepted exactly for an existing ticket that is not used yet,
/// listed or not; it marks the ticket used, takes it off sale, and changes
/// nothing else.
pub proof fn law_redeem_accepts_exactly(s: ContractView, ticket_id: u32)
    ensures
        redeem_error(s, ticket_id) is None <==> (ticket_id < s.tickets.len()
            && !s.tickets[ticket_id as int].used),
        redeem_error(s, ticket_id) is None ==> step(s, Call::RedeemTicket { ticket_id }).tickets
            == s.tickets.update(
            ticket_id as int,
            TicketView { used: true, for_sale: false, ..s.tickets[ticket_id as int] },
        ),
        redeem_error(s, ticket_id) is None ==> step(s, Call::RedeemTicket { ticket_id }).config
            == s.config,
{
}

/// A successful `initialize` stores exactly the given settings and starts with
/// no ticket.
pub proof fn law_initialize_stores_settings(
    s: ContractView,
    organizer: Seq<char>,
    platform: Seq<char>,
    token: Seq<char>,
    organizer_fee: i128,
    platform_fee: i128,
)
    requires
        initialize_error(s, organizer_fee, platform_fee) is None,
    ensures
        ({
            let t = step(
                s,
                Call::Initialize { organizer, platform, token, organizer_fee, platform_fee },
            );
            &&& t.config matches Some(c) && c.organizer == organizer && c.platform == platform
                && c.token == token && c.organizer_fee == organizer_fee && c.platform_fee
                == platform_fee
            &&& t.tickets.len() == 0
        }),
{
}

/// The resale list holds only tickets that are for sale and resold, and every
/// such ticket is in it.
pub proof fn law_resale_list_is_exact(tickets: Seq<TicketView>)
    ensures
        forall|k: int|
            0 <= k < resale_filter(tickets).len() ==> (#[trigger] resale_filter(tickets)[k]).for_sale
                && resale_filter(tickets)[k].is_resale,
        forall|i: int|
            0 <= i < tickets.len() && tickets[i].for_sale && tickets[i].is_resale
                ==> resale_filter(tickets).contains(#[trigger] tickets[i]),
{
    broadcast use Seq::lemma_filter_pred, Seq::lemma_filter_contains;

    assert forall|k: int| 0 <= k < resale_filter(tickets).len() implies (
    #[trigger] resale_filter(tickets)[k]).for_sale && resale_filter(tickets)[k].is_resale by {
        assert(on_resale()(resale_filter(tickets)[k]));
    }
    assert forall|i: int|
        0 <= i < tickets.len() && tickets[i].for_sale && tickets[i].is_resale implies resale_filter(
        tickets,
    ).contains(#[trigger] tickets[i]) by {
        assert(on_resale()(tickets[i]));
    }
}

} // verus!
