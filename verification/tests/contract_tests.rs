use std::collections::HashMap;

use secure_ticket::account::AccountId;
use secure_ticket::contract::{Config, SecureTicketContract};
use secure_ticket::fees::{resale_split, split_fits_exec, ResaleSplit, PERCENT_BASE};
use secure_ticket::ticket::{Approval, DataKey, Refusal, Ticket, TicketError, Transfer};

// --- Helpers ---

fn account(name: &str) -> AccountId {
    AccountId::new(String::from(name))
}

/// What the contract does with a refusal: it aborts with its message.
fn accept(result: Result<Approval, Refusal>) -> Approval {
    match result {
        Ok(approval) => approval,
        Err(refusal) => panic!("{}", refusal.error.message()),
    }
}

fn found<T>(result: Result<T, TicketError>) -> T {
    match result {
        Ok(value) => value,
        Err(error) => panic!("{}", error.message()),
    }
}

/// Balances in the payment token, moved by the payments that the contract asks for.
struct Token {
    balances: HashMap<String, i128>,
}

impl Token {
    fn new() -> Self {
        Token { balances: HashMap::new() }
    }

    fn mint(&mut self, to: &AccountId, amount: i128) {
        *self.balances.entry(to.as_str().to_string()).or_insert(0) += amount;
    }

    fn balance(&self, of: &AccountId) -> i128 {
        *self.balances.get(of.as_str()).unwrap_or(&0)
    }

    fn pay(&mut self, transfers: &[Transfer]) {
        for t in transfers {
            let from = self.balance(&t.from);
            assert!(from >= t.amount, "insufficient balance");
            self.balances.insert(t.from.as_str().to_string(), from - t.amount);
            self.mint(&t.to, t.amount);
        }
    }
}

struct Setup {
    contract: SecureTicketContract,
    organizer: AccountId,
    platform: AccountId,
    token: Token,
}

fn setup_env() -> Setup {
    let organizer = account("GORGANIZER");
    let platform = account("GPLATFORM");
    let mut contract = SecureTicketContract::new();
    accept(contract.initialize(organizer.clone(), platform.clone(), account("CTOKEN"), 20_i128, 10_i128));
    Setup { contract, organizer, platform, token: Token::new() }
}

fn create_and_list_primary_ticket(contract: &mut SecureTicketContract, ticket_id: u32, event_id: u32, price: i128) {
    accept(contract.create_ticket(event_id, price));
    accept(contract.list_ticket(ticket_id, price));
}

fn sell_primary_ticket(setup: &mut Setup, buyer: &AccountId, ticket_id: u32, event_id: u32, price: i128) {
    create_and_list_primary_ticket(&mut setup.contract, ticket_id, event_id, price);
    setup.token.mint(buyer, price);
    let approval = accept(setup.contract.buy_ticket(ticket_id, buyer));
    setup.token.pay(&approval.transfers);
}

// --- Initialization ---

#[test]
fn test_initialize_success() {
    let organizer = account("GORGANIZER");
    let mut contract = SecureTicketContract::new();
    let approval = accept(contract.initialize(organizer.clone(), account("GPLATFORM"), account("CTOKEN"), 15_i128, 10_i128));
    assert_eq!(approval.auth, organizer);
    assert!(approval.transfers.is_empty());
    assert_eq!(
        approval.writes,
        vec![DataKey::Organizer, DataKey::Platform, DataKey::Token, DataKey::OrgFee, DataKey::PlatFee, DataKey::TicketCount]
    );
    let config = contract.config().unwrap();
    assert_eq!(config.organizer_fee, 15);
    assert_eq!(config.platform_fee, 10);
    assert_eq!(config.token, account("CTOKEN"));
    assert_eq!(contract.ticket_count(), 0);
}

#[test]
#[should_panic(expected = "already_init")]
fn test_initialize_twice_panics() {
    let mut s = setup_env();
    accept(s.contract.initialize(s.organizer.clone(), s.platform.clone(), account("CTOKEN"), 10_i128, 5_i128));
}

#[test]
#[should_panic(expected = "fees_too_high")]
fn test_initialize_fees_too_high_panics() {
    let mut contract = SecureTicketContract::new();
    accept(contract.initialize(account("GORGANIZER"), account("GPLATFORM"), account("CTOKEN"), 80_i128, 20_i128));
}

#[test]
#[should_panic(expected = "negative_fees")]
fn test_initialize_negative_fees_panics() {
    let mut contract = SecureTicketContract::new();
    accept(contract.initialize(account("GORGANIZER"), account("GPLATFORM"), account("CTOKEN"), -5_i128, 10_i128));
}

// --- Ticket creation ---

#[test]
fn test_create_ticket_success() {
    let mut s = setup_env();

    accept(s.contract.create_ticket(1001, 1_000_000));
    let ticket = found(s.contract.get_ticket(0));
    assert_eq!(ticket.id, 0);
    assert_eq!(ticket.event_id, 1001);
    assert_eq!(ticket.price, 1_000_000);
    assert_eq!(ticket.owner, s.organizer);
    assert_eq!(ticket.for_sale, false);
    assert_eq!(ticket.is_resale, false);
    assert_eq!(ticket.used, false);

    accept(s.contract.create_ticket(1002, 500_000));
    let ticket2 = found(s.contract.get_ticket(1));
    assert_eq!(ticket2.id, 1);
    assert_eq!(ticket2.event_id, 1002);
}

#[test]
#[should_panic(expected = "invalid_price")]
fn test_create_ticket_negative_price_panics() {
    let mut s = setup_env();
    accept(s.contract.create_ticket(1001, -100));
}

// --- Listing ---

#[test]
fn test_list_ticket_success() {
    let mut s = setup_env();
    accept(s.contract.create_ticket(101, 1000));
    accept(s.contract.list_ticket(0, 1200));

    let ticket = found(s.contract.get_ticket(0));
    assert_eq!(ticket.for_sale, true);
    assert_eq!(ticket.price, 1200);
}

#[test]
#[should_panic(expected = "already_sale")]
fn test_list_ticket_already_for_sale_panics() {
    let mut s = setup_env();
    create_and_list_primary_ticket(&mut s.contract, 0, 101, 1000);
    accept(s.contract.list_ticket(0, 1500));
}

#[test]
#[should_panic(expected = "ticket_used")]
fn test_list_ticket_used_panics() {
    let mut s = setup_env();
    let buyer = account("GBUYER");
    let ticket_id = 0;
    sell_primary_ticket(&mut s, &buyer, ticket_id, 101, 1000);

    accept(s.contract.redeem_ticket(ticket_id));
    accept(s.contract.list_ticket(ticket_id, 1500));
}

#[test]
#[should_panic(expected = "invalid_price")]
fn test_list_ticket_negative_price_panics() {
    let mut s = setup_env();
    accept(s.contract.create_ticket(101, 1000));
    accept(s.contract.list_ticket(0, -500));
}

// --- Cancelling a sale ---

#[test]
fn test_cancel_sale_success() {
    let mut s = setup_env();
    create_and_list_primary_ticket(&mut s.contract, 0, 101, 1000);

    let ticket_before = found(s.contract.get_ticket(0));
    assert_eq!(ticket_before.for_sale, true);

    accept(s.contract.cancel_sale(0));

    let ticket_after = found(s.contract.get_ticket(0));
    assert_eq!(ticket_after.for_sale, false);
}

#[test]
#[should_panic(expected = "not_sale")]
fn test_cancel_sale_not_for_sale_panics() {
    let mut s = setup_env();
    accept(s.contract.create_ticket(101, 1000));
    accept(s.contract.cancel_sale(0));
}

// --- Buying ---

#[test]
fn test_primary_sale_flow() {
    let mut s = setup_env();
    let buyer1 = account("GBUYER1");
    s.token.mint(&buyer1, 5_000_000);

    let price = 1_000_000;
    create_and_list_primary_ticket(&mut s.contract, 0, 1001, price);

    let org_bal_before = s.token.balance(&s.organizer);
    let plat_bal_before = s.token.balance(&s.platform);
    let buyer_bal_before = s.token.balance(&buyer1);

    let approval = accept(s.contract.buy_ticket(0, &buyer1));
    assert_eq!(approval.auth, buyer1);
    s.token.pay(&approval.transfers);

    let sold_ticket = found(s.contract.get_ticket(0));
    assert_eq!(sold_ticket.owner, buyer1);
    assert_eq!(sold_ticket.for_sale, false);
    assert_eq!(sold_ticket.is_resale, true);
    assert_eq!(sold_ticket.used, false);

    assert_eq!(s.token.balance(&buyer1), buyer_bal_before - price);
    assert_eq!(s.token.balance(&s.organizer), org_bal_before + price);
    assert_eq!(s.token.balance(&s.platform), plat_bal_before);
}

#[test]
fn test_resale_flow_with_fees() {
    let mut s = setup_env();
    let buyer1 = account("GBUYER1");
    let buyer2 = account("GBUYER2");

    let primary_price = 1_000_000;
    let resale_price = 2_000_000;

    s.token.mint(&buyer1, 5_000_000);
    s.token.mint(&buyer2, 5_000_000);

    let ticket_id = 0;
    sell_primary_ticket(&mut s, &buyer1, ticket_id, 101, primary_price);

    let org_bal_after_primary = s.token.balance(&s.organizer);
    let plat_bal_after_primary = s.token.balance(&s.platform);
    let buyer1_bal_after_primary = s.token.balance(&buyer1);
    let buyer2_bal_after_primary = s.token.balance(&buyer2);

    accept(s.contract.list_ticket(ticket_id, resale_price));
    let approval = accept(s.contract.buy_ticket(ticket_id, &buyer2));
    s.token.pay(&approval.transfers);

    let resold_ticket = found(s.contract.get_ticket(0));
    assert_eq!(resold_ticket.owner, buyer2);
    assert_eq!(resold_ticket.is_resale, true);

    assert_eq!(s.token.balance(&buyer2), buyer2_bal_after_primary - resale_price);
    assert_eq!(s.token.balance(&s.organizer), org_bal_after_primary + 400_000);
    assert_eq!(s.token.balance(&s.platform), plat_bal_after_primary + 200_000);
    assert_eq!(s.token.balance(&buyer1), buyer1_bal_after_primary + 1_400_000);
}

#[test]
#[should_panic(expected = "not_sale")]
fn test_buy_ticket_not_for_sale_panics() {
    let mut s = setup_env();
    let buyer = account("GBUYER");
    s.token.mint(&buyer, 1000);

    accept(s.contract.create_ticket(101, 1000));
    accept(s.contract.buy_ticket(0, &buyer));
}

#[test]
#[should_panic(expected = "self_buy")]
fn test_buy_ticket_self_buy_panics() {
    let mut s = setup_env();
    let organizer = s.organizer.clone();
    s.token.mint(&organizer, 2000);

    create_and_list_primary_ticket(&mut s.contract, 0, 101, 1000);
    accept(s.contract.buy_ticket(0, &organizer));
}

#[test]
#[should_panic(expected = "not_sale")]
fn test_buy_ticket_used_panics() {
    let mut s = setup_env();
    let buyer1 = account("GBUYER1");
    let buyer2 = account("GBUYER2");
    s.token.mint(&buyer2, 2000);

    let ticket_id = 0;
    sell_primary_ticket(&mut s, &buyer1, ticket_id, 101, 1000);

    accept(s.contract.list_ticket(ticket_id, 1500));
    accept(s.contract.redeem_ticket(ticket_id));

    accept(s.contract.buy_ticket(ticket_id, &buyer2));
}

// --- Redeeming ---

#[test]
fn test_redeem_ticket_success() {
    let mut s = setup_env();
    let buyer = account("GBUYER");
    let ticket_id = 0;
    sell_primary_ticket(&mut s, &buyer, ticket_id, 101, 1000);

    let ticket_before = found(s.contract.get_ticket(ticket_id));
    assert_eq!(ticket_before.used, false);

    let approval = accept(s.contract.redeem_ticket(ticket_id));
    assert_eq!(approval.auth, buyer);

    let ticket_after = found(s.contract.get_ticket(ticket_id));
    assert_eq!(ticket_after.used, true);
    assert_eq!(ticket_after.owner, buyer);
}

#[test]
#[should_panic(expected = "already_used")]
fn test_redeem_ticket_already_used_panics() {
    let mut s = setup_env();
    let buyer = account("GBUYER");
    let ticket_id = 0;
    sell_primary_ticket(&mut s, &buyer, ticket_id, 101, 1000);

    accept(s.contract.redeem_ticket(ticket_id));
    accept(s.contract.redeem_ticket(ticket_id));
}

// --- Queries ---

#[test]
#[should_panic(expected = "Ticket not found")]
fn test_get_ticket_not_found_panics() {
    let s = setup_env();
    found(s.contract.get_ticket(999));
}

#[test]
fn test_get_owner_success() {
    let mut s = setup_env();
    accept(s.contract.create_ticket(101, 1000));
    let owner = found(s.contract.get_owner(0));
    assert_eq!(owner, s.organizer);
}

#[test]
fn test_get_event_tickets() {
    let mut s = setup_env();

    accept(s.contract.create_ticket(101, 1000));
    accept(s.contract.create_ticket(101, 1000));
    accept(s.contract.create_ticket(202, 500));

    let tickets_101 = s.contract.get_event_tickets(101);
    assert_eq!(tickets_101.len(), 2);
    assert_eq!(tickets_101[0].event_id, 101);

    let tickets_202 = s.contract.get_event_tickets(202);
    assert_eq!(tickets_202.len(), 1);

    let tickets_303 = s.contract.get_event_tickets(303);
    assert_eq!(tickets_303.len(), 0);
}

#[test]
fn test_get_resale_tickets() {
    let mut s = setup_env();

    create_and_list_primary_ticket(&mut s.contract, 0, 101, 1000);

    let buyer1 = account("GBUYER1");
    sell_primary_ticket(&mut s, &buyer1, 1, 102, 1000);
    accept(s.contract.list_ticket(1, 1500));

    let buyer2 = account("GBUYER2");
    sell_primary_ticket(&mut s, &buyer2, 2, 103, 1000);

    let resale_tickets = s.contract.get_resale_tickets();

    assert_eq!(resale_tickets.len(), 1);
    assert_eq!(resale_tickets[0].id, 1);
    assert_eq!(resale_tickets[0].is_resale, true);
    assert_eq!(resale_tickets[0].for_sale, true);
}

// --- Further cases ---

#[test]
fn refusal_messages_are_the_contract_texts() {
    let cases = [
        (TicketError::AlreadyInit, "already_init"),
        (TicketError::FeesTooHigh, "fees_too_high"),
        (TicketError::NegativeFees, "negative_fees"),
        (TicketError::InvalidPrice, "invalid_price"),
        (TicketError::NotInit, "Not init"),
        (TicketError::TicketNotFound, "Ticket not found"),
        (TicketError::AlreadySale, "already_sale"),
        (TicketError::TicketUsed, "ticket_used"),
        (TicketError::NotSale, "not_sale"),
        (TicketError::SelfBuy, "self_buy"),
        (TicketError::AlreadyUsed, "already_used"),
    ];
    for (error, text) in cases {
        assert_eq!(error.message(), text);
    }
}

#[test]
fn create_before_initialize_is_refused() {
    let mut contract = SecureTicketContract::new();
    let refusal = contract.create_ticket(1, 10).unwrap_err();
    assert_eq!(refusal.error, TicketError::NotInit);
    assert!(refusal.auth.is_none());
    assert_eq!(contract.ticket_count(), 0);
    // the price is checked first
    assert_eq!(contract.create_ticket(1, -1).unwrap_err().error, TicketError::InvalidPrice);
}

#[test]
fn fees_are_checked_in_order() {
    let mut contract = SecureTicketContract::new();
    // the sum is tested before the signs
    let r = contract.initialize(account("GO"), account("GP"), account("CT"), -1, 101).unwrap_err();
    assert_eq!(r.error, TicketError::FeesTooHigh);
    let r = contract.initialize(account("GO"), account("GP"), account("CT"), 99, 0);
    assert!(r.is_ok());
    assert_eq!(contract.config().unwrap().organizer_fee, 99);
}

#[test]
fn missing_tickets_are_refused_before_any_authorization() {
    let mut s = setup_env();
    let buyer = account("GBUYER");
    for r in [s.contract.list_ticket(5, 10), s.contract.cancel_sale(5), s.contract.redeem_ticket(5), s.contract.buy_ticket(5, &buyer)] {
        let refusal = r.unwrap_err();
        assert_eq!(refusal.error, TicketError::TicketNotFound);
        assert!(refusal.auth.is_none());
    }
    assert_eq!(s.contract.get_owner(5).unwrap_err(), TicketError::TicketNotFound);
}

#[test]
fn later_refusals_follow_the_authorization_check() {
    let mut s = setup_env();
    accept(s.contract.create_ticket(7, 100));
    let refusal = s.contract.cancel_sale(0).unwrap_err();
    assert_eq!(refusal.error, TicketError::NotSale);
    assert_eq!(refusal.auth, Some(s.organizer.clone()));
    let buyer = account("GBUYER");
    let refusal = s.contract.buy_ticket(0, &buyer).unwrap_err();
    assert_eq!(refusal.error, TicketError::NotSale);
    assert_eq!(refusal.auth, Some(buyer));
}

#[test]
fn creating_writes_the_ticket_and_the_count() {
    let mut s = setup_env();
    accept(s.contract.create_ticket(7, 100));
    let approval = accept(s.contract.create_ticket(8, 200));
    assert_eq!(approval.auth, s.organizer);
    assert_eq!(approval.writes, vec![DataKey::Ticket(1), DataKey::TicketCount]);
    assert_eq!(s.contract.ticket_count(), 2);
}

#[test]
fn resale_split_rounds_fees_down() {
    assert_eq!(resale_split(2_000_000, 20, 10), ResaleSplit { organizer: 400_000, platform: 200_000, seller: 1_400_000 });
    assert_eq!(resale_split(999, 20, 10), ResaleSplit { organizer: 199, platform: 99, seller: 701 });
    assert_eq!(resale_split(0, 20, 10), ResaleSplit { organizer: 0, platform: 0, seller: 0 });
    assert_eq!(resale_split(50, 0, 0), ResaleSplit { organizer: 0, platform: 0, seller: 50 });
    assert_eq!(PERCENT_BASE, 100);
}

#[test]
fn split_fits_at_the_edge_of_i128() {
    assert!(split_fits_exec(i128::MAX, 1, 0));
    assert!(!split_fits_exec(i128::MAX, 2, 0));
    assert!(split_fits_exec(i128::MAX / 99, 99, 0));
    assert!(!split_fits_exec(i128::MAX / 99 + 1, 0, 99));
}

#[test]
fn resale_payments_add_up_to_the_price() {
    let mut s = setup_env();
    let buyer1 = account("GBUYER1");
    let buyer2 = account("GBUYER2");
    sell_primary_ticket(&mut s, &buyer1, 0, 1, 10);
    accept(s.contract.list_ticket(0, 999));
    assert!(!s.contract.buy_would_overflow(0, &buyer2));
    let approval = accept(s.contract.buy_ticket(0, &buyer2));
    let amounts: Vec<i128> = approval.transfers.iter().map(|t| t.amount).collect();
    assert_eq!(amounts, vec![199, 99, 701]);
    assert_eq!(amounts.iter().sum::<i128>(), 999);
    assert!(approval.transfers.iter().all(|t| t.from == buyer2));
    assert_eq!(approval.transfers[0].to, s.organizer);
    assert_eq!(approval.transfers[1].to, s.platform);
    assert_eq!(approval.transfers[2].to, buyer1);
}

#[test]
fn huge_resale_prices_are_flagged_as_overflowing() {
    let mut s = setup_env();
    let buyer1 = account("GBUYER1");
    let buyer2 = account("GBUYER2");
    sell_primary_ticket(&mut s, &buyer1, 0, 1, 10);
    accept(s.contract.list_ticket(0, i128::MAX));
    assert!(s.contract.buy_would_overflow(0, &buyer2));
    // a primary sale at the same price computes no fee
    accept(s.contract.create_ticket(1, i128::MAX));
    accept(s.contract.list_ticket(1, i128::MAX));
    assert!(!s.contract.buy_would_overflow(1, &buyer2));
}

#[test]
fn cancel_undoes_list_but_for_the_price() {
    let mut s = setup_env();
    accept(s.contract.create_ticket(3, 100));
    accept(s.contract.list_ticket(0, 250));
    accept(s.contract.cancel_sale(0));
    let t = found(s.contract.get_ticket(0));
    assert_eq!((t.for_sale, t.price, t.is_resale, t.used), (false, 250, false, false));
    assert_eq!(t.owner, s.organizer);
}

#[test]
fn a_redeemed_ticket_stays_spent() {
    let mut s = setup_env();
    let buyer = account("GBUYER");
    sell_primary_ticket(&mut s, &buyer, 0, 1, 10);
    accept(s.contract.list_ticket(0, 20));
    accept(s.contract.redeem_ticket(0));
    let t = found(s.contract.get_ticket(0));
    assert!(t.used && !t.for_sale && t.is_resale);
    assert_eq!(s.contract.list_ticket(0, 30).unwrap_err().error, TicketError::TicketUsed);
    assert_eq!(s.contract.buy_ticket(0, &account("GOTHER")).unwrap_err().error, TicketError::NotSale);
    assert_eq!(s.contract.redeem_ticket(0).unwrap_err().error, TicketError::AlreadyUsed);
    assert!(s.contract.get_resale_tickets().is_empty());
    assert!(found(s.contract.get_ticket(0)).used);
}

#[test]
fn restore_accepts_only_reachable_states() {
    let config = || Config {
        organizer: account("GO"),
        platform: account("GP"),
        token: account("CT"),
        organizer_fee: 20,
        platform_fee: 10,
    };
    let ticket = |id: u32, used: bool, for_sale: bool, price: i128| Ticket {
        id,
        event_id: 1,
        owner: account("GO"),
        price,
        for_sale,
        is_resale: false,
        used,
    };
    let restored = SecureTicketContract::restore(Some(config()), vec![ticket(0, false, true, 5), ticket(1, true, false, 5)]);
    assert_eq!(restored.unwrap().ticket_count(), 2);
    assert!(SecureTicketContract::restore(Some(config()), vec![ticket(1, false, false, 5)]).is_none());
    assert!(SecureTicketContract::restore(Some(config()), vec![ticket(0, true, true, 5)]).is_none());
    assert!(SecureTicketContract::restore(Some(config()), vec![ticket(0, false, false, -5)]).is_none());
    assert!(SecureTicketContract::restore(None, vec![ticket(0, false, false, 5)]).is_none());
    assert!(SecureTicketContract::restore(None, vec![]).is_some());
    let mut bad_fees = config();
    bad_fees.organizer_fee = 90;
    assert!(SecureTicketContract::restore(Some(bad_fees), vec![]).is_none());
}

#[test]
fn listing_a_resold_ticket_enters_the_resale_list_in_id_order() {
    let mut s = setup_env();
    let buyers = [account("GB0"), account("GB1"), account("GB2")];
    for (id, buyer) in buyers.iter().enumerate() {
        sell_primary_ticket(&mut s, buyer, id as u32, 9, 100);
    }
    accept(s.contract.list_ticket(2, 300));
    accept(s.contract.list_ticket(0, 100));
    let ids: Vec<u32> = s.contract.get_resale_tickets().iter().map(|t| t.id).collect();
    assert_eq!(ids, vec![0, 2]);
    accept(s.contract.list_ticket(1, 200));
    let listed: Vec<(u32, i128)> = s.contract.get_resale_tickets().iter().map(|t| (t.id, t.price)).collect();
    assert_eq!(listed, vec![(0, 100), (1, 200), (2, 300)]);
    // a first-sale listing does not enter it
    accept(s.contract.create_ticket(9, 50));
    accept(s.contract.list_ticket(3, 50));
    assert_eq!(s.contract.get_resale_tickets().len(), 3);
    // cancelling, selling and redeeming each take a ticket out
    accept(s.contract.cancel_sale(1));
    accept(s.contract.buy_ticket(2, &account("GNEW")));
    accept(s.contract.redeem_ticket(0));
    assert!(s.contract.get_resale_tickets().is_empty());
}

#[test]
fn event_lists_partition_the_tickets() {
    let mut s = setup_env();
    for event in [5, 7, 5, 9, 7, 5] {
        accept(s.contract.create_ticket(event, 10));
    }
    let lists: Vec<Vec<u32>> = [5, 7, 9]
        .iter()
        .map(|e| s.contract.get_event_tickets(*e).iter().map(|t| t.id).collect())
        .collect();
    assert_eq!(lists, vec![vec![0, 2, 5], vec![1, 4], vec![3]]);
    let total: usize = lists.iter().map(|l| l.len()).sum();
    assert_eq!(total as u32, s.contract.ticket_count());
    // a new ticket extends only its own event's list
    accept(s.contract.create_ticket(7, 10));
    let sevens: Vec<u32> = s.contract.get_event_tickets(7).iter().map(|t| t.id).collect();
    assert_eq!(sevens, vec![1, 4, 6]);
    assert_eq!(s.contract.get_event_tickets(5).len(), 3);
    assert_eq!(s.contract.get_event_tickets(9).len(), 1);
}
