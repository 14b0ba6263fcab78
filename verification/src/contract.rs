use vstd::prelude::*;

use crate::account::AccountId;
use crate::fees::{
    fees_valid, organizer_part, platform_part, resale_split, seller_part, split_fits,
    split_fits_exec, lemma_split_bounds,
};
use crate::ticket::{
    checked_first, views, Approval, DataKey, Refusal, Ticket, TicketError, TicketView,
    Transfer, TransferView,
};

verus! {

/// The settings fixed when the contract is initialized.
#[derive(Debug)]
pub struct Config {
    pub organizer: AccountId,
    pub platform: AccountId,
    pub token: AccountId,
    pub organizer_fee: i128,
    pub platform_fee: i128,
}

/// The mathematical value of the settings.
pub struct ConfigView {
    pub organizer: Seq<char>,
    pub platform: Seq<char>,
    pub token: Seq<char>,
    pub organizer_fee: i128,
    pub platform_fee: i128,
}

impl View for Config {
    type V = ConfigView;

    open spec fn view(&self) -> ConfigView {
        ConfigView {
            organizer: self.organizer@,
            platform: self.platform@,
            token: self.token@,
            organizer_fee: self.organizer_fee,
            platform_fee: self.platform_fee,
        }
    }
}

/// The view of settings that may be absent.
pub open spec fn config_view(config: Option<Config>) -> Option<ConfigView> {
    match config {
        Some(c) => Some(c@),
        None => None,
    }
}

/// The views of a sequence of payments.
pub open spec fn transfer_views(transfers: Seq<Transfer>) -> Seq<TransferView> {
    transfers.map_values(|t: Transfer| t@)
}

/// The state of the contract: its settings, once it is initialized, and its
/// tickets, the ticket with id `i` at position `i`.
pub struct ContractView {
    pub config: Option<ConfigView>,
    pub tickets: Seq<TicketView>,
}

/// A stored ticket is sound at position `i`: it carries the id `i`, its price
/// is not negative, and once used it is not for sale.
pub open spec fn ticket_sound(t: TicketView, i: int) -> bool {
    &&& t.id == i
    &&& t.price >= 0
    &&& t.used ==> !t.for_sale
}

/// What every state that the contract reaches satisfies.
pub open spec fn well_formed(s: ContractView) -> bool {
    &&& s.tickets.len() <= u32::MAX
    &&& forall|i: int| 0 <= i < s.tickets.len() ==> ticket_sound(#[trigger] s.tickets[i], i)
    &&& s.config matches Some(c) ==> fees_valid(c.organizer_fee as int, c.platform_fee as int)
    &&& s.tickets.len() > 0 ==> s.config is Some
}

/// The ticket with the given id, if there is one.
pub open spec fn ticket_at(s: ContractView, ticket_id: u32) -> Option<TicketView> {
    if ticket_id < s.tickets.len() {
        Some(s.tickets[ticket_id as int])
    } else {
        None
    }
}

/// The state with ticket `ticket_id` replaced by `t`.
pub open spec fn with_ticket(s: ContractView, ticket_id: u32, t: TicketView) -> ContractView {
    ContractView { config: s.config, tickets: s.tickets.update(ticket_id as int, t) }
}

// ---- initialize ----

/// Why `initialize` refuses, if it does.
pub open spec fn initialize_error(s: ContractView, organizer_fee: i128, platform_fee: i128) -> Option<
    TicketError,
> {
    if s.config is Some {
        Some(TicketError::AlreadyInit)
    } else if organizer_fee + platform_fee >= 100 {
        Some(TicketError::FeesTooHigh)
    } else if organizer_fee < 0 || platform_fee < 0 {
        Some(TicketError::NegativeFees)
    } else {
        None
    }
}

/// The state after a successful `initialize`: the settings are stored and the
/// ticket count starts at zero.
pub open spec fn initialized(
    s: ContractView,
    organizer: Seq<char>,
    platform: Seq<char>,
    token: Seq<char>,
    organizer_fee: i128,
    platform_fee: i128,
) -> ContractView {
    ContractView {
        config: Some(ConfigView { organizer, platform, token, organizer_fee, platform_fee }),
        tickets: Seq::empty(),
    }
}

// ---- create_ticket ----

/// Why `create_ticket` refuses, if it does.
pub open spec fn create_error(s: ContractView, price: i128) -> Option<TicketError> {
    if price < 0 {
        Some(TicketError::InvalidPrice)
    } else if s.config is None {
        Some(TicketError::NotInit)
    } else {
        None
    }
}

/// The ticket that `create_ticket` issues: the next id, owned by the organizer,
/// neither for sale, resold nor used.
pub open spec fn new_ticket(s: ContractView, event_id: u32, price: i128) -> TicketView {
    TicketView {
        id: s.tickets.len() as u32,
        event_id,
        owner: s.config->0.organizer,
        price,
        for_sale: false,
        is_resale: false,
        used: false,
    }
}

/// The state after a successful `create_ticket`.
pub open spec fn created(s: ContractView, event_id: u32, price: i128) -> ContractView {
    ContractView { config: s.config, tickets: s.tickets.push(new_ticket(s, event_id, price)) }
}

// ---- list_ticket ----

/// Why `list_ticket` refuses, if it does.
pub open spec fn list_error(s: ContractView, ticket_id: u32, new_price: i128) -> Option<TicketError> {
    if ticket_id >= s.tickets.len() {
        Some(TicketError::TicketNotFound)
    } else if s.tickets[ticket_id as int].for_sale {
        Some(TicketError::AlreadySale)
    } else if s.tickets[ticket_id as int].used {
        Some(TicketError::TicketUsed)
    } else if new_price < 0 {
        Some(TicketError::InvalidPrice)
    } else {
        None
    }
}

/// The state after a successful `list_ticket`: the ticket is for sale at the new price.
pub open spec fn listed(s: ContractView, ticket_id: u32, new_price: i128) -> ContractView {
    let t = s.tickets[ticket_id as int];
    with_ticket(s, ticket_id, TicketView { price: new_price, for_sale: true, ..t })
}

// ---- cancel_sale ----

/// Why `cancel_sale` refuses, if it does.
pub open spec fn cancel_error(s: ContractView, ticket_id: u32) -> Option<TicketError> {
    if ticket_id >= s.tickets.len() {
        Some(TicketError::TicketNotFound)
    } else if !s.tickets[ticket_id as int].for_sale {
        Some(TicketError::NotSale)
    } else {
        None
    }
}

/// The state after a successful `cancel_sale`: the ticket is off sale.
pub open spec fn cancelled(s: ContractView, ticket_id: u32) -> ContractView {
    let t = s.tickets[ticket_id as int];
    with_ticket(s, ticket_id, TicketView { for_sale: false, ..t })
}

// ---- buy_ticket ----

/// Why `buy_ticket` refuses, if it does.
pub open spec fn buy_error(s: ContractView, ticket_id: u32, buyer: Seq<char>) -> Option<TicketError> {
    if ticket_id >= s.tickets.len() {
        Some(TicketError::TicketNotFound)
    } else if !s.tickets[ticket_id as int].for_sale {
        Some(TicketError::NotSale)
    } else if s.tickets[ticket_id as int].used {
        Some(TicketError::TicketUsed)
    } else if s.tickets[ticket_id as int].owner == buyer {
        Some(TicketError::SelfBuy)
    } else if s.config is None {
        Some(TicketError::NotInit)
    } else {
        None
    }
}

/// A sale that would pass every check but whose fees overflow an `i128`.
pub open spec fn buy_overflows(s: ContractView, ticket_id: u32, buyer: Seq<char>) -> bool {
    &&& buy_error(s, ticket_id, buyer) is None
    &&& s.tickets[ticket_id as int].is_resale
    &&& !split_fits(
        s.tickets[ticket_id as int].price as int,
        s.config->0.organizer_fee as int,
        s.config->0.platform_fee as int,
    )
}

/// The payments of a sale, all from the buyer: on the first sale the whole
/// price goes to the organizer; on a resale the organizer and the platform
/// take their percentages and the seller gets the rest.
pub open spec fn payments(s: ContractView, ticket_id: u32, buyer: Seq<char>) -> Seq<TransferView> {
    let t = s.tickets[ticket_id as int];
    let c = s.config->0;
    if !t.is_resale {
        seq![TransferView { from: buyer, to: c.organizer, amount: t.price }]
    } else {
        seq![
            TransferView {
                from: buyer,
                to: c.organizer,
                amount: organizer_part(t.price as int, c.organizer_fee as int) as i128,
            },
            TransferView {
                from: buyer,
                to: c.platform,
                amount: platform_part(t.price as int, c.platform_fee as int) as i128,
            },
            TransferView {
                from: buyer,
                to: t.owner,
                amount: seller_part(
                    t.price as int,
                    c.organizer_fee as int,
                    c.platform_fee as int,
                ) as i128,
            },
        ]
    }
}

/// The state after a successful `buy_ticket`: the buyer owns the ticket, which
/// is off sale and counts as resold from now on.
pub open spec fn bought(s: ContractView, ticket_id: u32, buyer: Seq<char>) -> ContractView {
    let t = s.tickets[ticket_id as int];
    with_ticket(s, ticket_id, TicketView { owner: buyer, for_sale: false, is_resale: true, ..t })
}

// ---- redeem_ticket ----

/// Why `redeem_ticket` refuses, if it does.
pub open spec fn redeem_error(s: ContractView, ticket_id: u32) -> Option<TicketError> {
    if ticket_id >= s.tickets.len() {
        Some(TicketError::TicketNotFound)
    } else if s.tickets[ticket_id as int].used {
        Some(TicketError::AlreadyUsed)
    } else {
        None
    }
}

/// The state after a successful `redeem_ticket`: the ticket is used and off sale.
pub open spec fn redeemed(s: ContractView, ticket_id: u32) -> ContractView {
    let t = s.tickets[ticket_id as int];
    with_ticket(s, ticket_id, TicketView { used: true, for_sale: false, ..t })
}

// ---- queries ----

/// The tickets, in id order, that are on sale as resales.
pub open spec fn resale_filter(tickets: Seq<TicketView>) -> Seq<TicketView> {
    tickets.filter(on_resale())
}

/// A ticket is on sale as a resale.
pub open spec fn on_resale() -> spec_fn(TicketView) -> bool {
    |t: TicketView| t.for_sale && t.is_resale
}

/// The tickets, in id order, of one event.
pub open spec fn event_filter(tickets: Seq<TicketView>, event_id: u32) -> Seq<TicketView> {
    tickets.filter(of_event(event_id))
}

/// A ticket is for event `event_id`.
pub open spec fn of_event(event_id: u32) -> spec_fn(TicketView) -> bool {
    |t: TicketView| t.event_id == event_id
}

// ---- the calls as one model ----

/// A call that changes the contract, with its arguments.
pub enum Call {
    Initialize {
        organizer: Seq<char>,
        platform: Seq<char>,
        token: Seq<char>,
        organizer_fee: i128,
        platform_fee: i128,
    },
    CreateTicket { event_id: u32, price: i128 },
    ListTicket { ticket_id: u32, new_price: i128 },
    CancelSale { ticket_id: u32 },
    BuyTicket { ticket_id: u32, buyer: Seq<char> },
    RedeemTicket { ticket_id: u32 },
}

/// Why the contract refuses `call` in state `s`, if it does.
pub open spec fn call_error(s: ContractView, call: Call) -> Option<TicketError> {
    match call {
        Call::Initialize { organizer_fee, platform_fee, .. } => initialize_error(
            s,
            organizer_fee,
            platform_fee,
        ),
        Call::CreateTicket { price, .. } => create_error(s, price),
        Call::ListTicket { ticket_id, new_price } => list_error(s, ticket_id, new_price),
        Call::CancelSale { ticket_id } => cancel_error(s, ticket_id),
        Call::BuyTicket { ticket_id, buyer } => buy_error(s, ticket_id, buyer),
        Call::RedeemTicket { ticket_id } => redeem_error(s, ticket_id),
    }
}

/// Whether the contract can carry out `call` in state `s` without aborting on
/// an arithmetic overflow.
pub open spec fn call_fits(s: ContractView, call: Call) -> bool {
    match call {
        Call::Initialize { organizer_fee, platform_fee, .. } => s.config is None ==> i128::MIN
            <= organizer_fee + platform_fee <= i128::MAX,
        Call::CreateTicket { price, .. } => create_error(s, price) is None ==> s.tickets.len()
            < u32::MAX,
        Call::BuyTicket { ticket_id, buyer } => !buy_overflows(s, ticket_id, buyer),
        _ => true,
    }
}

/// The state after `call`: unchanged when the call is refused.
pub open spec fn step(s: ContractView, call: Call) -> ContractView {
    if call_error(s, call) is Some {
        s
    } else {
        match call {
            Call::Initialize { organizer, platform, token, organizer_fee, platform_fee } => {
                initialized(s, organizer, platform, token, organizer_fee, platform_fee)
            },
            Call::CreateTicket { event_id, price } => created(s, event_id, price),
            Call::ListTicket { ticket_id, new_price } => listed(s, ticket_id, new_price),
            Call::CancelSale { ticket_id } => cancelled(s, ticket_id),
            Call::BuyTicket { ticket_id, buyer } => bought(s, ticket_id, buyer),
            Call::RedeemTicket { ticket_id } => redeemed(s, ticket_id),
        }
    }
}

/// The account that a refusal checks first: none when the ticket is missing,
/// `who` otherwise.
pub open spec fn checked_unless_missing(error: TicketError, who: Seq<char>) -> Option<Seq<char>> {
    if error == TicketError::TicketNotFound {
        None
    } else {
        Some(who)
    }
}

/// The contract: its settings and its tickets, with each of its operations as
/// a method. A method that refuses leaves the state as it
/// was; one that accepts says which account must authorize the call, which
/// payments to make and which storage entries to write.
pub struct SecureTicketContract {
    config: Option<Config>,
    tickets: Vec<Ticket>,
}

impl View for SecureTicketContract {
    type V = ContractView;

    closed spec fn view(&self) -> ContractView {
        ContractView { config: config_view(self.config), tickets: views(self.tickets@) }
    }
}

impl SecureTicketContract {
    /// A contract that is not initialized yet and holds no ticket.
    pub fn new() -> (contract: Self)
        ensures
            contract@ == (ContractView { config: None, tickets: Seq::empty() }),
            well_formed(contract@),
    {
        let contract = SecureTicketContract { config: None, tickets: Vec::new() };
        assert(contract@.tickets =~= Seq::<TicketView>::empty());
        contract
    }

    /// The contract holding the given settings and tickets, provided that they
    /// form a state that the contract reaches; `None` otherwise.
    pub fn restore(config: Option<Config>, tickets: Vec<Ticket>) -> (contract: Option<Self>)
        ensures
            contract is Some <==> well_formed(
                ContractView { config: config_view(config), tickets: views(tickets@) },
            ),
            contract matches Some(c) ==> c@ == (ContractView {
                config: config_view(config),
                tickets: views(tickets@),
            }),
    {
        let ghost s = ContractView { config: config_view(config), tickets: views(tickets@) };
        let n = tickets.len();
        if n > 0xffff_ffff {
            return None;
        }
        let fees_ok = match &config {
            Some(c) => 0 <= c.organizer_fee && 0 <= c.platform_fee && c.organizer_fee < 100
                && c.platform_fee < 100 && c.organizer_fee + c.platform_fee < 100,
            None => n == 0,
        };
        if !fees_ok {
            return None;
        }
        for i in 0..n
            invariant
                n == tickets@.len(),
                s.tickets == views(tickets@),
                forall|j: int| 0 <= j < i ==> ticket_sound(#[trigger] s.tickets[j], j),
        {
            let t = &tickets[i];
            if t.id as usize != i || t.price < 0 || (t.used && t.for_sale) {
                assert(!ticket_sound(s.tickets[i as int], i as int));
                return None;
            }
        }
        Some(SecureTicketContract { config, tickets })
    }

    /// How many tickets have been created.
    pub fn ticket_count(&self) -> (count: u32)
        requires
            well_formed(self@),
        ensures
            count == self@.tickets.len(),
    {
        self.tickets.len() as u32
    }

    /// The settings, once the contract is initialized.
    pub fn config(&self) -> (config: Option<&Config>)
        ensures
            config is None <==> self@.config is None,
            config matches Some(c) ==> self@.config == Some(c@),
    {
        match &self.config {
            Some(c) => Some(c),
            None => None,
        }
    }

    /// Inits the contract: stores the organizer, the platform, the payment
    /// token and the two fee percentages, and starts the ticket count at zero.
    /// Refused when the contract is already initialized, when the fees reach
    /// 100% together, and when one of them is negative, in that order; the
    /// organizer must authorize it.
    pub fn initialize(
        &mut self,
        organizer: AccountId,
        platform: AccountId,
        token: AccountId,
        organizer_fee: i128,
        platform_fee: i128,
    ) -> (result: Result<Approval, Refusal>)
        requires
            well_formed(old(self)@),
            old(self)@.config is None ==> i128::MIN <= organizer_fee + platform_fee <= i128::MAX,
        ensures
            well_formed(final(self)@),
            final(self)@ == step(
                old(self)@,
                Call::Initialize {
                    organizer: organizer@,
                    platform: platform@,
                    token: token@,
                    organizer_fee,
                    platform_fee,
                },
            ),
            result is Ok <==> initialize_error(old(self)@, organizer_fee, platform_fee) is None,
            old(self)@.config is None ==> (result is Ok <==> (0 <= organizer_fee && 0
                <= platform_fee && organizer_fee + platform_fee < 100)),
            result matches Ok(a) ==> final(self)@ == initialized(
                old(self)@,
                organizer@,
                platform@,
                token@,
                organizer_fee,
                platform_fee,
            ) && a.auth@ == organizer@ && a.transfers@.len() == 0 && a.writes@ == seq![
                DataKey::Organizer,
                DataKey::Platform,
                DataKey::Token,
                DataKey::OrgFee,
                DataKey::PlatFee,
                DataKey::TicketCount,
            ],
            result matches Err(f) ==> final(self)@ == old(self)@ && Some(f.error)
                == initialize_error(old(self)@, organizer_fee, platform_fee) && checked_first(f)
                is None,
    {
        if self.config.is_some() {
            return Err(Refusal { error: TicketError::AlreadyInit, auth: None });
        }
        if organizer_fee + platform_fee >= 100 {
            return Err(Refusal { error: TicketError::FeesTooHigh, auth: None });
        }
        if organizer_fee < 0 || platform_fee < 0 {
            return Err(Refusal { error: TicketError::NegativeFees, auth: None });
        }
        let auth = organizer.clone();
        self.config = Some(Config { organizer, platform, token, organizer_fee, platform_fee });
        assert(self@.tickets =~= Seq::<TicketView>::empty());
        Ok(Approval {
            auth,
            transfers: Vec::new(),
            writes: vec![
                DataKey::Organizer,
                DataKey::Platform,
                DataKey::Token,
                DataKey::OrgFee,
                DataKey::PlatFee,
                DataKey::TicketCount,
            ],
        })
    }

    /// Issues a ticket for `event_id` at `price`, with the next id, owned by the
    /// organizer. Refused when the price is negative and when the contract is
    /// not initialized, in that order; the organizer must authorize it.
    pub fn create_ticket(&mut self, event_id: u32, price: i128) -> (result: Result<
        Approval,
        Refusal,
    >)
        requires
            well_formed(old(self)@),
            create_error(old(self)@, price) is None ==> old(self)@.tickets.len() < u32::MAX,
        ensures
            well_formed(final(self)@),
            final(self)@ == step(old(self)@, Call::CreateTicket { event_id, price }),
            result is Ok <==> create_error(old(self)@, price) is None,
            old(self)@.config is Some ==> (result is Ok <==> price >= 0),
            result matches Ok(a) ==> final(self)@ == created(old(self)@, event_id, price)
                && a.auth@ == old(self)@.config->0.organizer && a.transfers@.len() == 0
                && a.writes@ == seq![
                DataKey::Ticket(old(self)@.tickets.len() as u32),
                DataKey::TicketCount,
            ],
            result matches Err(f) ==> final(self)@ == old(self)@ && Some(f.error) == create_error(
                old(self)@,
                price,
            ) && checked_first(f) is None,
    {
        if price < 0 {
            return Err(Refusal { error: TicketError::InvalidPrice, auth: None });
        }
        let organizer = match &self.config {
            Some(c) => c.organizer.clone(),
            None => {
                return Err(Refusal { error: TicketError::NotInit, auth: None });
            },
        };
        let ticket_id = self.tickets.len() as u32;
        let ticket = Ticket {
            id: ticket_id,
            event_id,
            owner: organizer.clone(),
            price,
            for_sale: false,
            is_resale: false,
            used: false,
        };
        let ghost before = self.tickets@;
        self.tickets.push(ticket);
        assert(views(self.tickets@) =~= views(before).push(ticket@));
        Ok(Approval {
            auth: organizer,
            transfers: Vec::new(),
            writes: vec![DataKey::Ticket(ticket_id), DataKey::TicketCount],
        })
    }

    /// Replaces ticket `ticket_id` by `t`.
    fn store(&mut self, ticket_id: u32, t: Ticket)
        requires
            ticket_id < old(self).tickets@.len(),
        ensures
            final(self)@ == with_ticket(old(self)@, ticket_id, t@),
    {
        let ghost before = self.tickets@;
        let ghost v = t@;
        self.tickets.set(ticket_id as usize, t);
        assert(views(self.tickets@) =~= views(before).update(ticket_id as int, v));
    }

    /// Puts ticket `ticket_id` on sale at `new_price`. Refused when there is no
    /// such ticket; then, once its owner has authorized the call, when it is
    /// already for sale, when it is used and when the price is negative, in
    /// that order.
    pub fn list_ticket(&mut self, ticket_id: u32, new_price: i128) -> (result: Result<
        Approval,
        Refusal,
    >)
        requires
            well_formed(old(self)@),
        ensures
            well_formed(final(self)@),
            final(self)@ == step(old(self)@, Call::ListTicket { ticket_id, new_price }),
            result is Ok <==> list_error(old(self)@, ticket_id, new_price) is None,
            ticket_id < old(self)@.tickets.len() && !old(self)@.tickets[ticket_id as int].for_sale
                && !old(self)@.tickets[ticket_id as int].used ==> (result is Ok <==> new_price
                >= 0),
            result matches Ok(a) ==> final(self)@ == listed(old(self)@, ticket_id, new_price)
                && a.auth@ == old(self)@.tickets[ticket_id as int].owner && a.transfers@.len()
                == 0 && a.writes@ == seq![DataKey::Ticket(ticket_id)],
            result matches Err(f) ==> final(self)@ == old(self)@ && Some(f.error) == list_error(
                old(self)@,
                ticket_id,
                new_price,
            ) && checked_first(f) == checked_unless_missing(
                f.error,
                old(self)@.tickets[ticket_id as int].owner,
            ),
    {
        if ticket_id as usize >= self.tickets.len() {
            return Err(Refusal { error: TicketError::TicketNotFound, auth: None });
        }
        let idx = ticket_id as usize;
        let owner = self.tickets[idx].owner.clone();
        if self.tickets[idx].for_sale {
            return Err(Refusal { error: TicketError::AlreadySale, auth: Some(owner) });
        }
        if self.tickets[idx].used {
            return Err(Refusal { error: TicketError::TicketUsed, auth: Some(owner) });
        }
        if new_price < 0 {
            return Err(Refusal { error: TicketError::InvalidPrice, auth: Some(owner) });
        }
        let mut t = self.tickets[idx].clone();
        t.price = new_price;
        t.for_sale = true;
        self.store(ticket_id, t);
        Ok(Approval { auth: owner, transfers: Vec::new(), writes: vec![DataKey::Ticket(ticket_id)] })
    }

    /// Takes ticket `ticket_id` off sale. Refused when there is no such ticket;
    /// then, once its owner has authorized the call, when it is not for sale.
    pub fn cancel_sale(&mut self, ticket_id: u32) -> (result: Result<Approval, Refusal>)
        requires
            well_formed(old(self)@),
        ensures
            well_formed(final(self)@),
            final(self)@ == step(old(self)@, Call::CancelSale { ticket_id }),
            result is Ok <==> cancel_error(old(self)@, ticket_id) is None,
            result matches Ok(a) ==> final(self)@ == cancelled(old(self)@, ticket_id)
                && a.auth@ == old(self)@.tickets[ticket_id as int].owner && a.transfers@.len()
                == 0 && a.writes@ == seq![DataKey::Ticket(ticket_id)],
            result matches Err(f) ==> final(self)@ == old(self)@ && Some(f.error) == cancel_error(
                old(self)@,
                ticket_id,
            ) && checked_first(f) == checked_unless_missing(
                f.error,
                old(self)@.tickets[ticket_id as int].owner,
            ),
    {
        if ticket_id as usize >= self.tickets.len() {
            return Err(Refusal { error: TicketError::TicketNotFound, auth: None });
        }
        let idx = ticket_id as usize;
        let owner = self.tickets[idx].owner.clone();
        if !self.tickets[idx].for_sale {
            return Err(Refusal { error: TicketError::NotSale, auth: Some(owner) });
        }
        let mut t = self.tickets[idx].clone();
        t.for_sale = false;
        self.store(ticket_id, t);
        Ok(Approval { auth: owner, transfers: Vec::new(), writes: vec![DataKey::Ticket(ticket_id)] })
    }

    /// Redeems ticket `ticket_id` at the door: it becomes used, for good, and
    /// leaves the market. Refused when there is no such ticket; then, once its
    /// owner has authorized the call, when it is already used.
    pub fn redeem_ticket(&mut self, ticket_id: u32) -> (result: Result<Approval, Refusal>)
        requires
            well_formed(old(self)@),
        ensures
            well_formed(final(self)@),
            final(self)@ == step(old(self)@, Call::RedeemTicket { ticket_id }),
            result is Ok <==> redeem_error(old(self)@, ticket_id) is None,
            result matches Ok(a) ==> final(self)@ == redeemed(old(self)@, ticket_id)
                && a.auth@ == old(self)@.tickets[ticket_id as int].owner && a.transfers@.len()
                == 0 && a.writes@ == seq![DataKey::Ticket(ticket_id)],
            result matches Err(f) ==> final(self)@ == old(self)@ && Some(f.error) == redeem_error(
                old(self)@,
                ticket_id,
            ) && checked_first(f) == checked_unless_missing(
                f.error,
                old(self)@.tickets[ticket_id as int].owner,
            ),
    {
        if ticket_id as usize >= self.tickets.len() {
            return Err(Refusal { error: TicketError::TicketNotFound, auth: None });
        }
        let idx = ticket_id as usize;
        let owner = self.tickets[idx].owner.clone();
        if self.tickets[idx].used {
            return Err(Refusal { error: TicketError::AlreadyUsed, auth: Some(owner) });
        }
        let mut t = self.tickets[idx].clone();
        t.used = true;
        t.for_sale = false;
        self.store(ticket_id, t);
        Ok(Approval { auth: owner, transfers: Vec::new(), writes: vec![DataKey::Ticket(ticket_id)] })
    }

    /// Whether `buy_ticket` would pass every check and then overflow an `i128`
    /// while computing the fees of the resale.
    pub fn buy_would_overflow(&self, ticket_id: u32, buyer: &AccountId) -> (overflows: bool)
        requires
            well_formed(self@),
        ensures
            overflows == buy_overflows(self@, ticket_id, buyer@),
    {
        if ticket_id as usize >= self.tickets.len() {
            return false;
        }
        let t = &self.tickets[ticket_id as usize];
        if !t.for_sale || t.used || t.owner == *buyer || !t.is_resale {
            return false;
        }
        match &self.config {
            Some(c) => !split_fits_exec(t.price, c.organizer_fee, c.platform_fee),
            None => false,
        }
    }

    /// Sells ticket `ticket_id`, which must be for sale, to `buyer`, who pays
    /// for it: on the first sale the whole price goes to the organizer; on a
    /// resale the organizer and the platform take their percentages, rounded
    /// down, and the seller gets the rest. The buyer then owns the ticket,
    /// which is off sale and counts as resold. Refused when there is no such
    /// ticket; then, once the buyer has authorized the call, when the ticket is
    /// not for sale, when it is used, when the buyer already owns it and when
    /// the contract is not initialized, in that order.
    pub fn buy_ticket(&mut self, ticket_id: u32, buyer: &AccountId) -> (result: Result<
        Approval,
        Refusal,
    >)
        requires
            well_formed(old(self)@),
            !buy_overflows(old(self)@, ticket_id, buyer@),
        ensures
            well_formed(final(self)@),
            final(self)@ == step(old(self)@, Call::BuyTicket { ticket_id, buyer: buyer@ }),
            result is Ok <==> buy_error(old(self)@, ticket_id, buyer@) is None,
            ticket_id < old(self)@.tickets.len() && old(self)@.tickets[ticket_id as int].owner
                == buyer@ ==> result is Err && final(self)@ == old(self)@,
            ticket_id < old(self)@.tickets.len() && old(self)@.tickets[ticket_id as int].for_sale
                && !old(self)@.tickets[ticket_id as int].used && old(self)@.tickets[ticket_id as int].owner
                == buyer@ ==> (result matches Err(f) && f.error == TicketError::SelfBuy),
            result matches Ok(a) ==> final(self)@ == bought(old(self)@, ticket_id, buyer@)
                && a.auth@ == buyer@ && transfer_views(a.transfers@) == payments(
                old(self)@,
                ticket_id,
                buyer@,
            ) && a.writes@ == seq![DataKey::Ticket(ticket_id)],
            result matches Err(f) ==> final(self)@ == old(self)@ && Some(f.error) == buy_error(
                old(self)@,
                ticket_id,
                buyer@,
            ) && checked_first(f) == checked_unless_missing(f.error, buyer@),
    {
        if ticket_id as usize >= self.tickets.len() {
            return Err(Refusal { error: TicketError::TicketNotFound, auth: None });
        }
        let idx = ticket_id as usize;
        if !self.tickets[idx].for_sale {
            return Err(Refusal { error: TicketError::NotSale, auth: Some(buyer.clone()) });
        }
        if self.tickets[idx].used {
            return Err(Refusal { error: TicketError::TicketUsed, auth: Some(buyer.clone()) });
        }
        if self.tickets[idx].owner == *buyer {
            return Err(Refusal { error: TicketError::SelfBuy, auth: Some(buyer.clone()) });
        }
        let mut transfers: Vec<Transfer> = Vec::new();
        match &self.config {
            None => {
                return Err(Refusal { error: TicketError::NotInit, auth: Some(buyer.clone()) });
            },
            Some(c) => {
                let t = &self.tickets[idx];
                let price = t.price;
                if !t.is_resale {
                    transfers.push(
                        Transfer { from: buyer.clone(), to: c.organizer.clone(), amount: price },
                    );
                } else {
                    proof {
                        lemma_split_bounds(
                            price as int,
                            c.organizer_fee as int,
                            c.platform_fee as int,
                        );
                    }
                    let split = resale_split(price, c.organizer_fee, c.platform_fee);
                    transfers.push(
                        Transfer {
                            from: buyer.clone(),
                            to: c.organizer.clone(),
                            amount: split.organizer,
                        },
                    );
                    transfers.push(
                        Transfer {
                            from: buyer.clone(),
                            to: c.platform.clone(),
                            amount: split.platform,
                        },
                    );
                    transfers.push(
                        Transfer { from: buyer.clone(), to: t.owner.clone(), amount: split.seller },
                    );
                }
            },
        }
        assert(transfer_views(transfers@) =~= payments(old(self)@, ticket_id, buyer@));
        let mut t = self.tickets[idx].clone();
        t.owner = buyer.clone();
        t.for_sale = false;
        t.is_resale = true;
        self.store(ticket_id, t);
        Ok(Approval { auth: buyer.clone(), transfers, writes: vec![DataKey::Ticket(ticket_id)] })
    }

    /// Ticket `ticket_id`; refused when there is no such ticket.
    pub fn get_ticket(&self, ticket_id: u32) -> (result: Result<Ticket, TicketError>)
        ensures
            result is Ok <==> ticket_id < self@.tickets.len(),
            result matches Ok(t) ==> Some(t@) == ticket_at(self@, ticket_id),
            result matches Ok(t) ==> t@ == self@.tickets[ticket_id as int],
            result matches Err(e) ==> e == TicketError::TicketNotFound,
    {
        if ticket_id as usize >= self.tickets.len() {
            return Err(TicketError::TicketNotFound);
        }
        Ok(self.tickets[ticket_id as usize].clone())
    }

    /// The owner of ticket `ticket_id`; refused when there is no such ticket.
    pub fn get_owner(&self, ticket_id: u32) -> (result: Result<AccountId, TicketError>)
        ensures
            result is Ok <==> ticket_id < self@.tickets.len(),
            result matches Ok(owner) ==> owner@ == self@.tickets[ticket_id as int].owner,
            result matches Err(e) ==> e == TicketError::TicketNotFound,
    {
        match self.get_ticket(ticket_id) {
            Ok(t) => Ok(t.owner),
            Err(e) => Err(e),
        }
    }

    /// Every ticket, in id order, that is for sale and has been sold before.
    pub fn get_resale_tickets(&self) -> (tickets: Vec<Ticket>)
        ensures
            views(tickets@) == resale_filter(self@.tickets),
    {
        let mut out: Vec<Ticket> = Vec::new();
        let n = self.tickets.len();
        let ghost all = self@.tickets;
        for i in 0..n
            invariant
                n == self.tickets@.len(),
                all == views(self.tickets@),
                views(out@) == resale_filter(all.take(i as int)),
        {
            proof {
                assert(all.take(i + 1).drop_last() =~= all.take(i as int));
                reveal(Seq::filter);
            }
            let ghost before = out@;
            if self.tickets[i].for_sale && self.tickets[i].is_resale {
                out.push(self.tickets[i].clone());
                assert(views(out@) =~= views(before).push(all[i as int]));
            }
        }
        assert(all.take(n as int) =~= all);
        out
    }

    /// Every ticket, in id order, for event `event_id`.
    pub fn get_event_tickets(&self, event_id: u32) -> (tickets: Vec<Ticket>)
        ensures
            views(tickets@) == event_filter(self@.tickets, event_id),
    {
        let mut out: Vec<Ticket> = Vec::new();
        let n = self.tickets.len();
        let ghost all = self@.tickets;
        for i in 0..n
            invariant
                n == self.tickets@.len(),
                all == views(self.tickets@),
                views(out@) == event_filter(all.take(i as int), event_id),
        {
            proof {
                assert(all.take(i + 1).drop_last() =~= all.take(i as int));
                reveal(Seq::filter);
            }
            let ghost before = out@;
            if self.tickets[i].event_id == event_id {
                out.push(self.tickets[i].clone());
                assert(views(out@) =~= views(before).push(all[i as int]));
            }
        }
        assert(all.take(n as int) =~= all);
        out
    }
}

} // verus!
