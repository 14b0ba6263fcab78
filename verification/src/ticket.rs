use vstd::prelude::*;

use crate::account::AccountId;

verus! {

/// A ticket as the contract stores it.
#[derive(Debug)]
pub struct Ticket {
    pub id: u32,
    pub event_id: u32,
    pub owner: AccountId,
    pub price: i128,
    pub for_sale: bool,
    /// Set at the first sale: every later sale is a resale, on which fees are taken.
    pub is_resale: bool,
    /// Set when the ticket is redeemed at the door; it is never cleared.
    pub used: bool,
}

/// The mathematical value of a ticket: its fields, with the owner as its strkey text.
pub struct TicketView {
    pub id: u32,
    pub event_id: u32,
    pub owner: Seq<char>,
    pub price: i128,
    pub for_sale: bool,
    pub is_resale: bool,
    pub used: bool,
}

impl View for Ticket {
    type V = TicketView;

    open spec fn view(&self) -> TicketView {
        TicketView {
            id: self.id,
            event_id: self.event_id,
            owner: self.owner@,
            price: self.price,
            for_sale: self.for_sale,
            is_resale: self.is_resale,
            used: self.used,
        }
    }
}

/// The views of a sequence of tickets.
pub open spec fn views(tickets: Seq<Ticket>) -> Seq<TicketView> {
    tickets.map_values(|t: Ticket| t@)
}

impl Clone for Ticket {
    fn clone(&self) -> (copy: Self)
        ensures
            copy@ == self@,
    {
        Ticket {
            id: self.id,
            event_id: self.event_id,
            owner: self.owner.clone(),
            price: self.price,
            for_sale: self.for_sale,
            is_resale: self.is_resale,
            used: self.used,
        }
    }
}

/// The entries of the contract's storage.
#[derive(Debug, Clone, Copy, PartialEq, Eq, Structural)]
pub enum DataKey {
    /// A ticket, by its id.
    Ticket(u32),
    /// How many tickets have been created.
    TicketCount,
    /// The organizer, who creates the tickets and is paid for them.
    Organizer,
    /// The platform, which takes a fee on every resale.
    Platform,
    /// The token in which tickets are paid.
    Token,
    /// The organizer's percentage of a resale.
    OrgFee,
    /// The platform's percentage of a resale.
    PlatFee,
}

/// Why the contract refuses a call.
#[derive(Debug, Clone, Copy, PartialEq, Eq, Structural)]
pub enum TicketError {
    AlreadyInit,
    FeesTooHigh,
    NegativeFees,
    InvalidPrice,
    NotInit,
    TicketNotFound,
    AlreadySale,
    TicketUsed,
    NotSale,
    SelfBuy,
    AlreadyUsed,
}

/// The text of each refusal.
pub open spec fn error_text(e: TicketError) -> Seq<char> {
    match e {
        TicketError::AlreadyInit => "already_init"@,
        TicketError::FeesTooHigh => "fees_too_high"@,
        TicketError::NegativeFees => "negative_fees"@,
        TicketError::InvalidPrice => "invalid_price"@,
        TicketError::NotInit => "Not init"@,
        TicketError::TicketNotFound => "Ticket not found"@,
        TicketError::AlreadySale => "already_sale"@,
        TicketError::TicketUsed => "ticket_used"@,
        TicketError::NotSale => "not_sale"@,
        TicketError::SelfBuy => "self_buy"@,
        TicketError::AlreadyUsed => "already_used"@,
    }
}

impl TicketError {
    /// The message with which the contract aborts on this refusal.
    pub fn message(&self) -> (text: &'static str)
        ensures
            text@ == error_text(*self),
    {
        match self {
            TicketError::AlreadyInit => "already_init",
            TicketError::FeesTooHigh => "fees_too_high",
            TicketError::NegativeFees => "negative_fees",
            TicketError::InvalidPrice => "invalid_price",
            TicketError::NotInit => "Not init",
            TicketError::TicketNotFound => "Ticket not found",
            TicketError::AlreadySale => "already_sale",
            TicketError::TicketUsed => "ticket_used",
            TicketError::NotSale => "not_sale",
            TicketError::SelfBuy => "self_buy",
            TicketError::AlreadyUsed => "already_used",
        }
    }
}

/// A payment in the contract's token.
#[derive(Debug)]
pub struct Transfer {
    pub from: AccountId,
    pub to: AccountId,
    pub amount: i128,
}

/// The mathematical value of a payment.
pub struct TransferView {
    pub from: Seq<char>,
    pub to: Seq<char>,
    pub amount: i128,
}

impl View for Transfer {
    type V = TransferView;

    open spec fn view(&self) -> TransferView {
        TransferView { from: self.from@, to: self.to@, amount: self.amount }
    }
}

/// What an accepted call asks of the ledger: the authorization of one account,
/// then the payments, in order, then the storage entries to write.
#[derive(Debug)]
pub struct Approval {
    pub auth: AccountId,
    pub transfers: Vec<Transfer>,
    pub writes: Vec<DataKey>,
}

/// A refused call: the reason, and the account whose authorization is checked
/// before the refusal, where the check comes first.
#[derive(Debug)]
pub struct Refusal {
    pub error: TicketError,
    pub auth: Option<AccountId>,
}

/// The strkey of the account that a refusal checks first, if any.
pub open spec fn checked_first(r: Refusal) -> Option<Seq<char>> {
    match r.auth {
        Some(a) => Some(a@),
        None => None,
    }
}

} // verus!
