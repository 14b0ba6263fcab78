# secure_ticket

A ticketing contract for events, verified with Verus. An organizer issues
tickets, owners list them for sale or cancel the listing, buyers pay for them
in a token (on a resale the organizer and the platform take a percentage and
the seller keeps the rest), and a ticket is redeemed once at the door.

- `src/account.rs`: accounts, named by their strkey text.
- `src/ticket.rs`: tickets, storage keys, refusals, payments and what an
  accepted call asks of the ledger.
- `src/fees.rs`: how a resale price is shared out.
- `src/contract.rs`: the contract's state and its operations, each with an
  exact contract over a mathematical model of the state.
- `src/laws.rs`: what holds across calls (invariants, irreversibility of
  redemption, payments that add up to the price, and more).
- `app/lib.rs`: the contract on the Soroban host. It loads the state from
  instance storage, calls the library, and performs the authorizations,
  token transfers and storage writes that the library decides.
