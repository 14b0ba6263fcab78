use vstd::prelude::*;

verus! {

/// An account on the ledger, named by its strkey text: `G...` for a wallet,
/// `C...` for a contract. Two accounts are the same exactly when their texts are.
#[derive(Debug)]
pub struct AccountId {
    key: String,
}

impl View for AccountId {
    type V = Seq<char>;

    closed spec fn view(&self) -> Seq<char> {
        self.key@
    }
}

impl AccountId {
    /// The account whose strkey is `key`.
    pub fn new(key: String) -> (account: Self)
        ensures
            account@ == key@,
    {
        AccountId { key }
    }

    /// The strkey text of this account.
    pub fn as_str(&self) -> (key: &str)
        ensures
            key@ == self@,
    {
        self.key.as_str()
    }
}

impl Clone for AccountId {
    fn clone(&self) -> (copy: Self)
        ensures
            copy@ == self@,
    {
        AccountId { key: self.key.clone() }
    }
}

impl PartialEq for AccountId {
    fn eq(&self, other: &Self) -> (same: bool) {
        self.key == other.key
    }
}

impl vstd::std_specs::cmp::PartialEqSpecImpl for AccountId {
    open spec fn obeys_eq_spec() -> bool {
        true
    }

    open spec fn eq_spec(&self, other: &AccountId) -> bool {
        self@ == other@
    }
}

impl Eq for AccountId {
}

} // verus!
