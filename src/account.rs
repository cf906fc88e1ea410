use vstd::prelude::*;

verus! {

/// One game account: its credentials, its currency balance and its item count.
#[derive(Debug)]
pub struct AccountEntry {
    pub username: String,
    pub password: String,
    pub cash: u64,
    pub pots: u64,
}

impl AccountEntry {
    pub fn new(username: String, password: String, cash: u64, pots: u64) -> (r: AccountEntry)
        ensures
            r.username == username,
            r.password == password,
            r.cash == cash,
            r.pots == pots,
    {
        AccountEntry { username, password, cash, pots }
    }
}

impl Clone for AccountEntry {
    fn clone(&self) -> (r: Self)
        ensures
            r == *self,
    {
        AccountEntry {
            username: self.username.clone(),
            password: self.password.clone(),
            cash: self.cash,
            pots: self.pots,
        }
    }
}

} // verus!
