//! The body of a call that says who may change a page.

use vstd::prelude::*;

verus! {

/// A user who is named in a restriction.
#[derive(Debug, Clone)]
pub struct User {
    /// How the user is named: always `known`.
    pub type_field: String,
    /// The account of the user.
    pub account_id: String,
}

/// The users that an operation is restricted to.
#[derive(Debug, Clone)]
pub struct Restrictions {
    /// The users; none lifts the restriction.
    pub user: Vec<User>,
}

/// One operation and the users who alone may perform it.
#[derive(Debug, Clone)]
pub struct Operation {
    /// The operation: always `update`.
    pub operation: String,
    /// Who may perform it.
    pub restrictions: Restrictions,
}

/// The body of a restriction call.
#[derive(Debug, Clone)]
pub struct Restriction {
    /// One entry for each operation that is restricted.
    pub results: Vec<Operation>,
}

/// What a restriction says: the accounts that alone may update the page. None
/// means that everyone may.
pub open spec fn restricts_update_to(restriction: Restriction, accounts: Seq<Seq<char>>) -> bool {
    &&& restriction.results@.len() == 1
    &&& restriction.results@[0].operation@ == "update"@
    &&& restriction.results@[0].restrictions.user@.len() == accounts.len()
    &&& forall|i: int|
        0 <= i < accounts.len() ==> {
            let user = #[trigger] restriction.results@[0].restrictions.user@[i];
            user.type_field@ == "known"@ && user.account_id@ == accounts[i]
        }
}

impl Restriction {
    /// Only the account `account_id` may update the page.
    pub fn read_only(account_id: &str) -> (restriction: Restriction)
        ensures
            restricts_update_to(restriction, seq![account_id@]),
    {
        let mut user: Vec<User> = Vec::new();
        user.push(User { type_field: "known".to_owned(), account_id: account_id.to_owned() });
        let mut results: Vec<Operation> = Vec::new();
        results.push(Operation { operation: "update".to_owned(), restrictions: Restrictions { user } });
        Restriction { results }
    }

    /// Everyone may update the page.
    pub fn no_restrictions() -> (restriction: Restriction)
        ensures
            restricts_update_to(restriction, Seq::empty()),
    {
        let mut results: Vec<Operation> = Vec::new();
        results.push(
            Operation { operation: "update".to_owned(), restrictions: Restrictions { user: Vec::new() } },
        );
        Restriction { results }
    }
}

} // verus!
