//! Player accounts as the launch engine reads them: identity, session
//! token and account kind, plus the stored account list and its current
//! selection.
use vstd::prelude::*;
use crate::model::clone_opt_string;

verus! {

/// One stored player account.
#[derive(Debug)]
pub struct Account {
    pub id: String,
    /// `"offline"` or `"microsoft"`.
    pub account_type: String,
    pub username: String,
    pub uuid: String,
    pub access_token: Option<String>,
    pub refresh_token: Option<String>,
    pub skin: Option<String>,
    pub created_at: Option<i64>,
}

impl Account {
    /// A copy of this account.
    pub fn duplicate(&self) -> (r: Self)
        ensures
            r == *self,
    {
        Account {
            id: self.id.clone(),
            account_type: self.account_type.clone(),
            username: self.username.clone(),
            uuid: self.uuid.clone(),
            access_token: clone_opt_string(&self.access_token),
            refresh_token: clone_opt_string(&self.refresh_token),
            skin: clone_opt_string(&self.skin),
            created_at: self.created_at,
        }
    }
}

/// The stored account list with the id of the currently selected account.
#[derive(Debug)]
pub struct AccountsData {
    pub accounts: Vec<Account>,
    pub current_account: Option<String>,
}

impl Default for AccountsData {
    /// No accounts, none selected.
    fn default() -> (r: Self)
        ensures
            r.accounts@.len() == 0,
            r.current_account is None,
    {
        AccountsData { accounts: Vec::new(), current_account: Option::None }
    }
}

/// The account list as it is handed back to callers.
#[derive(Debug)]
pub struct AccountsResponse {
    pub accounts: Vec<Account>,
    pub current_account: Option<String>,
}

/// The first account of `accounts` with the given id, if any.
pub open spec fn find_account(accounts: Seq<Account>, id: Seq<char>) -> Option<Account>
    decreases accounts.len(),
{
    if accounts.len() == 0 {
        Option::None
    } else if accounts[0].id@ == id {
        Option::Some(accounts[0])
    } else {
        find_account(accounts.drop_first(), id)
    }
}

/// The first stored account with the given id.
fn find_account_exec<'a>(accounts: &'a Vec<Account>, id: &String) -> (r: Option<&'a Account>)
    ensures
        match r {
            Option::Some(a) => find_account(accounts@, id@) == Option::Some(*a),
            Option::None => find_account(accounts@, id@) is None,
        },
{
    let ghost av = accounts@;
    proof {
        assert(av.subrange(0, av.len() as int) =~= av);
    }
    let mut i: usize = 0;
    while i < accounts.len()
        invariant
            i <= av.len(),
            av == accounts@,
            find_account(av, id@) == find_account(av.subrange(i as int, av.len() as int), id@),
        decreases av.len() - i,
    {
        let ghost pre = av.subrange(i as int, av.len() as int);
        if accounts[i].id.eq(id) {
            proof {
                assert(pre[0] == av[i as int]);
            }
            return Option::Some(&accounts[i]);
        }
        i = i + 1;
        proof {
            assert(pre[0] == av[i - 1]);
            assert(pre.drop_first() =~= av.subrange(i as int, av.len() as int));
        }
    }
    proof {
        assert(av.subrange(av.len() as int, av.len() as int) =~= Seq::<Account>::empty());
    }
    Option::None
}

/// The account a launch runs under: the one named by `account_id` when
/// given, else the currently selected one, else none.
pub open spec fn selected_account(data: AccountsData, account_id: Option<Seq<char>>) -> Option<
    Account,
> {
    match account_id {
        Option::Some(aid) => find_account(data.accounts@, aid),
        Option::None => match data.current_account {
            Option::Some(cur) => find_account(data.accounts@, cur@),
            Option::None => Option::None,
        },
    }
}

/// Picks the account a launch runs under.
pub fn select_account(data: &AccountsData, account_id: &Option<String>) -> (r: Option<Account>)
    ensures
        r == selected_account(*data, crate::model::opt_str_view(*account_id)),
{
    let found = match account_id {
        Option::Some(aid) => find_account_exec(&data.accounts, aid),
        Option::None => match &data.current_account {
            Option::Some(cur) => find_account_exec(&data.accounts, cur),
            Option::None => Option::None,
        },
    };
    match found {
        Option::Some(a) => Option::Some(a.duplicate()),
        Option::None => Option::None,
    }
}
} // verus!
