//! The account registry: building it from the results of initial sign-in,
//! refreshing tokens in place, and finding an account by username.
use crate::models::{Account, Me, Token};
use vstd::prelude::*;

verus! {

/// The account that a credential gives, when both its token exchange and its
/// profile lookup succeeded.
pub open spec fn initialized(username: String, password: String, token: Option<Token>, me: Option<Me>) -> Option<Account> {
    match (token, me) {
        (Some(t), Some(m)) => Some(Account { username, password, token: t, me: m }),
        _ => None,
    }
}

/// The accounts among the outcomes, in order.
pub open spec fn present(outcomes: Seq<Option<Account>>) -> Seq<Account>
    decreases outcomes.len(),
{
    if outcomes.len() == 0 {
        seq![]
    } else {
        (match outcomes[0] {
            Some(a) => seq![a],
            None => seq![],
        }) + present(outcomes.skip(1))
    }
}

/// An account after one refresh attempt: a new token replaces the old one,
/// and a new profile, fetched with that token, replaces the old profile; a
/// failed step leaves what it would have replaced.
pub open spec fn refreshed(acc: Account, token: Option<Token>, me: Option<Me>) -> Account {
    match token {
        None => acc,
        Some(t) => Account {
            token: t,
            me: match me {
                Some(m) => m,
                None => acc.me,
            },
            ..acc
        },
    }
}

/// The account for a credential, from the outcome of its token exchange and
/// of its profile lookup; `None` drops the credential.
pub fn account_from(username: String, password: String, token: Option<Token>, me: Option<Me>) -> (r:
    Option<Account>)
    ensures
        r == initialized(username, password, token, me),
{
    match (token, me) {
        (Some(t), Some(m)) => Some(Account { username, password, token: t, me: m }),
        _ => None,
    }
}

/// The registry that initialization builds: the accounts that signed in, in
/// the order their outcomes arrived; the others are left out.
pub fn collect_accounts(outcomes: Vec<Option<Account>>) -> (r: Vec<Account>)
    ensures
        r@ == present(outcomes@),
{
    let ghost all = outcomes@;
    let mut rest = outcomes;
    let mut r: Vec<Account> = Vec::new();
    assert(all.skip(0) =~= all);
    while rest.len() > 0
        invariant
            r@ + present(rest@) == present(all),
        decreases rest@.len(),
    {
        let ghost before = rest@;
        let o = rest.remove(0);
        assert(rest@ =~= before.skip(1));
        match o {
            Some(a) => {
                r.push(a);
            },
            None => {},
        }
        assert(r@ + present(rest@) =~= present(all));
    }
    assert(r@ + present(rest@) =~= r@);
    r
}

/// Applies one refresh attempt to an account in place.
pub fn refresh_account(acc: &mut Account, token: Option<Token>, me: Option<Me>)
    ensures
        *final(acc) == refreshed(*old(acc), token, me),
{
    if let Some(t) = token {
        acc.token = t;
        if let Some(m) = me {
            acc.me = m;
        }
    }
}

/// Applies the refresh attempt of each account, in order; `outcomes[i]` is
/// what the token exchange and then the profile lookup gave for account `i`.
pub fn refresh_all(accounts: &mut Vec<Account>, outcomes: Vec<(Option<Token>, Option<Me>)>)
    requires
        old(accounts)@.len() == outcomes@.len(),
    ensures
        final(accounts)@.len() == old(accounts)@.len(),
        forall|i: int|
            0 <= i < final(accounts)@.len() ==> #[trigger] final(accounts)@[i] == refreshed(
                old(accounts)@[i],
                outcomes@[i].0,
                outcomes@[i].1,
            ),
{
    let ghost accs = accounts@;
    let ghost outs = outcomes@;
    let mut pending: Vec<Account> = Vec::new();
    std::mem::swap(accounts, &mut pending);
    let mut rest = outcomes;
    let mut k: usize = 0;
    let n = pending.len();
    while k < n
        invariant
            n == accs.len(),
            0 <= k <= n,
            pending@ == accs.skip(k as int),
            rest@ == outs.skip(k as int),
            outs.len() == n,
            accounts@.len() == k,
            forall|i: int|
                0 <= i < k ==> #[trigger] accounts@[i] == refreshed(accs[i], outs[i].0, outs[i].1),
        decreases n - k,
    {
        let mut acc = pending.remove(0);
        let (token, me) = rest.remove(0);
        refresh_account(&mut acc, token, me);
        accounts.push(acc);
        assert(pending@ =~= accs.skip(k + 1));
        assert(rest@ =~= outs.skip(k + 1));
        k = k + 1;
    }
}

/// The first account with this username, if any.
pub fn find_by_username<'a>(accounts: &'a Vec<Account>, username: &String) -> (r: Option<
    &'a Account,
>)
    ensures
        match r {
            None => forall|k: int| 0 <= k < accounts@.len() ==> #[trigger] accounts@[k].username@ != username@,
            Some(a) => exists|k: int|
                0 <= k < accounts@.len() && *a == accounts@[k] && accounts@[k].username@ == username@
                    && forall|j: int| 0 <= j < k ==> #[trigger] accounts@[j].username@ != username@,
        },
{
    let mut i: usize = 0;
    while i < accounts.len()
        invariant
            0 <= i <= accounts@.len(),
            forall|j: int| 0 <= j < i ==> #[trigger] accounts@[j].username@ != username@,
        decreases accounts@.len() - i,
    {
        if accounts[i].username == *username {
            return Some(&accounts[i]);
        }
        i = i + 1;
    }
    None
}

} // verus!
