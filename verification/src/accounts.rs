//! The state of an account.

use vstd::prelude::*;

use crate::address::Address;
use crate::reply::ErrorReply;

verus! {

/// The hash of the public key of an account.
#[derive(Clone, Copy, Debug, PartialEq, Eq)]
pub struct PubKeyHash {
    pub bytes: [u8; 20],
}

/// An account. Beside its address it holds what nothing here looks at: its
/// key, its nonce and its balances.
#[derive(Debug, PartialEq, Eq)]
pub struct Account<S> {
    pub address: Address,
    pub state: S,
}

/// What the storage knows of an account, with the id of the account: the state
/// after the last committed block, and that after the last verified one.
#[derive(Debug, PartialEq, Eq)]
pub struct StoredAccountState<S> {
    pub committed: Option<(u32, Account<S>)>,
    pub verified: Option<(u32, Account<S>)>,
}

/// The reply to a request for the state of an account.
#[derive(Debug, PartialEq, Eq)]
pub struct AccountStateResponse<S> {
    /// `None` if the account is not created yet.
    pub id: Option<u32>,
    pub commited: Account<S>,
    pub verified: Account<S>,
}

/// Whether `account` is a default account at `address`.
pub open spec fn is_empty_state<S: Default>(account: Account<S>, address: Address) -> bool {
    account.address == address && call_ensures(S::default, (), account.state)
}

/// Whether `shown` is what is shown of `stored`: the stored account, or an
/// empty one at `address` where there is none.
pub open spec fn shows<S: Default>(
    shown: Account<S>,
    stored: Option<(u32, Account<S>)>,
    address: Address,
) -> bool {
    match stored {
        Some((_, account)) => shown == account,
        None => is_empty_state(shown, address),
    }
}

/// Whether `response` is the reply for an account at `address` of which the
/// storage knows `stored`: both states, and the id that the committed one has.
pub open spec fn responds<S: Default>(
    response: AccountStateResponse<S>,
    stored: StoredAccountState<S>,
    address: Address,
) -> bool {
    &&& response.id == (match stored.committed {
        Some((id, _)) => Some(id),
        None => None::<u32>,
    })
    &&& shows(response.commited, stored.committed, address)
    &&& shows(response.verified, stored.verified, address)
}

/// A default account at `address`.
fn empty_state<S: Default>(address: Address) -> (account: Account<S>)
    ensures
        is_empty_state(account, address),
{
    Account { address, state: S::default() }
}

/// The stored account, or an empty one at `address` where there is none.
fn show<S: Default>(stored: Option<(u32, Account<S>)>, address: Address) -> (account: Account<S>)
    ensures
        shows(account, stored, address),
{
    match stored {
        Some((_, account)) => account,
        None => empty_state(address),
    }
}

/// Replies with the committed and the verified state of an account, each empty
/// where the storage has none, and with the id of the account once it is
/// committed. A failed query is an internal error.
pub fn handle_get_account_state<S: Default, E>(
    account_address: Address,
    stored: Result<StoredAccountState<S>, E>,
) -> (reply: Result<AccountStateResponse<S>, ErrorReply>)
    ensures
        match stored {
            Ok(stored) => reply matches Ok(response) && responds(response, stored, account_address),
            Err(_) => reply == Err::<AccountStateResponse<S>, ErrorReply>(
                ErrorReply::InternalServerError,
            ),
        },
{
    let stored = match stored {
        Ok(stored) => stored,
        Err(_) => return Err(ErrorReply::InternalServerError),
    };
    let id: Option<u32> = match &stored.committed {
        Some((id, _)) => Some(*id),
        None => None,
    };
    let commited = show(stored.committed, account_address);
    let verified = show(stored.verified, account_address);
    Ok(AccountStateResponse { id, commited, verified })
}

} // verus!
