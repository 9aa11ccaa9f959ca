use vstd::prelude::*;
use crate::dispatch::CallError;

verus! {

/// The account state that the local executor starts from.
#[derive(Debug)]
pub enum AccountState {
    /// The account's serialized state as fetched from the network.
    Fetched(String),
    /// An empty account at the target address, for a contract not deployed yet.
    Synthesized,
}

/// What the local executor is handed besides the message.
#[derive(Debug)]
pub struct EmulationAccount {
    pub state: AccountState,
    /// Set in fee mode, so that execution does not stop for want of funds.
    pub unlimited_balance: Option<bool>,
}

/// The fees that a local run reports.
#[derive(Clone, Copy, Debug, PartialEq, Eq, Structural)]
pub struct FeeBreakdown {
    pub in_msg_fwd_fee: u64,
    pub storage_fee: u64,
    pub gas_fee: u64,
    pub out_msgs_fwd_fee: u64,
    pub total_account_fees: u64,
    pub total_output: u64,
}

/// Chooses the account state for a local run from what fetching the account
/// gave: the fetched state when there is one; an empty account in fee mode;
/// otherwise the account is unavailable.
pub fn emulation_account(fetched: Result<String, String>, is_fee: bool) -> (r: Result<
    EmulationAccount,
    CallError,
>)
    ensures
        r matches Ok(a) ==> a.unlimited_balance == if is_fee {
            Some(true)
        } else {
            None::<bool>
        },
        match fetched {
            Ok(boc) => r matches Ok(a) && a.state matches AccountState::Fetched(b) && b@ == boc@,
            Err(m) => if is_fee {
                r matches Ok(a) && a.state is Synthesized
            } else {
                r matches Err(CallError::AccountUnavailable(e)) && e@ == m@
            },
        },
{
    let unlimited_balance = if is_fee {
        Some(true)
    } else {
        None
    };
    match fetched {
        Ok(boc) => Ok(EmulationAccount { state: AccountState::Fetched(boc), unlimited_balance }),
        Err(m) => {
            if is_fee {
                Ok(EmulationAccount { state: AccountState::Synthesized, unlimited_balance })
            } else {
                Err(CallError::AccountUnavailable(m))
            }
        },
    }
}

} // verus!
