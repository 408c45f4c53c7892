use vstd::prelude::*;
use crate::types::ContractError;

verus! {

/// The price of `bytes` bytes of storage at `byte_cost` per byte.
pub open spec fn storage_cost(bytes: nat, byte_cost: nat) -> nat {
    bytes * byte_cost
}

/// Settles the deposit `attached` to a transition against the storage it
/// took, from `initial_usage` to `final_usage` bytes at `byte_cost` each.
/// Returns the excess to refund, or `InsufficientDeposit` when the deposit
/// does not cover the cost (the transition must then be discarded).
pub fn settle_storage(initial_usage: u64, final_usage: u64, byte_cost: u128, attached: u128) -> (r:
    Result<u128, ContractError>)
    requires
        initial_usage <= final_usage,
    ensures
        ({
            let cost = storage_cost((final_usage - initial_usage) as nat, byte_cost as nat);
            &&& r is Ok <==> cost <= attached
            &&& r is Ok ==> r->Ok_0 == attached - cost
            &&& r is Err ==> r->Err_0 == ContractError::InsufficientDeposit
        }),
{
    let bytes: u64 = final_usage - initial_usage;
    match byte_cost.checked_mul(bytes as u128) {
        Some(cost) => {
            proof {
                assert(cost == storage_cost(bytes as nat, byte_cost as nat)) by (nonlinear_arith)
                    requires
                        cost == byte_cost * bytes,
                ;
            }
            if cost <= attached {
                Ok(attached - cost)
            } else {
                Err(ContractError::InsufficientDeposit)
            }
        },
        None => {
            proof {
                assert(storage_cost(bytes as nat, byte_cost as nat) > u128::MAX) by (nonlinear_arith)
                    requires
                        byte_cost * bytes > u128::MAX,
                ;
            }
            Err(ContractError::InsufficientDeposit)
        },
    }
}

} // verus!
