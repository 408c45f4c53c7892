use vstd::prelude::*;
use crate::contract::{
    chosen_mint_id, created, id_seq, listed, payload_ok, remapped, series_ok, Contract,
};
use crate::token_id::{lemma_token_id_injective, token_id_of};
use crate::types::{ContractError, KeypomArgs};

verus! {

/// Right after a series is created, its mint id resolves to it, and no
/// other mint id does.
pub proof fn law_created_series_resolved_once(
    before: Contract,
    after: Contract,
    caller: Seq<char>,
    mint_id: Option<u64>,
    sid: u64,
)
    requires
        before.wf(),
        after.wf(),
        created(before, after, caller, mint_id, sid),
    ensures
        after.series_id_by_mint_id@.contains_key(chosen_mint_id(mint_id, sid)),
        after.series_id_by_mint_id@[chosen_mint_id(mint_id, sid)] == sid,
        forall|m: u64|
            #[trigger] after.series_id_by_mint_id@.contains_key(m) && after.series_id_by_mint_id@[m]
                == sid ==> m == chosen_mint_id(mint_id, sid),
{
    assert forall|m: u64|
        #[trigger] after.series_id_by_mint_id@.contains_key(m) && after.series_id_by_mint_id@[m]
            == sid implies m == chosen_mint_id(mint_id, sid) by {
        assert(after.series_by_id@[after.series_id_by_mint_id@[m]].mint_id == m);
    }
}

/// Once a series has taken an explicit mint id, creating another series
/// with that mint id fails with `DuplicateMintId` (and so, by the contract
/// of `create_series`, leaves the state as it was).
pub proof fn law_duplicate_mint_id_refused(
    before: Contract,
    after: Contract,
    first_caller: Seq<char>,
    second_caller: Seq<char>,
    mint_id: u64,
    sid: u64,
)
    requires
        before.wf(),
        created(before, after, first_caller, Some(mint_id), sid),
        listed(after.approved_creators@, second_caller),
    ensures
        after.create_outcome(second_caller, Some(mint_id)) == Err::<u64, ContractError>(
            ContractError::DuplicateMintId,
        ),
{
}

/// Under a ceiling of `n` copies, a well-formed mint by an approved minter
/// succeeds, with the next ordinal, exactly while fewer than `n` tokens
/// have been issued, and fails with `SupplyExhausted` from then on. The
/// issued identifiers are `"{sid}:1"` up to `"{sid}:k"`, all distinct.
pub proof fn law_supply_ceiling(c: Contract, caller: Seq<char>, mint_id: u64, args: KeypomArgs)
    requires
        c.wf(),
        payload_ok(args),
        listed(c.approved_minters@, caller),
        c.series_id_by_mint_id@.contains_key(mint_id),
        c.series_by_id@[c.series_id_by_mint_id@[mint_id]].metadata.copies is Some,
    ensures
        ({
            let sid = c.series_id_by_mint_id@[mint_id];
            let s = c.series_by_id@[sid];
            let n = s.metadata.copies->0;
            let ids = id_seq(s.tokens@);
            &&& ids.len() <= n
            &&& c.mint_outcome(caller, mint_id, args) == if ids.len() < n {
                Ok::<nat, ContractError>(ids.len() + 1)
            } else {
                Err(ContractError::SupplyExhausted)
            }
            &&& forall|i: int| 0 <= i < ids.len() ==> #[trigger] ids[i] == token_id_of(sid, (i + 1) as nat)
            &&& forall|i: int, j: int|
                0 <= i < ids.len() && 0 <= j < ids.len() && i != j ==> #[trigger] ids[i] != #[trigger] ids[j]
        }),
{
    let sid = c.series_id_by_mint_id@[mint_id];
    let s = c.series_by_id@[sid];
    let ids = id_seq(s.tokens@);
    assert(series_ok(sid, s));
    assert forall|i: int| 0 <= i < ids.len() implies #[trigger] ids[i] == token_id_of(sid, (i + 1) as nat) by {
        assert(s.tokens@[i]@ == token_id_of(sid, (i + 1) as nat));
    }
    assert forall|i: int, j: int|
        0 <= i < ids.len() && 0 <= j < ids.len() && i != j implies #[trigger] ids[i] != #[trigger] ids[j] by {
        if ids[i] == ids[j] {
            assert(s.tokens@[i]@ == token_id_of(sid, (i + 1) as nat));
            assert(s.tokens@[j]@ == token_id_of(sid, (j + 1) as nat));
            lemma_token_id_injective(sid, (i + 1) as nat, sid, (j + 1) as nat);
        }
    }
}

/// A payload whose drop-id field is not declared as `"mint_id"` is refused
/// as malformed, whoever calls and whatever the state (and so, by the
/// contract of `nft_mint`, nothing changes).
pub proof fn law_bad_drop_field_refused(c: Contract, caller: Seq<char>, mint_id: u64, args: KeypomArgs)
    requires
        !(args.drop_id_field is Some && args.drop_id_field->0@ == "mint_id"@),
    ensures
        c.mint_outcome(caller, mint_id, args) == Err::<nat, ContractError>(
            ContractError::MalformedIntegrityPayload,
        ),
{
}

/// Repointing a mint id is refused with `Unauthorized` for anyone but the
/// owner of the series it resolves to (and so, by the contract of
/// `update_mint_id`, both entries stay as they were).
pub proof fn law_update_by_non_owner_refused(c: Contract, caller: Seq<char>, old_mint_id: u64, new_mint_id: u64)
    requires
        c.wf(),
        c.series_id_by_mint_id@.contains_key(old_mint_id),
        c.series_by_id@[c.series_id_by_mint_id@[old_mint_id]].owner_id@ != caller,
    ensures
        c.update_outcome(caller, old_mint_id, new_mint_id) == Err::<(), ContractError>(
            ContractError::Unauthorized,
        ),
{
}

/// The owner can repoint a mint id to an unused one; afterwards the old one
/// resolves to nothing, the new one to the series, and the series records
/// the new one.
pub proof fn law_update_by_owner(
    before: Contract,
    after: Contract,
    caller: Seq<char>,
    old_mint_id: u64,
    new_mint_id: u64,
)
    requires
        before.wf(),
        before.series_id_by_mint_id@.contains_key(old_mint_id),
        before.series_by_id@[before.series_id_by_mint_id@[old_mint_id]].owner_id@ == caller,
        !before.series_id_by_mint_id@.contains_key(new_mint_id),
    ensures
        before.update_outcome(caller, old_mint_id, new_mint_id) == Ok::<(), ContractError>(()),
        remapped(before, after, old_mint_id, new_mint_id) ==> {
            let sid = before.series_id_by_mint_id@[old_mint_id];
            &&& !after.series_id_by_mint_id@.contains_key(old_mint_id)
            &&& after.series_id_by_mint_id@.contains_key(new_mint_id)
            &&& after.series_id_by_mint_id@[new_mint_id] == sid
            &&& after.series_by_id@[sid].mint_id == new_mint_id
        },
{
}

} // verus!
