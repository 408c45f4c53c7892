use std::collections::HashMap;
use vstd::prelude::*;
use crate::token_id::{lemma_token_id_injective, make_token_id, token_id_of};
use crate::types::{
    ContractError, EventLog, KeypomArgs, NftMintLog, Series, Token, TokenMetadata,
    NFT_METADATA_SPEC, NFT_STANDARD_NAME,
};

verus! {

broadcast use vstd::std_specs::hash::group_hash_axioms;

/// The persistent state of the ledger.
pub struct Contract {
    /// Internal series id to series; ids are 1, 2, ... in order of creation.
    pub series_by_id: HashMap<u64, Series>,
    /// External mint id to internal series id.
    pub series_id_by_mint_id: HashMap<u64, u64>,
    /// Issued tokens with their identifiers, in order of issue.
    pub tokens_by_id: Vec<(String, Token)>,
    /// Accounts allowed to create series.
    pub approved_creators: Vec<String>,
    /// Accounts allowed to mint.
    pub approved_minters: Vec<String>,
}

/// `a` is one of the accounts in `l`.
pub open spec fn listed(l: Seq<String>, a: Seq<char>) -> bool {
    exists|i: int| 0 <= i < l.len() && #[trigger] l[i]@ == a
}

/// The identifiers held in `v`, as character sequences.
pub open spec fn id_seq(v: Seq<String>) -> Seq<Seq<char>> {
    v.map_values(|s: String| s@)
}

/// The tokens of series `sid` are `"{sid}:1"`, `"{sid}:2"`, ... in order of
/// issue, and their number stays within the ceiling of the series.
pub open spec fn series_ok(sid: u64, s: Series) -> bool {
    &&& forall|i: int|
        0 <= i < s.tokens@.len() ==> #[trigger] s.tokens@[i]@ == token_id_of(sid, (i + 1) as nat)
    &&& (s.metadata.copies is Some ==> s.tokens@.len() <= s.metadata.copies->0)
}

/// A stored token is one that its series lists as issued.
pub open spec fn token_recorded(series: Map<u64, Series>, e: (String, Token)) -> bool {
    &&& series.contains_key(e.1.series_id)
    &&& id_seq(series[e.1.series_id].tokens@).contains(e.0@)
}

/// The drop-id field is declared as `"mint_id"` and the account-id field as
/// `"receiver_id"`.
pub open spec fn payload_ok(a: KeypomArgs) -> bool {
    &&& a.drop_id_field is Some
    &&& a.drop_id_field->0@ == "mint_id"@
    &&& a.account_id_field is Some
    &&& a.account_id_field->0@ == "receiver_id"@
}

/// The mint id that a new series gets: the one supplied, else its own id.
pub open spec fn chosen_mint_id(mint_id: Option<u64>, series_id: u64) -> u64 {
    match mint_id {
        Some(m) => m,
        None => series_id,
    }
}

/// `after` is `before` with one more series, `sid`, created by `caller` and
/// reachable through the chosen mint id; nothing else changed.
pub open spec fn created(
    before: Contract,
    after: Contract,
    caller: Seq<char>,
    mint_id: Option<u64>,
    sid: u64,
) -> bool {
    let m = chosen_mint_id(mint_id, sid);
    let s = after.series_by_id@[sid];
    &&& sid == before.series_count() + 1
    &&& after.series_id_by_mint_id@ == before.series_id_by_mint_id@.insert(m, sid)
    &&& after.series_by_id@ == before.series_by_id@.insert(sid, s)
    &&& s.mint_id == m
    &&& s.tokens@.len() == 0
    &&& s.owner_id@ == caller
    &&& after.tokens_by_id@ == before.tokens_by_id@
    &&& after.approved_creators@ == before.approved_creators@
    &&& after.approved_minters@ == before.approved_minters@
}

/// `after` is `before` with the `ordinal`-th token of the series behind
/// `mint_id` issued to `receiver`; nothing else changed.
pub open spec fn minted(
    before: Contract,
    after: Contract,
    mint_id: u64,
    receiver: Seq<char>,
    ordinal: nat,
) -> bool {
    let sid = before.series_id_by_mint_id@[mint_id];
    let b = before.series_by_id@[sid];
    let s = after.series_by_id@[sid];
    let tid = token_id_of(sid, ordinal);
    let entry = after.tokens_by_id@.last();
    &&& ordinal == b.tokens@.len() + 1
    &&& after.series_by_id@ == before.series_by_id@.insert(sid, s)
    &&& id_seq(s.tokens@) == id_seq(b.tokens@).push(tid)
    &&& s.mint_id == b.mint_id
    &&& s.metadata == b.metadata
    &&& s.royalty == b.royalty
    &&& s.owner_id == b.owner_id
    &&& after.series_id_by_mint_id@ == before.series_id_by_mint_id@
    &&& after.tokens_by_id@.len() == before.tokens_by_id@.len() + 1
    &&& after.tokens_by_id@.drop_last() == before.tokens_by_id@
    &&& entry.0@ == tid
    &&& entry.1.series_id == sid
    &&& entry.1.owner_id@ == receiver
    &&& entry.1.approved_account_ids@ == Map::<String, u64>::empty()
    &&& entry.1.next_approval_id == 0
    &&& after.approved_creators@ == before.approved_creators@
    &&& after.approved_minters@ == before.approved_minters@
}

/// `after` is `before` with the series behind `old_mint_id` now reachable
/// through `new_mint_id` instead; nothing else changed.
pub open spec fn remapped(before: Contract, after: Contract, old_mint_id: u64, new_mint_id: u64) -> bool {
    let sid = before.series_id_by_mint_id@[old_mint_id];
    let b = before.series_by_id@[sid];
    let s = after.series_by_id@[sid];
    &&& after.series_id_by_mint_id@ == before.series_id_by_mint_id@.remove(old_mint_id).insert(
        new_mint_id,
        sid,
    )
    &&& after.series_by_id@ == before.series_by_id@.insert(sid, s)
    &&& s.mint_id == new_mint_id
    &&& s.tokens@ == b.tokens@
    &&& s.metadata == b.metadata
    &&& s.royalty == b.royalty
    &&& s.owner_id == b.owner_id
    &&& after.tokens_by_id@ == before.tokens_by_id@
    &&& after.approved_creators@ == before.approved_creators@
    &&& after.approved_minters@ == before.approved_minters@
}

fn is_listed(l: &Vec<String>, a: &String) -> (r: bool)
    ensures
        r == listed(l@, a@),
{
    let mut i: usize = 0;
    while i < l.len()
        invariant
            0 <= i <= l@.len(),
            forall|j: int| 0 <= j < i ==> l@[j]@ != a@,
        decreases l@.len() - i,
    {
        if l[i] == *a {
            return true;
        }
        i = i + 1;
    }
    false
}

fn field_is(f: &Option<String>, name: &str) -> (r: bool)
    ensures
        r == (f is Some && f->0@ == name@),
{
    match f {
        Some(s) => {
            let n = String::from_str(name);
            *s == n
        },
        None => false,
    }
}

impl Contract {
    /// Number of series created so far.
    pub open spec fn series_count(&self) -> nat {
        self.series_by_id@.len()
    }

    /// Identifiers of the issued tokens, in order of issue.
    pub open spec fn token_ids(&self) -> Seq<Seq<char>> {
        self.tokens_by_id@.map_values(|e: (String, Token)| e.0@)
    }

    /// The state invariant: series ids are dense, the mint-id mapping and the
    /// series' own mint ids agree one for one, every series holds its tokens
    /// in order within its ceiling, and every stored token is listed by its
    /// series.
    pub open spec fn wf(&self) -> bool {
        let series = self.series_by_id@;
        let mints = self.series_id_by_mint_id@;
        &&& forall|k: u64| #[trigger] series.contains_key(k) <==> 1 <= k <= series.len()
        &&& forall|m: u64| #[trigger]
            mints.contains_key(m) ==> series.contains_key(mints[m]) && series[mints[m]].mint_id == m
        &&& forall|k: u64| #[trigger]
            series.contains_key(k) ==> {
                &&& mints.contains_key(series[k].mint_id)
                &&& mints[series[k].mint_id] == k
                &&& series_ok(k, series[k])
            }
        &&& forall|j: int|
            0 <= j < self.tokens_by_id@.len() ==> token_recorded(
                series,
                #[trigger] self.tokens_by_id@[j],
            )
    }

    /// What `create_series` returns for a caller and a requested mint id.
    pub open spec fn create_outcome(&self, caller: Seq<char>, mint_id: Option<u64>) -> Result<
        u64,
        ContractError,
    > {
        let sid = (self.series_count() + 1) as u64;
        if !listed(self.approved_creators@, caller) {
            Err(ContractError::Unauthorized)
        } else if self.series_id_by_mint_id@.contains_key(chosen_mint_id(mint_id, sid)) {
            Err(ContractError::DuplicateMintId)
        } else {
            Ok(sid)
        }
    }

    /// What `nft_mint` returns: the ordinal of the new token, or the error.
    /// A series whose next ordinal would not fit in a `u64` is exhausted too.
    pub open spec fn mint_outcome(&self, caller: Seq<char>, mint_id: u64, args: KeypomArgs) -> Result<
        nat,
        ContractError,
    > {
        if !payload_ok(args) {
            Err(ContractError::MalformedIntegrityPayload)
        } else if !listed(self.approved_minters@, caller) {
            Err(ContractError::Unauthorized)
        } else if !self.series_id_by_mint_id@.contains_key(mint_id) {
            Err(ContractError::UnknownMintId)
        } else {
            let s = self.series_by_id@[self.series_id_by_mint_id@[mint_id]];
            if s.tokens@.len() >= u64::MAX || (s.metadata.copies is Some && s.tokens@.len()
                >= s.metadata.copies->0) {
                Err(ContractError::SupplyExhausted)
            } else {
                Ok(s.tokens@.len() + 1)
            }
        }
    }

    /// What `update_mint_id` returns.
    pub open spec fn update_outcome(&self, caller: Seq<char>, old_mint_id: u64, new_mint_id: u64) -> Result<
        (),
        ContractError,
    > {
        let mints = self.series_id_by_mint_id@;
        if !mints.contains_key(old_mint_id) {
            Err(ContractError::UnknownMintId)
        } else if self.series_by_id@[mints[old_mint_id]].owner_id@ != caller {
            Err(ContractError::Unauthorized)
        } else if new_mint_id != old_mint_id && mints.contains_key(new_mint_id) {
            Err(ContractError::DuplicateMintId)
        } else {
            Ok(())
        }
    }

    /// A ledger with no series and no tokens, and the given role lists.
    pub fn new(approved_creators: Vec<String>, approved_minters: Vec<String>) -> (r: Contract)
        ensures
            r.wf(),
            r.series_by_id@ == Map::<u64, Series>::empty(),
            r.series_id_by_mint_id@ == Map::<u64, u64>::empty(),
            r.tokens_by_id@.len() == 0,
            r.approved_creators@ == approved_creators@,
            r.approved_minters@ == approved_minters@,
    {
        Contract {
            series_by_id: HashMap::new(),
            series_id_by_mint_id: HashMap::new(),
            tokens_by_id: Vec::new(),
            approved_creators,
            approved_minters,
        }
    }

    /// Whether `account` may create series.
    pub fn is_approved_creator(&self, account: &String) -> (r: bool)
        ensures
            r == listed(self.approved_creators@, account@),
    {
        is_listed(&self.approved_creators, account)
    }

    /// Whether `account` may mint.
    pub fn is_approved_minter(&self, account: &String) -> (r: bool)
        ensures
            r == listed(self.approved_minters@, account@),
    {
        is_listed(&self.approved_minters, account)
    }

    /// Whether a token with identifier `token_id` is stored.
    pub fn token_exists(&self, token_id: &String) -> (r: bool)
        ensures
            r == self.token_ids().contains(token_id@),
    {
        let mut i: usize = 0;
        while i < self.tokens_by_id.len()
            invariant
                0 <= i <= self.tokens_by_id@.len(),
                forall|j: int| 0 <= j < i ==> self.tokens_by_id@[j].0@ != token_id@,
            decreases self.tokens_by_id@.len() - i,
        {
            if self.tokens_by_id[i].0 == *token_id {
                assert(self.token_ids()[i as int] == token_id@);
                return true;
            }
            i = i + 1;
        }
        proof {
            if self.token_ids().contains(token_id@) {
                let j = choose|j: int| 0 <= j < self.token_ids().len() && self.token_ids()[j] == token_id@;
                assert(self.tokens_by_id@[j].0@ == token_id@);
            }
        }
        false
    }
    /// Creates a series owned by `caller`, reachable through `mint_id` (or,
    /// without one, through its own id), and returns its id. The check for a
    /// taken series id stays as a guard; the invariant shows it never fires.
    pub fn create_series(
        &mut self,
        caller: String,
        mint_id: Option<u64>,
        metadata: TokenMetadata,
        royalty: Option<HashMap<String, u32>>,
    ) -> (r: Result<u64, ContractError>)
        requires
            old(self).wf(),
            old(self).series_count() < u64::MAX,
        ensures
            final(self).wf(),
            r == old(self).create_outcome(caller@, mint_id),
            r is Err ==> *final(self) == *old(self),
            r is Ok ==> created(*old(self), *final(self), caller@, mint_id, r->Ok_0),
            r is Ok ==> final(self).series_by_id@[r->Ok_0].metadata == metadata,
            r is Ok ==> final(self).series_by_id@[r->Ok_0].royalty == royalty,
    {
        if !self.is_approved_creator(&caller) {
            return Err(ContractError::Unauthorized);
        }
        let series_id: u64 = self.series_by_id.len() as u64 + 1;
        let final_mint_id: u64 = match mint_id {
            Some(m) => m,
            None => series_id,
        };
        if self.series_id_by_mint_id.contains_key(&final_mint_id) {
            return Err(ContractError::DuplicateMintId);
        }
        if self.series_by_id.contains_key(&series_id) {
            return Err(ContractError::DuplicateSeriesId);
        }
        let ghost old_series = self.series_by_id@;
        let series = Series {
            mint_id: final_mint_id,
            metadata,
            royalty,
            tokens: Vec::new(),
            owner_id: caller,
        };
        self.series_id_by_mint_id.insert(final_mint_id, series_id);
        self.series_by_id.insert(series_id, series);
        proof {
            let series_map = self.series_by_id@;
            assert(series_map.len() == old_series.len() + 1);
            assert forall|k: u64| #[trigger] series_map.contains_key(k) <==> 1 <= k <= series_map.len() by {
                if k != series_id {
                    assert(old_series.contains_key(k) <==> series_map.contains_key(k));
                }
            }
            assert forall|j: int| 0 <= j < self.tokens_by_id@.len() implies token_recorded(
                series_map,
                #[trigger] self.tokens_by_id@[j],
            ) by {
                assert(token_recorded(old_series, self.tokens_by_id@[j]));
            }
        }
        Ok(series_id)
    }
    /// Mints the next token of the series that `mint_id` resolves to, for
    /// `receiver_id`, and returns the mint event to log. The checks for a
    /// missing series and a taken token id stay as guards; the invariant and
    /// the injectivity of token identifiers show they never fire.
    pub fn nft_mint(
        &mut self,
        caller: &String,
        mint_id: u64,
        receiver_id: String,
        keypom_args: &KeypomArgs,
    ) -> (r: Result<EventLog, ContractError>)
        requires
            old(self).wf(),
        ensures
            final(self).wf(),
            r is Err ==> *final(self) == *old(self),
            r is Err <==> old(self).mint_outcome(caller@, mint_id, *keypom_args) is Err,
            r is Err ==> r->Err_0 == old(self).mint_outcome(caller@, mint_id, *keypom_args)->Err_0,
            r is Ok ==> minted(
                *old(self),
                *final(self),
                mint_id,
                receiver_id@,
                old(self).mint_outcome(caller@, mint_id, *keypom_args)->Ok_0,
            ),
            r is Ok ==> {
                let ev = r->Ok_0;
                let sid = old(self).series_id_by_mint_id@[mint_id];
                let ordinal = old(self).mint_outcome(caller@, mint_id, *keypom_args)->Ok_0;
                &&& ev.standard@ == NFT_STANDARD_NAME@
                &&& ev.version@ == NFT_METADATA_SPEC@
                &&& ev.event@.len() == 1
                &&& ev.event@[0].owner_id@ == receiver_id@
                &&& id_seq(ev.event@[0].token_ids@) == seq![token_id_of(sid, ordinal)]
                &&& ev.event@[0].memo is None
            },
    {
        if !field_is(&keypom_args.drop_id_field, "mint_id") {
            return Err(ContractError::MalformedIntegrityPayload);
        }
        if !field_is(&keypom_args.account_id_field, "receiver_id") {
            return Err(ContractError::MalformedIntegrityPayload);
        }
        if !self.is_approved_minter(caller) {
            return Err(ContractError::Unauthorized);
        }
        let series_id: u64 = match self.series_id_by_mint_id.get(&mint_id) {
            Some(sid) => *sid,
            None => {
                return Err(ContractError::UnknownMintId);
            },
        };
        let cur_len: usize = match self.series_by_id.get(&series_id) {
            Some(series) => {
                if series.tokens.len() as u64 == u64::MAX {
                    return Err(ContractError::SupplyExhausted);
                }
                if let Some(copies) = series.metadata.copies {
                    if series.tokens.len() as u64 >= copies {
                        return Err(ContractError::SupplyExhausted);
                    }
                }
                series.tokens.len()
            },
            None => {
                return Err(ContractError::UnknownSeries);
            },
        };
        let ghost old_series = self.series_by_id@;
        let ghost before = old_series[series_id];
        proof {
            assert(series_ok(series_id, before));
        }
        let token_id = make_token_id(series_id, cur_len as u64 + 1);
        if self.token_exists(&token_id) {
            proof {
                let j = choose|j: int|
                    0 <= j < self.token_ids().len() && self.token_ids()[j] == token_id@;
                let e = self.tokens_by_id@[j];
                assert(token_recorded(old_series, e));
                let t = old_series[e.1.series_id].tokens@;
                let i = choose|i: int| 0 <= i < t.len() && id_seq(t)[i] == e.0@;
                assert(series_ok(e.1.series_id, old_series[e.1.series_id]));
                assert(t[i]@ == token_id_of(e.1.series_id, (i + 1) as nat));
                lemma_token_id_injective(e.1.series_id, (i + 1) as nat, series_id, (cur_len + 1) as nat);
            }
            return Err(ContractError::DuplicateTokenId);
        }
        let mut series = self.series_by_id.remove(&series_id).unwrap();
        series.tokens.push(token_id.clone());
        self.series_by_id.insert(series_id, series);
        let token = Token {
            series_id,
            owner_id: receiver_id.clone(),
            approved_account_ids: HashMap::new(),
            next_approval_id: 0,
        };
        let ghost old_tokens = self.tokens_by_id@;
        self.tokens_by_id.push((token_id.clone(), token));
        proof {
            let series_map = self.series_by_id@;
            let after = series_map[series_id];
            assert(id_seq(after.tokens@) =~= id_seq(before.tokens@).push(token_id@));
            assert(series_ok(series_id, after));
            assert(series_map.dom() =~= old_series.dom());
            assert forall|j: int| 0 <= j < self.tokens_by_id@.len() implies token_recorded(
                series_map,
                #[trigger] self.tokens_by_id@[j],
            ) by {
                if j < old_tokens.len() {
                    let e = old_tokens[j];
                    assert(token_recorded(old_series, e));
                    if e.1.series_id == series_id {
                        let i = choose|i: int| 0 <= i < before.tokens@.len() && id_seq(before.tokens@)[i] == e.0@;
                        assert(id_seq(after.tokens@)[i] == e.0@);
                    }
                } else {
                    assert(id_seq(after.tokens@)[cur_len as int] == token_id@);
                }
            }
            assert(self.tokens_by_id@.drop_last() =~= old_tokens);
            assert(series_map =~= old_series.insert(series_id, after));
        }
        let log = NftMintLog {
            owner_id: receiver_id,
            token_ids: vec![token_id],
            memo: None,
        };
        let ev = EventLog {
            standard: String::from_str(NFT_STANDARD_NAME),
            version: String::from_str(NFT_METADATA_SPEC),
            event: vec![log],
        };
        proof {
            assert(id_seq(ev.event@[0].token_ids@) =~= seq![token_id_of(series_id, (cur_len + 1) as nat)]);
        }
        Ok(ev)
    }
    /// Repoints the series that `old_mint_id` resolves to so that
    /// `new_mint_id` resolves to it instead. Only the series owner may.
    pub fn update_mint_id(&mut self, caller: &String, old_mint_id: u64, new_mint_id: u64) -> (r: Result<
        (),
        ContractError,
    >)
        requires
            old(self).wf(),
        ensures
            final(self).wf(),
            r == old(self).update_outcome(caller@, old_mint_id, new_mint_id),
            r is Err ==> *final(self) == *old(self),
            r is Ok ==> remapped(*old(self), *final(self), old_mint_id, new_mint_id),
    {
        let series_id: u64 = match self.series_id_by_mint_id.get(&old_mint_id) {
            Some(sid) => *sid,
            None => {
                return Err(ContractError::UnknownMintId);
            },
        };
        match self.series_by_id.get(&series_id) {
            Some(series) => {
                if !(series.owner_id == *caller) {
                    return Err(ContractError::Unauthorized);
                }
            },
            None => {
                return Err(ContractError::UnknownSeries);
            },
        }
        if new_mint_id != old_mint_id && self.series_id_by_mint_id.contains_key(&new_mint_id) {
            return Err(ContractError::DuplicateMintId);
        }
        let ghost old_series = self.series_by_id@;
        let ghost old_mints = self.series_id_by_mint_id@;
        self.series_id_by_mint_id.remove(&old_mint_id);
        self.series_id_by_mint_id.insert(new_mint_id, series_id);
        let mut series = self.series_by_id.remove(&series_id).unwrap();
        series.mint_id = new_mint_id;
        self.series_by_id.insert(series_id, series);
        proof {
            let series_map = self.series_by_id@;
            let mints = self.series_id_by_mint_id@;
            assert(series_map.dom() =~= old_series.dom());
            assert(series_ok(series_id, old_series[series_id]));
            assert(series_map =~= old_series.insert(series_id, series_map[series_id]));
            assert forall|m: u64| #[trigger]
                mints.contains_key(m) implies series_map.contains_key(mints[m])
                && series_map[mints[m]].mint_id == m by {
                if m != new_mint_id {
                    assert(old_mints.contains_key(m));
                    assert(old_series[old_mints[m]].mint_id == m);
                }
            }
            assert forall|k: u64| #[trigger] series_map.contains_key(k) implies {
                &&& mints.contains_key(series_map[k].mint_id)
                &&& mints[series_map[k].mint_id] == k
                &&& series_ok(k, series_map[k])
            } by {
                assert(old_series.contains_key(k));
                if k != series_id {
                    assert(old_mints[old_series[k].mint_id] == k);
                }
            }
            assert forall|j: int| 0 <= j < self.tokens_by_id@.len() implies token_recorded(
                series_map,
                #[trigger] self.tokens_by_id@[j],
            ) by {
                assert(token_recorded(old_series, self.tokens_by_id@[j]));
            }
        }
        Ok(())
    }
}

} // verus!
