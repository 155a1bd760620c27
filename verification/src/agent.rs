use vstd::prelude::*;

use crate::ident::{AccountId, AgentError, OpContext};
use crate::ident::zero_id;
use crate::pda::{agent_profile_seed_vec, agent_profile_seeds, derive_address, pda_of};
use crate::store::Store;

verus! {

/// Byte budget for an agent's display name.
pub const MAX_NAME_LEN: usize = 64;

/// Byte budget for an agent's service endpoint.
pub const MAX_ENDPOINT_LEN: usize = 128;

/// Most capability tags one profile reserves room for.
pub const MAX_CAPABILITIES: usize = 20;

/// Byte budget for a single capability tag.
pub const MAX_CAPABILITY_LEN: usize = 32;

/// One agent's directory entry, resident at the address derived from the
/// owning authority's key. The authority never changes after creation;
/// `reputation_score` and `total_jobs` only grow.
pub struct AgentProfile {
    pub authority: AccountId,
    pub name: String,
    pub endpoint: String,
    pub capabilities: Vec<String>,
    pub base_fee: u64,
    pub asset_mint: AccountId,
    pub reputation_score: u64,
    pub total_jobs: u64,
    pub registered_at: i64,
    pub is_active: bool,
}

impl AgentProfile {
    /// Variable-length fields fit the byte budget that the record reserves
    /// at creation; no later growth is possible.
    pub open spec fn fits(&self) -> bool {
        &&& self.name@.len() <= MAX_NAME_LEN
        &&& self.endpoint@.len() <= MAX_ENDPOINT_LEN
        &&& self.capabilities@.len() <= MAX_CAPABILITIES
        &&& forall|i: int|
            0 <= i < self.capabilities@.len() ==> self.capabilities@[i]@.len()
                <= MAX_CAPABILITY_LEN
    }
}

/// The profile that a pricing update leaves behind: the new fee and payment
/// asset, every other field unchanged.
pub open spec fn with_pricing(p: AgentProfile, base_fee: u64, asset_mint: AccountId) -> AgentProfile {
    AgentProfile { base_fee, asset_mint, ..p }
}

/// Addition that clamps at the unsigned 64-bit maximum instead of wrapping.
pub open spec fn saturating_inc(x: u64) -> u64 {
    if x == u64::MAX {
        u64::MAX
    } else {
        (x + 1) as u64
    }
}

/// The profile that a job-completion report leaves behind: the job counter
/// up one, and on success the reputation up one, saturating.
pub open spec fn after_report(p: AgentProfile, success: bool) -> AgentProfile {
    AgentProfile {
        total_jobs: (p.total_jobs + 1) as u64,
        reputation_score: if success {
            saturating_inc(p.reputation_score)
        } else {
            p.reputation_score
        },
        ..p
    }
}

/// However many successful reports are applied, the reputation stays within
/// the unsigned 64-bit range, never wraps, and never decreases: each step is
/// monotone and fixes the maximum.
pub proof fn lemma_reputation_saturates(p: AgentProfile, success: bool)
    ensures
        after_report(p, success).reputation_score >= p.reputation_score,
        after_report(p, success).reputation_score <= u64::MAX,
        p.reputation_score == u64::MAX ==> after_report(p, success).reputation_score == u64::MAX,
{
}

/// The agent directory: profiles addressed by derivation from the owning
/// authority's key under this program's id.
pub struct AgentRegistry {
    program_id: AccountId,
    profiles: Store<AgentProfile>,
}

impl View for AgentRegistry {
    type V = Map<Seq<u8>, AgentProfile>;

    closed spec fn view(&self) -> Map<Seq<u8>, AgentProfile> {
        self.profiles@
    }
}

impl AgentRegistry {
    pub closed spec fn wf(&self) -> bool {
        &&& self.profiles.wf()
        &&& forall|k: Seq<u8>| #[trigger] self@.contains_key(k) ==> self@[k].fits()
    }

    /// The program id under which this directory derives its addresses.
    pub closed spec fn program(&self) -> Seq<u8> {
        self.program_id@
    }

    pub fn new(program_id: AccountId) -> (r: AgentRegistry)
        ensures
            r.wf(),
            r@ == Map::<Seq<u8>, AgentProfile>::empty(),
            r.program() == program_id@,
    {
        AgentRegistry { program_id, profiles: Store::new() }
    }

    /// Registers a new agent profile at the address derived from the
    /// caller's key. Fails with `AlreadyExists` if a record is already
    /// resident there, with `CapacityExceeded` if a field overflows the
    /// byte budget the record reserves, and with `AddressUnavailable` in
    /// the statistically improbable event that no address can be derived;
    /// every failure leaves the directory unchanged. On success the new
    /// profile starts with zero reputation and jobs, an unset (all-zero)
    /// fee and payment asset, the caller as its immutable authority, the
    /// context clock as its registration time, and the active flag set.
    #[verifier::loop_isolation(false)]
    pub fn register_agent(
        &mut self,
        ctx: &OpContext,
        name: String,
        endpoint: String,
        capabilities: Vec<String>,
    ) -> (r: Result<AccountId, AgentError>)
        requires
            old(self).wf(),
        ensures
            final(self).wf(),
            final(self).program() == old(self).program(),
            match pda_of(agent_profile_seeds(ctx.caller@), old(self).program()) {
                None => r == Err::<AccountId, AgentError>(AgentError::AddressUnavailable)
                    && final(self)@ == old(self)@,
                Some(q) => {
                    let k = q.0;
                    if old(self)@.contains_key(k) {
                        r == Err::<AccountId, AgentError>(AgentError::AlreadyExists)
                            && final(self)@ == old(self)@
                    } else if !(name@.len() <= MAX_NAME_LEN && endpoint@.len() <= MAX_ENDPOINT_LEN
                        && capabilities@.len() <= MAX_CAPABILITIES
                        && (forall|i: int|
                            0 <= i < capabilities@.len() ==> capabilities@[i]@.len()
                                <= MAX_CAPABILITY_LEN)) {
                        r == Err::<AccountId, AgentError>(AgentError::CapacityExceeded)
                            && final(self)@ == old(self)@
                    } else {
                        &&& r matches Ok(addr) && addr@ == k
                        &&& final(self)@ == old(self)@.insert(k, final(self)@[k])
                        &&& final(self)@.contains_key(k)
                        &&& final(self)@[k].authority == ctx.caller
                        &&& final(self)@[k].name == name
                        &&& final(self)@[k].endpoint == endpoint
                        &&& final(self)@[k].capabilities == capabilities
                        &&& final(self)@[k].base_fee == 0
                        &&& final(self)@[k].asset_mint@ == zero_id()
                        &&& final(self)@[k].reputation_score == 0
                        &&& final(self)@[k].total_jobs == 0
                        &&& final(self)@[k].registered_at == ctx.now
                        &&& final(self)@[k].is_active
                    }
                },
            },
    {
        let seeds = agent_profile_seed_vec(&ctx.caller);
        let derived = derive_address(&seeds, &self.program_id);
        let (addr, _bump) = match derived {
            Some(p) => p,
            None => {
                return Err(AgentError::AddressUnavailable);
            },
        };
        if self.profiles.contains(&addr) {
            return Err(AgentError::AlreadyExists);
        }
        if name.as_str().unicode_len() > MAX_NAME_LEN || endpoint.as_str().unicode_len()
            > MAX_ENDPOINT_LEN || capabilities.len() > MAX_CAPABILITIES {
            return Err(AgentError::CapacityExceeded);
        }
        let mut i: usize = 0;
        while i < capabilities.len()
            invariant
                *self == *old(self),
                i <= capabilities@.len(),
                forall|j: int| 0 <= j < i ==> capabilities@[j]@.len() <= MAX_CAPABILITY_LEN,
            decreases capabilities@.len() - i,
        {
            if capabilities[i].as_str().unicode_len() > MAX_CAPABILITY_LEN {
                return Err(AgentError::CapacityExceeded);
            }
            i += 1;
        }
        let profile = AgentProfile {
            authority: ctx.caller,
            name,
            endpoint,
            capabilities,
            base_fee: 0,
            asset_mint: AccountId::zero(),
            reputation_score: 0,
            total_jobs: 0,
            registered_at: ctx.now,
            is_active: true,
        };
        let created = self.profiles.create(addr, profile);
        match created {
            Ok(()) => Ok(addr),
            Err(_) => unreached(),
        }
    }

    /// Overwrites the base fee and payment asset of the profile at the
    /// named address (canonically the one derived from the stored
    /// authority's key). The authorization guard admits only the stored
    /// authority: the operation fails with `NotFound` when no profile is
    /// resident and with `Unauthorized` when the caller is a different
    /// identity; every failure leaves the directory unchanged, and success
    /// changes no other field.
    pub fn update_pricing(
        &mut self,
        ctx: &OpContext,
        target: &AccountId,
        base_fee: u64,
        asset_mint: AccountId,
    ) -> (r: Result<(), AgentError>)
        requires
            old(self).wf(),
        ensures
            final(self).wf(),
            final(self).program() == old(self).program(),
            !old(self)@.contains_key(target@) ==> r == Err::<(), AgentError>(AgentError::NotFound)
                && final(self)@ == old(self)@,
            old(self)@.contains_key(target@) && old(self)@[target@].authority@ != ctx.caller@ ==> r
                == Err::<(), AgentError>(AgentError::Unauthorized) && final(self)@ == old(self)@,
            old(self)@.contains_key(target@) && old(self)@[target@].authority@ == ctx.caller@ ==> r
                == Ok::<(), AgentError>(()) && final(self)@ == old(self)@.insert(
                target@,
                with_pricing(old(self)@[target@], base_fee, asset_mint),
            ),
    {
        let authorized = match self.profiles.load(target) {
            None => {
                return Err(AgentError::NotFound);
            },
            Some(p) => p.authority.same_as(&ctx.caller),
        };
        if !authorized {
            return Err(AgentError::Unauthorized);
        }
        let p = self.profiles.take(target);
        let updated = AgentProfile { base_fee, asset_mint, ..p };
        self.profiles.put(*target, updated);
        proof {
            assert(self@ =~= old(self)@.insert(
                target@,
                with_pricing(old(self)@[target@], base_fee, asset_mint),
            ));
        }
        Ok(())
    }

    /// A borrowed view of the profile at the given address, or `None` when
    /// no record is resident there.
    pub fn get_profile(&self, target: &AccountId) -> (r: Option<&AgentProfile>)
        requires
            self.wf(),
        ensures
            match r {
                Some(p) => self@.contains_key(target@) && *p == self@[target@],
                None => !self@.contains_key(target@),
            },
    {
        self.profiles.load(target)
    }

    /// Counts a completed job against the profile at the given address,
    /// which the caller supplies directly: no re-derivation and, deliberately,
    /// no authority check — any caller may report (a documented trust
    /// gap of this registry, not a safeguard). The job
    /// counter goes up by one; on success the reputation goes up by one,
    /// saturating at the unsigned 64-bit maximum instead of wrapping. Fails
    /// with `NotFound`, changing nothing, when no profile is resident.
    pub fn report_job_completion(&mut self, target: &AccountId, success: bool) -> (r: Result<
        (),
        AgentError,
    >)
        requires
            old(self).wf(),
            old(self)@.contains_key(target@) ==> old(self)@[target@].total_jobs < u64::MAX,
        ensures
            final(self).wf(),
            final(self).program() == old(self).program(),
            !old(self)@.contains_key(target@) ==> r == Err::<(), AgentError>(AgentError::NotFound)
                && final(self)@ == old(self)@,
            old(self)@.contains_key(target@) ==> r == Ok::<(), AgentError>(())
                && final(self)@ == old(self)@.insert(
                target@,
                after_report(old(self)@[target@], success),
            ),
    {
        if !self.profiles.contains(target) {
            return Err(AgentError::NotFound);
        }
        let p = self.profiles.take(target);
        let new_reputation: u64 = if success {
            if p.reputation_score == u64::MAX {
                u64::MAX
            } else {
                p.reputation_score + 1
            }
        } else {
            p.reputation_score
        };
        let updated = AgentProfile {
            total_jobs: p.total_jobs + 1,
            reputation_score: new_reputation,
            ..p
        };
        self.profiles.put(*target, updated);
        proof {
            assert(self@ =~= old(self)@.insert(
                target@,
                after_report(old(self)@[target@], success),
            ));
        }
        Ok(())
    }
}

} // verus!
