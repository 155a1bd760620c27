use vstd::prelude::*;

use crate::ident::AccountId;

verus! {

/// What the program-derived-address search returns for given seeds under a
/// given program id: the 32-byte address and its disambiguation bump, or
/// `None` in the statistically improbable event that no bump yields a valid
/// address. The result is a pure function of the seeds and the program id,
/// which is what lets any party locate a record without a directory.
pub uninterp spec fn pda_of(seeds: Seq<Seq<u8>>, program_id: Seq<u8>) -> Option<(Seq<u8>, u8)>;

/// Relies on `solana_pubkey::Pubkey::try_find_program_address` (the `Pubkey`
/// that `anchor_lang` re-exports): its result is deterministic in the seeds
/// and the program id alone, and a returned address is 32 bytes.
#[verifier::external_body]
pub(crate) fn derive_address(seeds: &Vec<Vec<u8>>, program_id: &AccountId) -> (r: Option<(
    AccountId,
    u8,
)>)
    ensures
        match r {
            Some(p) => pda_of(seeds.deep_view(), program_id@) matches Some(q) && p.0@ == q.0
                && q.0.len() == 32 && p.1 == q.1,
            None => pda_of(seeds.deep_view(), program_id@) is None,
        },
{
    let pid = solana_pubkey::Pubkey::new_from_array(program_id.to_bytes());
    let seed_refs: Vec<&[u8]> = seeds.iter().map(|s| s.as_slice()).collect();
    solana_pubkey::Pubkey::try_find_program_address(&seed_refs, &pid)
        .map(|(addr, bump)| (AccountId::new(addr.to_bytes()), bump))
}

/// The namespace tag of agent-profile records: the bytes of "agent_profile".
pub open spec fn agent_profile_tag() -> Seq<u8> {
    seq![97u8, 103u8, 101u8, 110u8, 116u8, 95u8, 112u8, 114u8, 111u8, 102u8, 105u8, 108u8, 101u8]
}

/// The namespace tag of user-score records: the bytes of "user_score".
pub open spec fn user_score_tag() -> Seq<u8> {
    seq![117u8, 115u8, 101u8, 114u8, 95u8, 115u8, 99u8, 111u8, 114u8, 101u8]
}

fn agent_profile_tag_bytes() -> (r: Vec<u8>)
    ensures
        r@ == agent_profile_tag(),
{
    let mut v: Vec<u8> = Vec::new();
    v.push(97);
    v.push(103);
    v.push(101);
    v.push(110);
    v.push(116);
    v.push(95);
    v.push(112);
    v.push(114);
    v.push(111);
    v.push(102);
    v.push(105);
    v.push(108);
    v.push(101);
    proof {
        assert(v@ =~= agent_profile_tag());
    }
    v
}

fn user_score_tag_bytes() -> (r: Vec<u8>)
    ensures
        r@ == user_score_tag(),
{
    let mut v: Vec<u8> = Vec::new();
    v.push(117);
    v.push(115);
    v.push(101);
    v.push(114);
    v.push(95);
    v.push(115);
    v.push(99);
    v.push(111);
    v.push(114);
    v.push(101);
    proof {
        assert(v@ =~= user_score_tag());
    }
    v
}

/// The derivation inputs of an agent's profile record: the namespace tag and
/// the owning authority's key.
pub open spec fn agent_profile_seeds(authority: Seq<u8>) -> Seq<Seq<u8>> {
    seq![agent_profile_tag(), authority]
}

/// The derivation inputs of a user's score record keyed by the user alone.
pub open spec fn user_score_seeds(user: Seq<u8>) -> Seq<Seq<u8>> {
    seq![user_score_tag(), user]
}

/// The derivation inputs of a user's score record scoped to one leaderboard:
/// the parent record's address is folded in, which ties the two records
/// together without an embedded link.
pub open spec fn scoped_user_score_seeds(board: Seq<u8>, user: Seq<u8>) -> Seq<Seq<u8>> {
    seq![user_score_tag(), board, user]
}

pub(crate) fn agent_profile_seed_vec(authority: &AccountId) -> (r: Vec<Vec<u8>>)
    ensures
        r.deep_view() == agent_profile_seeds(authority@),
{
    let mut seeds: Vec<Vec<u8>> = Vec::new();
    seeds.push(agent_profile_tag_bytes());
    seeds.push(authority.to_byte_vec());
    proof {
        assert(seeds.deep_view() =~~= agent_profile_seeds(authority@));
    }
    seeds
}

pub(crate) fn user_score_seed_vec(user: &AccountId) -> (r: Vec<Vec<u8>>)
    ensures
        r.deep_view() == user_score_seeds(user@),
{
    let mut seeds: Vec<Vec<u8>> = Vec::new();
    seeds.push(user_score_tag_bytes());
    seeds.push(user.to_byte_vec());
    proof {
        assert(seeds.deep_view() =~~= user_score_seeds(user@));
    }
    seeds
}

pub(crate) fn scoped_user_score_seed_vec(board: &AccountId, user: &AccountId) -> (r: Vec<
    Vec<u8>,
>)
    ensures
        r.deep_view() == scoped_user_score_seeds(board@, user@),
{
    let mut seeds: Vec<Vec<u8>> = Vec::new();
    seeds.push(user_score_tag_bytes());
    seeds.push(board.to_byte_vec());
    seeds.push(user.to_byte_vec());
    proof {
        assert(seeds.deep_view() =~~= scoped_user_score_seeds(board@, user@));
    }
    seeds
}

} // verus!
