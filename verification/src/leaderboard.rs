use vstd::prelude::*;

use crate::ident::{AccountId, AgentError, OpContext};
use crate::pda::{derive_address, pda_of, user_score_seed_vec, user_score_seeds};
use crate::store::Store;
use crate::tally::{lemma_max_push, lemma_sum_push, max_of, sum_of};

verus! {

/// Byte budget for a leaderboard's exercise name.
pub const MAX_EXERCISE_NAME_LEN: usize = 64;

/// One combined-exercise competition: aggregate counters over every user.
pub struct Leaderboard {
    pub exercise_name: String,
    pub total_participants: u64,
    pub total_submissions: u64,
}

impl Leaderboard {
    /// The name fits the byte budget the record reserves at creation.
    pub open spec fn fits(&self) -> bool {
        self.exercise_name@.len() <= MAX_EXERCISE_NAME_LEN
    }
}

/// One user's cumulative standing, resident at the address derived from the
/// user's key. Created by an explicit one-time initialization; a submission
/// to an absent record fails rather than creating it.
#[derive(Clone, Copy, Debug)]
pub struct UserScore {
    pub user: AccountId,
    pub total_score: u64,
    pub best_single_score: u64,
    pub pullups: u64,
    pub jumps: u64,
    pub submission_count: u64,
    pub last_submission_time: u64,
    pub first_submission_time: u64,
}

/// A snapshot copy of one user record's public fields.
#[derive(Clone, Copy, Debug, PartialEq, Eq)]
pub struct UserScoreData {
    pub user: AccountId,
    pub total_score: u64,
    pub best_single_score: u64,
    pub pullups: u64,
    pub jumps: u64,
    pub submission_count: u64,
    pub last_submission_time: u64,
    pub first_submission_time: u64,
}

/// A snapshot copy of a leaderboard's aggregate counters.
#[derive(Clone, Copy, Debug, PartialEq, Eq)]
pub struct LeaderboardStats {
    pub total_participants: u64,
    pub total_submissions: u64,
}

/// The append-only notification that an accepted submission emits for
/// external observers.
#[derive(Clone, Copy, Debug, PartialEq, Eq)]
pub struct ScoreSubmitted {
    pub user: AccountId,
    pub score_added: u64,
    pub new_total_score: u64,
    pub new_best_score: u64,
    pub timestamp: u64,
}

/// A submission's score: the category values summed in widened 64-bit
/// arithmetic, so 32-bit inputs cannot overflow.
pub open spec fn combined_score(pullups: u32, jumps: u32) -> u64 {
    (pullups + jumps) as u64
}

/// Whether one more submission fits every 64-bit accumulator it touches.
pub open spec fn submission_fits(us: UserScore, lb: Leaderboard, pullups: u32, jumps: u32) -> bool {
    &&& us.total_score + combined_score(pullups, jumps) <= u64::MAX
    &&& us.pullups + pullups <= u64::MAX
    &&& us.jumps + jumps <= u64::MAX
    &&& us.submission_count + 1 <= u64::MAX
    &&& lb.total_submissions + 1 <= u64::MAX
    &&& (us.submission_count == 0 ==> lb.total_participants + 1 <= u64::MAX)
}

/// The user record that an accepted submission leaves behind. The new-user
/// test happens against the count before the update; the best single score
/// is a direct replacement comparison, not an accumulation.
pub open spec fn apply_submission(
    us: UserScore,
    user: AccountId,
    pullups: u32,
    jumps: u32,
    now: u64,
) -> UserScore {
    let score = combined_score(pullups, jumps);
    UserScore {
        user,
        total_score: (us.total_score + score) as u64,
        best_single_score: if score > us.best_single_score {
            score
        } else {
            us.best_single_score
        },
        pullups: (us.pullups + pullups) as u64,
        jumps: (us.jumps + jumps) as u64,
        submission_count: (us.submission_count + 1) as u64,
        last_submission_time: now,
        first_submission_time: if us.submission_count == 0 {
            now
        } else {
            us.first_submission_time
        },
    }
}

/// The leaderboard that an accepted submission leaves behind.
pub open spec fn board_after(lb: Leaderboard, new_user: bool) -> Leaderboard {
    Leaderboard {
        exercise_name: lb.exercise_name,
        total_participants: if new_user {
            (lb.total_participants + 1) as u64
        } else {
            lb.total_participants
        },
        total_submissions: (lb.total_submissions + 1) as u64,
    }
}

/// A user record that reflects a history of accepted submission scores:
/// the cumulative total is their exact sum, the best single score their
/// maximum, and the submission count their number.
pub open spec fn reflects(us: UserScore, scores: Seq<u64>) -> bool {
    &&& us.total_score == sum_of(scores)
    &&& us.best_single_score == max_of(scores)
    &&& us.submission_count == scores.len()
}

/// A record whose accumulators are zero reflects the empty history.
pub proof fn lemma_reflects_empty(us: UserScore)
    requires
        us.total_score == 0,
        us.best_single_score == 0,
        us.submission_count == 0,
    ensures
        reflects(us, Seq::<u64>::empty()),
{
}

/// Accounting law: a record that reflects a history still reflects it after
/// one more accepted submission is appended — so by induction over any
/// sequence of accepted submissions, the total equals the exact sum of the
/// scores, the best equals their maximum, and the count their number.
pub proof fn lemma_submission_accounting(
    us: UserScore,
    scores: Seq<u64>,
    user: AccountId,
    pullups: u32,
    jumps: u32,
    now: u64,
)
    requires
        reflects(us, scores),
        us.total_score + combined_score(pullups, jumps) <= u64::MAX,
        us.submission_count + 1 <= u64::MAX,
    ensures
        reflects(
            apply_submission(us, user, pullups, jumps, now),
            scores.push(combined_score(pullups, jumps)),
        ),
{
    lemma_sum_push(scores, combined_score(pullups, jumps));
    lemma_max_push(scores, combined_score(pullups, jumps));
}

/// The scores of a history of (pull-ups, jumps) submissions, each summed in
/// widened 64-bit arithmetic.
pub open spec fn widened(subs: Seq<(u32, u32)>) -> Seq<u64> {
    subs.map(|i: int, s: (u32, u32)| combined_score(s.0, s.1))
}

/// The record that a user holds after a whole history of accepted
/// submissions, each applied to the record the previous one left.
pub open spec fn replay(user: AccountId, subs: Seq<(u32, u32)>, now: u64) -> UserScore
    decreases subs.len(),
{
    if subs.len() == 0 {
        fresh_user(user)
    } else {
        apply_submission(
            replay(user, subs.drop_last(), now),
            user,
            subs.last().0,
            subs.last().1,
            now,
        )
    }
}

/// For every sequence of accepted submissions whose total fits the 64-bit
/// accumulator, the record they leave holds their exact sum as its total,
/// their maximum as its best single score, and their number as its count.
pub proof fn lemma_replay_reflects(user: AccountId, subs: Seq<(u32, u32)>, now: u64)
    requires
        sum_of(widened(subs)) <= u64::MAX,
        subs.len() <= u64::MAX,
    ensures
        reflects(replay(user, subs, now), widened(subs)),
    decreases subs.len(),
{
    if subs.len() == 0 {
        assert(widened(subs) =~= Seq::<u64>::empty());
        lemma_reflects_empty(fresh_user(user));
    } else {
        let pre = subs.drop_last();
        let last = subs.last();
        assert(widened(pre) =~= widened(subs).drop_last());
        assert(widened(subs) =~= widened(pre).push(combined_score(last.0, last.1)));
        lemma_sum_push(widened(pre), combined_score(last.0, last.1));
        lemma_replay_reflects(user, pre, now);
        lemma_submission_accounting(
            replay(user, pre, now),
            widened(pre),
            user,
            last.0,
            last.1,
            now,
        );
    }
}

/// The new-user transition fires exactly once in a record's lifetime: on the
/// first accepted submission it sets the first-submission time and counts a
/// participant; afterwards the submission count stays positive, so no later
/// submission changes either again.
pub proof fn lemma_new_user_once(
    us: UserScore,
    lb: Leaderboard,
    user: AccountId,
    pullups: u32,
    jumps: u32,
    now: u64,
)
    requires
        us.submission_count + 1 <= u64::MAX,
        us.submission_count == 0 ==> lb.total_participants + 1 <= u64::MAX,
    ensures
        apply_submission(us, user, pullups, jumps, now).submission_count > 0,
        us.submission_count == 0 ==> apply_submission(us, user, pullups, jumps, now)
            .first_submission_time == now && board_after(lb, us.submission_count == 0)
            .total_participants == lb.total_participants + 1,
        us.submission_count != 0 ==> apply_submission(us, user, pullups, jumps, now)
            .first_submission_time == us.first_submission_time && board_after(
            lb,
            us.submission_count == 0,
        ).total_participants == lb.total_participants,
{
}

/// The combined-exercise leaderboard program: competitions and per-user
/// score records, each addressed by derivation under this program's id.
pub struct LeaderboardProgram {
    program_id: AccountId,
    boards: Store<Leaderboard>,
    users: Store<UserScore>,
}

impl LeaderboardProgram {
    pub closed spec fn wf(&self) -> bool {
        &&& self.boards.wf()
        &&& self.users.wf()
        &&& forall|k: Seq<u8>| #[trigger] self.board_map().contains_key(k)
            ==> self.board_map()[k].fits()
    }

    pub closed spec fn board_map(&self) -> Map<Seq<u8>, Leaderboard> {
        self.boards@
    }

    pub closed spec fn user_map(&self) -> Map<Seq<u8>, UserScore> {
        self.users@
    }

    /// The program id under which user-score addresses are derived.
    pub closed spec fn program(&self) -> Seq<u8> {
        self.program_id@
    }

    pub fn new(program_id: AccountId) -> (r: LeaderboardProgram)
        ensures
            r.wf(),
            r.board_map() == Map::<Seq<u8>, Leaderboard>::empty(),
            r.user_map() == Map::<Seq<u8>, UserScore>::empty(),
            r.program() == program_id@,
    {
        LeaderboardProgram { program_id, boards: Store::new(), users: Store::new() }
    }

    /// One-time creation of a leaderboard at the given address, with both
    /// counters zero. Fails with `AlreadyExists` when the address is
    /// occupied and with `CapacityExceeded` when the name overflows the
    /// record's byte budget; failures change nothing.
    pub fn initialize(&mut self, board: AccountId, exercise_name: String) -> (r: Result<
        (),
        AgentError,
    >)
        requires
            old(self).wf(),
        ensures
            final(self).wf(),
            final(self).program() == old(self).program(),
            final(self).user_map() == old(self).user_map(),
            exercise_name@.len() > MAX_EXERCISE_NAME_LEN ==> r == Err::<(), AgentError>(
                AgentError::CapacityExceeded,
            ) && final(self).board_map() == old(self).board_map(),
            exercise_name@.len() <= MAX_EXERCISE_NAME_LEN
                && old(self).board_map().contains_key(board@) ==> r == Err::<(), AgentError>(
                AgentError::AlreadyExists,
            ) && final(self).board_map() == old(self).board_map(),
            exercise_name@.len() <= MAX_EXERCISE_NAME_LEN && !old(self).board_map().contains_key(
                board@,
            ) ==> r == Ok::<(), AgentError>(()) && final(self).board_map() == old(
                self,
            ).board_map().insert(
                board@,
                Leaderboard { exercise_name, total_participants: 0, total_submissions: 0 },
            ),
    {
        if exercise_name.as_str().unicode_len() > MAX_EXERCISE_NAME_LEN {
            return Err(AgentError::CapacityExceeded);
        }
        let lb = Leaderboard { exercise_name, total_participants: 0, total_submissions: 0 };
        let res = self.boards.create(board, lb);
        proof {
            assert forall|k: Seq<u8>| #[trigger] self.board_map().contains_key(k)
                implies self.board_map()[k].fits() by {
                if !old(self).board_map().contains_key(board@) && k == board@ {
                    assert(self.board_map()[k].exercise_name@.len() <= MAX_EXERCISE_NAME_LEN);
                } else {
                    assert(old(self).board_map().contains_key(k));
                    assert(self.board_map()[k] == old(self).board_map()[k]);
                    assert(old(self).board_map()[k].fits());
                }
            }
        }
        res
    }

    /// Resolves the address at which the caller's score record lives: the
    /// pure derivation from the namespace tag and the user's key under this
    /// program's id.
    pub fn user_score_address(&self, user: &AccountId) -> (r: Option<AccountId>)
        requires
            self.wf(),
        ensures
            match r {
                Some(a) => pda_of(user_score_seeds(user@), self.program()) matches Some(q) && a@
                    == q.0,
                None => pda_of(user_score_seeds(user@), self.program()) is None,
            },
    {
        let seeds = user_score_seed_vec(user);
        match derive_address(&seeds, &self.program_id) {
            Some(p) => Some(p.0),
            None => None,
        }
    }

    /// Explicit one-time initialization of the caller's score record, at the
    /// address derived from the caller's key: the combined-exercise policy
    /// requires it before the first submission. The record starts zeroed.
    pub fn init_user_score(&mut self, ctx: &OpContext) -> (r: Result<AccountId, AgentError>)
        requires
            old(self).wf(),
        ensures
            final(self).wf(),
            final(self).program() == old(self).program(),
            final(self).board_map() == old(self).board_map(),
            match pda_of(user_score_seeds(ctx.caller@), old(self).program()) {
                None => r == Err::<AccountId, AgentError>(AgentError::AddressUnavailable)
                    && final(self).user_map() == old(self).user_map(),
                Some(q) => {
                    let k = q.0;
                    if old(self).user_map().contains_key(k) {
                        r == Err::<AccountId, AgentError>(AgentError::AlreadyExists)
                            && final(self).user_map() == old(self).user_map()
                    } else {
                        &&& r matches Ok(addr) && addr@ == k
                        &&& final(self).user_map() == old(self).user_map().insert(
                            k,
                            fresh_user(ctx.caller),
                        )
                    }
                },
            },
    {
        let seeds = user_score_seed_vec(&ctx.caller);
        let derived = derive_address(&seeds, &self.program_id);
        let (addr, _bump) = match derived {
            Some(p) => p,
            None => {
                return Err(AgentError::AddressUnavailable);
            },
        };
        let res = self.users.create(addr, zeroed_user(ctx.caller));
        proof {
            assert forall|k: Seq<u8>| #[trigger] self.board_map().contains_key(k)
                implies self.board_map()[k].fits() by {
                assert(old(self).board_map().contains_key(k));
            }
        }
        match res {
            Ok(()) => Ok(addr),
            Err(e) => Err(e),
        }
    }

    /// Applies one score submission by the caller to the named leaderboard.
    /// The caller's record must pre-exist (this variant does not create it);
    /// otherwise, or when the leaderboard is absent, the operation fails
    /// with `NotFound`. A submission that would overflow any 64-bit
    /// accumulator is rejected whole with `CapacityExceeded`. Every failure
    /// changes nothing. Success updates the user record and the aggregate
    /// counters and returns the emitted notification.
    pub fn submit_score(&mut self, ctx: &OpContext, board: &AccountId, pullups: u32, jumps: u32) -> (r:
        Result<ScoreSubmitted, AgentError>)
        requires
            old(self).wf(),
            ctx.now >= 0,
        ensures
            final(self).wf(),
            final(self).program() == old(self).program(),
            match pda_of(user_score_seeds(ctx.caller@), old(self).program()) {
                None => r == Err::<ScoreSubmitted, AgentError>(AgentError::AddressUnavailable)
                    && final(self).user_map() == old(self).user_map()
                    && final(self).board_map() == old(self).board_map(),
                Some(q) => {
                    let k = q.0;
                    let now = ctx.now as u64;
                    if !old(self).board_map().contains_key(board@) {
                        r == Err::<ScoreSubmitted, AgentError>(AgentError::NotFound)
                            && final(self).user_map() == old(self).user_map()
                            && final(self).board_map() == old(self).board_map()
                    } else if !old(self).user_map().contains_key(k) {
                        r == Err::<ScoreSubmitted, AgentError>(AgentError::NotFound)
                            && final(self).user_map() == old(self).user_map()
                            && final(self).board_map() == old(self).board_map()
                    } else if !submission_fits(
                        old(self).user_map()[k],
                        old(self).board_map()[board@],
                        pullups,
                        jumps,
                    ) {
                        r == Err::<ScoreSubmitted, AgentError>(AgentError::CapacityExceeded)
                            && final(self).user_map() == old(self).user_map()
                            && final(self).board_map() == old(self).board_map()
                    } else {
                        let us2 = apply_submission(
                            old(self).user_map()[k],
                            ctx.caller,
                            pullups,
                            jumps,
                            now,
                        );
                        let lb2 = board_after(
                            old(self).board_map()[board@],
                            old(self).user_map()[k].submission_count == 0,
                        );
                        &&& r matches Ok(ev)
                        &&& final(self).user_map() == old(self).user_map().insert(k, us2)
                        &&& final(self).board_map() == old(self).board_map().insert(board@, lb2)
                        &&& ev.user == ctx.caller
                        &&& ev.score_added == combined_score(pullups, jumps)
                        &&& ev.new_total_score == us2.total_score
                        &&& ev.new_best_score == us2.best_single_score
                        &&& ev.timestamp == now
                    }
                },
            },
    {
        let seeds = user_score_seed_vec(&ctx.caller);
        let derived = derive_address(&seeds, &self.program_id);
        let (addr, _bump) = match derived {
            Some(p) => p,
            None => {
                return Err(AgentError::AddressUnavailable);
            },
        };
        if !self.boards.contains(board) {
            return Err(AgentError::NotFound);
        }
        let score: u64 = (pullups as u64) + (jumps as u64);
        let (fits, is_new) = {
            let us_ref = match self.users.load(&addr) {
                Some(u) => u,
                None => {
                    return Err(AgentError::NotFound);
                },
            };
            let lb_ref = match self.boards.load(board) {
                Some(b) => b,
                None => unreached(),
            };
            let fits = us_ref.total_score <= u64::MAX - score && us_ref.pullups <= u64::MAX - (
            pullups as u64) && us_ref.jumps <= u64::MAX - (jumps as u64)
                && us_ref.submission_count < u64::MAX && lb_ref.total_submissions < u64::MAX && (
            us_ref.submission_count != 0 || lb_ref.total_participants < u64::MAX);
            (fits, us_ref.submission_count == 0)
        };
        if !fits {
            return Err(AgentError::CapacityExceeded);
        }
        let now_ts: u64 = ctx.now as u64;
        let us = self.users.take(&addr);
        let us2 = UserScore {
            user: ctx.caller,
            total_score: us.total_score + score,
            best_single_score: if score > us.best_single_score {
                score
            } else {
                us.best_single_score
            },
            pullups: us.pullups + (pullups as u64),
            jumps: us.jumps + (jumps as u64),
            submission_count: us.submission_count + 1,
            last_submission_time: now_ts,
            first_submission_time: if is_new {
                now_ts
            } else {
                us.first_submission_time
            },
        };
        self.users.put(addr, us2);
        let lb = self.boards.take(board);
        let lb2 = Leaderboard {
            total_participants: if is_new {
                lb.total_participants + 1
            } else {
                lb.total_participants
            },
            total_submissions: lb.total_submissions + 1,
            ..lb
        };
        self.boards.put(*board, lb2);
        proof {
            assert(self.user_map() =~= old(self).user_map().insert(
                addr@,
                apply_submission(
                    old(self).user_map()[addr@],
                    ctx.caller,
                    pullups,
                    jumps,
                    ctx.now as u64,
                ),
            ));
            assert(self.board_map() =~= old(self).board_map().insert(
                board@,
                board_after(
                    old(self).board_map()[board@],
                    old(self).user_map()[addr@].submission_count == 0,
                ),
            ));
        }
        Ok(
            ScoreSubmitted {
                user: ctx.caller,
                score_added: score,
                new_total_score: us2.total_score,
                new_best_score: us2.best_single_score,
                timestamp: now_ts,
            },
        )
    }

    /// A snapshot of the score record at the given address, or `NotFound`.
    pub fn get_user_score(&self, record: &AccountId) -> (r: Result<UserScoreData, AgentError>)
        requires
            self.wf(),
        ensures
            match r {
                Ok(d) => self.user_map().contains_key(record@) && d == score_data(
                    self.user_map()[record@],
                ),
                Err(e) => e == AgentError::NotFound && !self.user_map().contains_key(record@),
            },
    {
        match self.users.load(record) {
            None => Err(AgentError::NotFound),
            Some(us) => Ok(
                UserScoreData {
                    user: us.user,
                    total_score: us.total_score,
                    best_single_score: us.best_single_score,
                    pullups: us.pullups,
                    jumps: us.jumps,
                    submission_count: us.submission_count,
                    last_submission_time: us.last_submission_time,
                    first_submission_time: us.first_submission_time,
                },
            ),
        }
    }

    /// A snapshot of the aggregate counters of the leaderboard at the given
    /// address, or `NotFound`.
    pub fn get_stats(&self, board: &AccountId) -> (r: Result<LeaderboardStats, AgentError>)
        requires
            self.wf(),
        ensures
            match r {
                Ok(s) => self.board_map().contains_key(board@) && s.total_participants == self
                    .board_map()[board@].total_participants && s.total_submissions == self
                    .board_map()[board@].total_submissions,
                Err(e) => e == AgentError::NotFound && !self.board_map().contains_key(board@),
            },
    {
        match self.boards.load(board) {
            None => Err(AgentError::NotFound),
            Some(lb) => Ok(
                LeaderboardStats {
                    total_participants: lb.total_participants,
                    total_submissions: lb.total_submissions,
                },
            ),
        }
    }
}

/// The zeroed record that explicit initialization creates for a user.
pub open spec fn fresh_user(user: AccountId) -> UserScore {
    UserScore {
        user,
        total_score: 0,
        best_single_score: 0,
        pullups: 0,
        jumps: 0,
        submission_count: 0,
        last_submission_time: 0,
        first_submission_time: 0,
    }
}

fn zeroed_user(user: AccountId) -> (r: UserScore)
    ensures
        r == fresh_user(user),
{
    UserScore {
        user,
        total_score: 0,
        best_single_score: 0,
        pullups: 0,
        jumps: 0,
        submission_count: 0,
        last_submission_time: 0,
        first_submission_time: 0,
    }
}

/// The snapshot that `get_user_score` returns for a record.
pub open spec fn score_data(us: UserScore) -> UserScoreData {
    UserScoreData {
        user: us.user,
        total_score: us.total_score,
        best_single_score: us.best_single_score,
        pullups: us.pullups,
        jumps: us.jumps,
        submission_count: us.submission_count,
        last_submission_time: us.last_submission_time,
        first_submission_time: us.first_submission_time,
    }
}

} // verus!
