use vstd::prelude::*;

use crate::ident::{AccountId, AgentError, OpContext};
use crate::pda::{derive_address, pda_of, scoped_user_score_seed_vec, scoped_user_score_seeds};
use crate::store::Store;
use crate::tally::{lemma_max_push, lemma_sum_push, max_of, sum_of};
use vstd::string::StringExecFns;

verus! {

/// One pull-ups competition: aggregate counters over every user. The
/// exercise name is fixed at initialization.
pub struct Leaderboard {
    pub exercise_name: String,
    pub total_participants: u64,
    pub total_submissions: u64,
}

/// One user's cumulative pull-ups standing, resident at the address derived
/// from the leaderboard's address and the user's key. Created at the user's
/// own expense on their first submission: this variant auto-creates.
#[derive(Clone, Copy, Debug)]
pub struct UserScore {
    pub user: AccountId,
    pub total_score: u64,
    pub best_single_score: u64,
    pub submission_count: u64,
    pub last_submission_time: u64,
    pub first_submission_time: u64,
}

/// A snapshot copy of one user record's public fields.
#[derive(Clone, Copy, Debug, PartialEq, Eq)]
pub struct UserScoreData {
    pub user: AccountId,
    pub total_score: u64,
    pub best_single_score: u64,
    pub submission_count: u64,
    pub last_submission_time: u64,
    pub first_submission_time: u64,
}

/// A snapshot copy of a leaderboard's public fields, exercise name included.
#[derive(Clone, Debug, PartialEq, Eq)]
pub struct LeaderboardStats {
    pub exercise_name: String,
    pub total_participants: u64,
    pub total_submissions: u64,
}

/// The append-only notification that an accepted submission emits for
/// external observers.
#[derive(Clone, Copy, Debug, PartialEq, Eq)]
pub struct ScoreSubmitted {
    pub user: AccountId,
    pub score_added: u64,
    pub new_total_score: u64,
    pub new_best_score: u64,
    pub timestamp: u64,
}

/// Whether one more submission fits every 64-bit accumulator it touches.
pub open spec fn submission_fits(us: UserScore, lb: Leaderboard, score: u32) -> bool {
    &&& us.total_score + score <= u64::MAX
    &&& us.submission_count + 1 <= u64::MAX
    &&& lb.total_submissions + 1 <= u64::MAX
    &&& (us.submission_count == 0 ==> lb.total_participants + 1 <= u64::MAX)
}

/// The user record that an accepted submission leaves behind. The score is
/// widened to 64 bits before it is accumulated; the new-user test happens
/// against the count before the update; the best single score is a direct
/// replacement comparison.
pub open spec fn apply_submission(us: UserScore, user: AccountId, score: u32, now: u64) -> UserScore {
    UserScore {
        user,
        total_score: (us.total_score + score) as u64,
        best_single_score: if score as u64 > us.best_single_score {
            score as u64
        } else {
            us.best_single_score
        },
        submission_count: (us.submission_count + 1) as u64,
        last_submission_time: now,
        first_submission_time: if us.submission_count == 0 {
            now
        } else {
            us.first_submission_time
        },
    }
}

/// The leaderboard that an accepted submission leaves behind.
pub open spec fn board_after(lb: Leaderboard, new_user: bool) -> Leaderboard {
    Leaderboard {
        exercise_name: lb.exercise_name,
        total_participants: if new_user {
            (lb.total_participants + 1) as u64
        } else {
            lb.total_participants
        },
        total_submissions: (lb.total_submissions + 1) as u64,
    }
}

/// The zeroed record that a user's first submission creates implicitly.
pub open spec fn fresh_user(user: AccountId) -> UserScore {
    UserScore {
        user,
        total_score: 0,
        best_single_score: 0,
        submission_count: 0,
        last_submission_time: 0,
        first_submission_time: 0,
    }
}

/// A user record that reflects a history of accepted submission scores:
/// the cumulative total is their exact sum, the best single score their
/// maximum, and the submission count their number.
pub open spec fn reflects(us: UserScore, scores: Seq<u64>) -> bool {
    &&& us.total_score == sum_of(scores)
    &&& us.best_single_score == max_of(scores)
    &&& us.submission_count == scores.len()
}

/// A fresh record reflects the empty history.
pub proof fn lemma_fresh_reflects_empty(user: AccountId)
    ensures
        reflects(fresh_user(user), Seq::<u64>::empty()),
{
}

/// Accounting law: a record that reflects a history still reflects it after
/// one more accepted submission is appended — so by induction over any
/// sequence of accepted submissions, the total equals the exact sum of the
/// scores, the best equals their maximum, and the count their number.
pub proof fn lemma_submission_accounting(
    us: UserScore,
    scores: Seq<u64>,
    user: AccountId,
    score: u32,
    now: u64,
)
    requires
        reflects(us, scores),
        us.total_score + score <= u64::MAX,
        us.submission_count + 1 <= u64::MAX,
    ensures
        reflects(apply_submission(us, user, score, now), scores.push(score as u64)),
{
    lemma_sum_push(scores, score as u64);
    lemma_max_push(scores, score as u64);
}

/// The scores of a history widened to the 64-bit accumulator type.
pub open spec fn widened(scores: Seq<u32>) -> Seq<u64> {
    scores.map(|i: int, s: u32| s as u64)
}

/// The record that a user holds after a whole history of accepted
/// submissions, each applied to the record the previous one left.
pub open spec fn replay(user: AccountId, scores: Seq<u32>, now: u64) -> UserScore
    decreases scores.len(),
{
    if scores.len() == 0 {
        fresh_user(user)
    } else {
        apply_submission(replay(user, scores.drop_last(), now), user, scores.last(), now)
    }
}

/// For every sequence of accepted submissions whose total fits the 64-bit
/// accumulator, the record they leave holds their exact sum as its total,
/// their maximum as its best single score, and their number as its count.
pub proof fn lemma_replay_reflects(user: AccountId, scores: Seq<u32>, now: u64)
    requires
        sum_of(widened(scores)) <= u64::MAX,
        scores.len() <= u64::MAX,
    ensures
        reflects(replay(user, scores, now), widened(scores)),
    decreases scores.len(),
{
    if scores.len() == 0 {
        assert(widened(scores) =~= Seq::<u64>::empty());
        lemma_fresh_reflects_empty(user);
    } else {
        let pre = scores.drop_last();
        let last = scores.last();
        assert(widened(pre) =~= widened(scores).drop_last());
        assert(widened(scores) =~= widened(pre).push(last as u64));
        lemma_sum_push(widened(pre), last as u64);
        lemma_replay_reflects(user, pre, now);
        lemma_submission_accounting(replay(user, pre, now), widened(pre), user, last, now);
    }
}

/// The new-user transition fires exactly once in a record's lifetime: on the
/// first accepted submission it sets the first-submission time and counts a
/// participant; afterwards the submission count stays positive, so no later
/// submission changes either again.
pub proof fn lemma_new_user_once(
    us: UserScore,
    lb: Leaderboard,
    user: AccountId,
    score: u32,
    now: u64,
)
    requires
        us.submission_count + 1 <= u64::MAX,
        us.submission_count == 0 ==> lb.total_participants + 1 <= u64::MAX,
    ensures
        apply_submission(us, user, score, now).submission_count > 0,
        us.submission_count == 0 ==> apply_submission(us, user, score, now).first_submission_time
            == now && board_after(lb, us.submission_count == 0).total_participants
            == lb.total_participants + 1,
        us.submission_count != 0 ==> apply_submission(us, user, score, now).first_submission_time
            == us.first_submission_time && board_after(lb, us.submission_count == 0)
            .total_participants == lb.total_participants,
{
}

/// The pull-ups leaderboard program: competitions and per-user records,
/// the latter addressed by derivation from the leaderboard's address and
/// the user's key under this program's id.
pub struct PullupsProgram {
    program_id: AccountId,
    boards: Store<Leaderboard>,
    users: Store<UserScore>,
}

impl PullupsProgram {
    pub closed spec fn wf(&self) -> bool {
        &&& self.boards.wf()
        &&& self.users.wf()
    }

    pub closed spec fn board_map(&self) -> Map<Seq<u8>, Leaderboard> {
        self.boards@
    }

    pub closed spec fn user_map(&self) -> Map<Seq<u8>, UserScore> {
        self.users@
    }

    /// The program id under which user-score addresses are derived.
    pub closed spec fn program(&self) -> Seq<u8> {
        self.program_id@
    }

    pub fn new(program_id: AccountId) -> (r: PullupsProgram)
        ensures
            r.wf(),
            r.board_map() == Map::<Seq<u8>, Leaderboard>::empty(),
            r.user_map() == Map::<Seq<u8>, UserScore>::empty(),
            r.program() == program_id@,
    {
        PullupsProgram { program_id, boards: Store::new(), users: Store::new() }
    }

    /// One-time creation of a pull-ups leaderboard at the given address:
    /// the exercise name is fixed to "pullups" and both counters start at
    /// zero. Fails with `AlreadyExists`, changing nothing, when the address
    /// is occupied.
    pub fn initialize(&mut self, board: AccountId) -> (r: Result<(), AgentError>)
        requires
            old(self).wf(),
        ensures
            final(self).wf(),
            final(self).program() == old(self).program(),
            final(self).user_map() == old(self).user_map(),
            old(self).board_map().contains_key(board@) ==> r == Err::<(), AgentError>(
                AgentError::AlreadyExists,
            ) && final(self).board_map() == old(self).board_map(),
            !old(self).board_map().contains_key(board@) ==> r == Ok::<(), AgentError>(())
                && final(self).board_map().contains_key(board@) && final(self).board_map()
                == old(self).board_map().insert(board@, final(self).board_map()[board@])
                && final(self).board_map()[board@].exercise_name@ == "pullups"@
                && final(self).board_map()[board@].total_participants == 0
                && final(self).board_map()[board@].total_submissions == 0,
    {
        let lb = Leaderboard {
            exercise_name: String::from_str("pullups"),
            total_participants: 0,
            total_submissions: 0,
        };
        self.boards.create(board, lb)
    }

    /// Resolves the address at which a user's score record for the given
    /// leaderboard lives: the pure derivation from the namespace tag, the
    /// leaderboard's address and the user's key under this program's id.
    pub fn user_score_address(&self, board: &AccountId, user: &AccountId) -> (r: Option<AccountId>)
        requires
            self.wf(),
        ensures
            match r {
                Some(a) => pda_of(scoped_user_score_seeds(board@, user@), self.program())
                    matches Some(q) && a@ == q.0,
                None => pda_of(scoped_user_score_seeds(board@, user@), self.program()) is None,
            },
    {
        let seeds = scoped_user_score_seed_vec(board, user);
        match derive_address(&seeds, &self.program_id) {
            Some(p) => Some(p.0),
            None => None,
        }
    }

    /// Applies one pull-ups submission by the caller to the named
    /// leaderboard, which fails with `NotFound`, changing nothing, when the
    /// leaderboard is absent. The caller's record is created zeroed on
    /// their first submission (this variant auto-creates). A submission that
    /// would overflow any 64-bit accumulator is rejected whole with
    /// `CapacityExceeded`, changing nothing. Success updates the user record
    /// and the aggregate counters and returns the emitted notification.
    pub fn submit_score(&mut self, ctx: &OpContext, board: &AccountId, score: u32) -> (r: Result<
        ScoreSubmitted,
        AgentError,
    >)
        requires
            old(self).wf(),
            ctx.now >= 0,
        ensures
            final(self).wf(),
            final(self).program() == old(self).program(),
            match pda_of(scoped_user_score_seeds(board@, ctx.caller@), old(self).program()) {
                None => r == Err::<ScoreSubmitted, AgentError>(AgentError::AddressUnavailable)
                    && final(self).user_map() == old(self).user_map()
                    && final(self).board_map() == old(self).board_map(),
                Some(q) => {
                    let k = q.0;
                    let now = ctx.now as u64;
                    let base = if old(self).user_map().contains_key(k) {
                        old(self).user_map()[k]
                    } else {
                        fresh_user(ctx.caller)
                    };
                    if !old(self).board_map().contains_key(board@) {
                        r == Err::<ScoreSubmitted, AgentError>(AgentError::NotFound)
                            && final(self).user_map() == old(self).user_map()
                            && final(self).board_map() == old(self).board_map()
                    } else if !submission_fits(base, old(self).board_map()[board@], score) {
                        r == Err::<ScoreSubmitted, AgentError>(AgentError::CapacityExceeded)
                            && final(self).user_map() == old(self).user_map()
                            && final(self).board_map() == old(self).board_map()
                    } else {
                        let us2 = apply_submission(base, ctx.caller, score, now);
                        let lb2 = board_after(
                            old(self).board_map()[board@],
                            base.submission_count == 0,
                        );
                        &&& r matches Ok(ev)
                        &&& final(self).user_map() == old(self).user_map().insert(k, us2)
                        &&& final(self).board_map() == old(self).board_map().insert(board@, lb2)
                        &&& ev.user == ctx.caller
                        &&& ev.score_added == score as u64
                        &&& ev.new_total_score == us2.total_score
                        &&& ev.new_best_score == us2.best_single_score
                        &&& ev.timestamp == now
                    }
                },
            },
    {
        let seeds = scoped_user_score_seed_vec(board, &ctx.caller);
        let derived = derive_address(&seeds, &self.program_id);
        let (addr, _bump) = match derived {
            Some(p) => p,
            None => {
                return Err(AgentError::AddressUnavailable);
            },
        };
        if !self.boards.contains(board) {
            return Err(AgentError::NotFound);
        }
        let score_u64: u64 = score as u64;
        let base: UserScore = match self.users.load(&addr) {
            Some(u) => *u,
            None => UserScore {
                user: ctx.caller,
                total_score: 0,
                best_single_score: 0,
                submission_count: 0,
                last_submission_time: 0,
                first_submission_time: 0,
            },
        };
        let fits = {
            let lb_ref = match self.boards.load(board) {
                Some(b) => b,
                None => unreached(),
            };
            base.total_score <= u64::MAX - score_u64 && base.submission_count < u64::MAX
                && lb_ref.total_submissions < u64::MAX && (base.submission_count != 0
                || lb_ref.total_participants < u64::MAX)
        };
        if !fits {
            return Err(AgentError::CapacityExceeded);
        }
        let is_new = base.submission_count == 0;
        let now_ts: u64 = ctx.now as u64;
        if self.users.contains(&addr) {
            let _prior = self.users.take(&addr);
        }
        let us2 = UserScore {
            user: ctx.caller,
            total_score: base.total_score + score_u64,
            best_single_score: if score_u64 > base.best_single_score {
                score_u64
            } else {
                base.best_single_score
            },
            submission_count: base.submission_count + 1,
            last_submission_time: now_ts,
            first_submission_time: if is_new {
                now_ts
            } else {
                base.first_submission_time
            },
        };
        self.users.put(addr, us2);
        let lb = self.boards.take(board);
        let lb2 = Leaderboard {
            total_participants: if is_new {
                lb.total_participants + 1
            } else {
                lb.total_participants
            },
            total_submissions: lb.total_submissions + 1,
            ..lb
        };
        self.boards.put(*board, lb2);
        proof {
            let base_spec = if old(self).user_map().contains_key(addr@) {
                old(self).user_map()[addr@]
            } else {
                fresh_user(ctx.caller)
            };
            assert(self.user_map() =~= old(self).user_map().insert(
                addr@,
                apply_submission(base_spec, ctx.caller, score, ctx.now as u64),
            ));
            assert(self.board_map() =~= old(self).board_map().insert(
                board@,
                board_after(old(self).board_map()[board@], base_spec.submission_count == 0),
            ));
        }
        Ok(
            ScoreSubmitted {
                user: ctx.caller,
                score_added: score_u64,
                new_total_score: us2.total_score,
                new_best_score: us2.best_single_score,
                timestamp: now_ts,
            },
        )
    }

    /// A snapshot of the score record at the given address, or `NotFound`.
    pub fn get_user_score(&self, record: &AccountId) -> (r: Result<UserScoreData, AgentError>)
        requires
            self.wf(),
        ensures
            match r {
                Ok(d) => self.user_map().contains_key(record@) && d == score_data(
                    self.user_map()[record@],
                ),
                Err(e) => e == AgentError::NotFound && !self.user_map().contains_key(record@),
            },
    {
        match self.users.load(record) {
            None => Err(AgentError::NotFound),
            Some(us) => Ok(
                UserScoreData {
                    user: us.user,
                    total_score: us.total_score,
                    best_single_score: us.best_single_score,
                    submission_count: us.submission_count,
                    last_submission_time: us.last_submission_time,
                    first_submission_time: us.first_submission_time,
                },
            ),
        }
    }

    /// A snapshot of the leaderboard at the given address, exercise name
    /// included, or `NotFound`.
    pub fn get_stats(&self, board: &AccountId) -> (r: Result<LeaderboardStats, AgentError>)
        requires
            self.wf(),
        ensures
            match r {
                Ok(s) => self.board_map().contains_key(board@) && s.exercise_name@ == self
                    .board_map()[board@].exercise_name@ && s.total_participants == self
                    .board_map()[board@].total_participants && s.total_submissions == self
                    .board_map()[board@].total_submissions,
                Err(e) => e == AgentError::NotFound && !self.board_map().contains_key(board@),
            },
    {
        match self.boards.load(board) {
            None => Err(AgentError::NotFound),
            Some(lb) => Ok(
                LeaderboardStats {
                    exercise_name: lb.exercise_name.clone(),
                    total_participants: lb.total_participants,
                    total_submissions: lb.total_submissions,
                },
            ),
        }
    }
}

/// The snapshot that `get_user_score` returns for a record.
pub open spec fn score_data(us: UserScore) -> UserScoreData {
    UserScoreData {
        user: us.user,
        total_score: us.total_score,
        best_single_score: us.best_single_score,
        submission_count: us.submission_count,
        last_submission_time: us.last_submission_time,
        first_submission_time: us.first_submission_time,
    }
}

} // verus!
