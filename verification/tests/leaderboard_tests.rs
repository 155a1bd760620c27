use solana_registry::ident::{AccountId, AgentError, OpContext};
use solana_registry::leaderboard::LeaderboardProgram;

fn key(b: u8) -> AccountId {
    AccountId::new([b; 32])
}

fn ctx(caller: AccountId, now: i64) -> OpContext {
    OpContext { caller, now }
}

#[test]
fn combined_submission_scenario() {
    let mut prog = LeaderboardProgram::new(key(3));
    let board = key(10);
    assert_eq!(prog.initialize(board, "combined".to_string()), Ok(()));

    let user = key(4);
    let rec = prog
        .init_user_score(&ctx(user, 50))
        .expect("record initialization succeeds");

    let ev = prog
        .submit_score(&ctx(user, 100), &board, 10, 20)
        .expect("submission succeeds");
    assert_eq!(ev.user, user);
    assert_eq!(ev.score_added, 30);
    assert_eq!(ev.new_total_score, 30);
    assert_eq!(ev.new_best_score, 30);
    assert_eq!(ev.timestamp, 100);

    let d = prog.get_user_score(&rec).expect("record resident");
    assert_eq!(d.user, user);
    assert_eq!(d.total_score, 30);
    assert_eq!(d.best_single_score, 30);
    assert_eq!(d.pullups, 10);
    assert_eq!(d.jumps, 20);
    assert_eq!(d.submission_count, 1);
    assert_eq!(d.first_submission_time, 100);
    assert_eq!(d.last_submission_time, 100);

    let ev2 = prog
        .submit_score(&ctx(user, 200), &board, 5, 0)
        .expect("submission succeeds");
    assert_eq!(ev2.score_added, 5);
    assert_eq!(ev2.new_total_score, 35);
    assert_eq!(ev2.new_best_score, 30);

    let d2 = prog.get_user_score(&rec).expect("record resident");
    assert_eq!(d2.total_score, 35);
    assert_eq!(d2.best_single_score, 30);
    assert_eq!(d2.pullups, 15);
    assert_eq!(d2.jumps, 20);
    assert_eq!(d2.submission_count, 2);
    assert_eq!(d2.first_submission_time, 100);
    assert_eq!(d2.last_submission_time, 200);

    let s = prog.get_stats(&board).expect("leaderboard resident");
    assert_eq!(s.total_participants, 1);
    assert_eq!(s.total_submissions, 2);
}

#[test]
fn combined_submission_requires_prior_record() {
    let mut prog = LeaderboardProgram::new(key(3));
    let board = key(10);
    assert_eq!(prog.initialize(board, "combined".to_string()), Ok(()));
    // This variant does not auto-create: the user never initialized a record.
    assert_eq!(
        prog.submit_score(&ctx(key(4), 100), &board, 10, 20),
        Err(AgentError::NotFound)
    );
    let s = prog.get_stats(&board).unwrap();
    assert_eq!(s.total_participants, 0);
    assert_eq!(s.total_submissions, 0);
}

#[test]
fn combined_submission_to_absent_board_fails() {
    let mut prog = LeaderboardProgram::new(key(3));
    let user = key(4);
    prog.init_user_score(&ctx(user, 0)).unwrap();
    assert_eq!(
        prog.submit_score(&ctx(user, 1), &key(10), 1, 1),
        Err(AgentError::NotFound)
    );
}

#[test]
fn combined_user_record_initializes_once() {
    let mut prog = LeaderboardProgram::new(key(3));
    let user = key(4);
    let rec = prog.init_user_score(&ctx(user, 0)).unwrap();
    assert_eq!(
        prog.init_user_score(&ctx(user, 5)),
        Err(AgentError::AlreadyExists)
    );
    let d = prog.get_user_score(&rec).unwrap();
    assert_eq!(d.submission_count, 0);
    assert_eq!(d.total_score, 0);
}

#[test]
fn combined_board_initializes_once() {
    let mut prog = LeaderboardProgram::new(key(3));
    let board = key(10);
    assert_eq!(prog.initialize(board, "first".to_string()), Ok(()));
    assert_eq!(
        prog.initialize(board, "second".to_string()),
        Err(AgentError::AlreadyExists)
    );
}

#[test]
fn combined_board_name_budget_is_enforced() {
    let mut prog = LeaderboardProgram::new(key(3));
    let long_name = "x".repeat(65);
    assert_eq!(
        prog.initialize(key(10), long_name),
        Err(AgentError::CapacityExceeded)
    );
    assert_eq!(prog.get_stats(&key(10)), Err(AgentError::NotFound));
}

#[test]
fn combined_reads_on_absent_records_fail() {
    let prog = LeaderboardProgram::new(key(3));
    assert!(prog.get_user_score(&key(5)).is_err());
    assert_eq!(prog.get_stats(&key(6)), Err(AgentError::NotFound));
}

#[test]
fn combined_record_address_is_derived_not_copied() {
    let mut prog = LeaderboardProgram::new(key(3));
    let user = key(4);
    let rec = prog.init_user_score(&ctx(user, 0)).unwrap();
    let resolved = prog.user_score_address(&user).expect("derivation succeeds");
    assert_eq!(resolved, rec);
    // One-way derivation: the record address is not the user's key.
    assert_ne!(rec.to_bytes(), [4u8; 32]);
}

#[test]
fn combined_user_record_spans_boards() {
    // In this variant a user's record is derived from the user's key alone,
    // so one record accumulates across leaderboards, and the new-user
    // transition fires only on the very first accepted submission.
    let mut prog = LeaderboardProgram::new(key(3));
    let b1 = key(10);
    let b2 = key(11);
    prog.initialize(b1, "first".to_string()).unwrap();
    prog.initialize(b2, "second".to_string()).unwrap();
    let user = key(4);
    let rec = prog.init_user_score(&ctx(user, 0)).unwrap();

    prog.submit_score(&ctx(user, 1), &b1, 10, 0).unwrap();
    prog.submit_score(&ctx(user, 2), &b2, 0, 5).unwrap();

    let s1 = prog.get_stats(&b1).unwrap();
    assert_eq!(s1.total_participants, 1);
    assert_eq!(s1.total_submissions, 1);
    let s2 = prog.get_stats(&b2).unwrap();
    assert_eq!(s2.total_participants, 0);
    assert_eq!(s2.total_submissions, 1);

    let d = prog.get_user_score(&rec).unwrap();
    assert_eq!(d.total_score, 15);
    assert_eq!(d.submission_count, 2);
}
