use solana_registry::ident::{AccountId, AgentError, OpContext};
use solana_registry::pullups::PullupsProgram;

fn key(b: u8) -> AccountId {
    AccountId::new([b; 32])
}

fn ctx(caller: AccountId, now: i64) -> OpContext {
    OpContext { caller, now }
}

#[test]
fn pullups_three_submission_scenario() {
    let mut prog = PullupsProgram::new(key(6));
    let board = key(11);
    assert_eq!(prog.initialize(board), Ok(()));

    let user = key(4);
    prog.submit_score(&ctx(user, 10), &board, 10)
        .expect("submission succeeds");
    prog.submit_score(&ctx(user, 20), &board, 15)
        .expect("submission succeeds");
    prog.submit_score(&ctx(user, 30), &board, 5)
        .expect("submission succeeds");

    let rec = prog
        .user_score_address(&board, &user)
        .expect("derivation succeeds");
    let d = prog.get_user_score(&rec).expect("record resident");
    assert_eq!(d.user, user);
    assert_eq!(d.total_score, 30);
    assert_eq!(d.best_single_score, 15);
    assert_eq!(d.submission_count, 3);
    assert_eq!(d.first_submission_time, 10);
    assert_eq!(d.last_submission_time, 30);

    let s = prog.get_stats(&board).expect("leaderboard resident");
    assert_eq!(s.exercise_name, "pullups");
    assert_eq!(s.total_participants, 1);
    assert_eq!(s.total_submissions, 3);
}

#[test]
fn pullups_first_submission_creates_record() {
    let mut prog = PullupsProgram::new(key(6));
    let board = key(11);
    prog.initialize(board).unwrap();
    let user = key(4);
    // No prior initialization of the user's record: this variant
    // auto-creates on the first submission.
    let ev = prog
        .submit_score(&ctx(user, 7), &board, 12)
        .expect("submission succeeds");
    assert_eq!(ev.user, user);
    assert_eq!(ev.score_added, 12);
    assert_eq!(ev.new_total_score, 12);
    assert_eq!(ev.new_best_score, 12);
    assert_eq!(ev.timestamp, 7);

    let rec = prog.user_score_address(&board, &user).unwrap();
    let d = prog.get_user_score(&rec).unwrap();
    assert_eq!(d.submission_count, 1);
    assert_eq!(d.first_submission_time, 7);
}

#[test]
fn pullups_submission_to_absent_board_fails() {
    let mut prog = PullupsProgram::new(key(6));
    assert_eq!(
        prog.submit_score(&ctx(key(4), 1), &key(11), 3),
        Err(AgentError::NotFound)
    );
}

#[test]
fn pullups_board_initializes_once() {
    let mut prog = PullupsProgram::new(key(6));
    let board = key(11);
    assert_eq!(prog.initialize(board), Ok(()));
    assert_eq!(prog.initialize(board), Err(AgentError::AlreadyExists));
    let s = prog.get_stats(&board).unwrap();
    assert_eq!(s.total_submissions, 0);
}

#[test]
fn pullups_counts_each_participant_once() {
    let mut prog = PullupsProgram::new(key(6));
    let board = key(11);
    prog.initialize(board).unwrap();
    let u1 = key(4);
    let u2 = key(5);
    prog.submit_score(&ctx(u1, 1), &board, 8).unwrap();
    prog.submit_score(&ctx(u2, 2), &board, 9).unwrap();
    prog.submit_score(&ctx(u1, 3), &board, 2).unwrap();
    let s = prog.get_stats(&board).unwrap();
    assert_eq!(s.total_participants, 2);
    assert_eq!(s.total_submissions, 3);
}

#[test]
fn pullups_reads_on_absent_records_fail() {
    let prog = PullupsProgram::new(key(6));
    assert!(prog.get_user_score(&key(5)).is_err());
    assert!(prog.get_stats(&key(11)).is_err());
}

#[test]
fn pullups_record_addresses_fold_in_the_board() {
    let prog = PullupsProgram::new(key(6));
    let user = key(4);
    let a1 = prog.user_score_address(&key(11), &user).unwrap();
    let a2 = prog.user_score_address(&key(12), &user).unwrap();
    let a1_again = prog.user_score_address(&key(11), &user).unwrap();
    // Deterministic per input tuple, distinct across parent boards,
    // and not a copy of either input key.
    assert_eq!(a1, a1_again);
    assert_ne!(a1, a2);
    assert_ne!(a1.to_bytes(), [4u8; 32]);
    assert_ne!(a1.to_bytes(), [11u8; 32]);
}
