use sim_checkpoint::error::Error;
use sim_checkpoint::naming::checkpoint_file_name;
use sim_checkpoint::schedule::RecurringTask;
use sim_checkpoint::state::State;

fn sample_state(parameters: &str) -> State {
    State::new(
        "sod_shock_tube".to_string(),
        parameters.to_string(),
        vec![1.5f64.to_bits(), (-0.25f64).to_bits(), 0.0f64.to_bits()],
        2.75f64.to_bits(),
        42,
    )
}

#[test]
fn new_tracker_is_zeroed() {
    let t = RecurringTask::new();
    assert_eq!(t.number, 0);
    assert_eq!(f64::from_bits(t.next_time), 0.0);
}

#[test]
fn next_counts_and_sets_due_time() {
    let mut t = RecurringTask::new();
    t.next(0.5f64.to_bits());
    assert_eq!(t.number, 1);
    assert_eq!(f64::from_bits(t.next_time), 0.5);
    t.next(1.25f64.to_bits());
    assert_eq!(t.number, 2);
    assert_eq!(f64::from_bits(t.next_time), 1.25);
}

#[test]
fn tracker_advanced_n_times_counts_n() {
    let mut t = RecurringTask::new();
    let mut due = 0.0f64;
    for _ in 0..10 {
        due += 0.5;
        t.next(due.to_bits());
    }
    assert_eq!(t.number, 10);
    assert_eq!(f64::from_bits(t.next_time), 5.0);
}

#[test]
fn file_name_pads_to_four_digits() {
    assert_eq!(checkpoint_file_name("out", 0), "out/chkpt.0000.sf");
    assert_eq!(checkpoint_file_name("out", 7), "out/chkpt.0007.sf");
    assert_eq!(checkpoint_file_name("a/b", 42), "a/b/chkpt.0042.sf");
    assert_eq!(checkpoint_file_name("out", 9999), "out/chkpt.9999.sf");
}

#[test]
fn file_name_widens_past_four_digits() {
    assert_eq!(checkpoint_file_name("out", 10000), "out/chkpt.10000.sf");
    assert_eq!(checkpoint_file_name("run", 123456), "run/chkpt.123456.sf");
    assert_eq!(
        checkpoint_file_name("d", u64::MAX),
        "d/chkpt.18446744073709551615.sf"
    );
}

#[test]
fn file_name_of_empty_directory() {
    assert_eq!(checkpoint_file_name("", 3), "/chkpt.0003.sf");
}

#[test]
fn write_checkpoint_numbers_from_zero() {
    let mut s = sample_state("a");
    let first = s.write_checkpoint(1.0f64.to_bits(), "chk");
    assert_eq!(first, "chk/chkpt.0000.sf");
    assert_eq!(s.checkpoint.number, 1);
    let second = s.write_checkpoint(2.0f64.to_bits(), "chk");
    assert_eq!(second, "chk/chkpt.0001.sf");
    assert_eq!(s.checkpoint.number, 2);
    assert_eq!(f64::from_bits(s.checkpoint.next_time), 2.0);
}

#[test]
fn kth_write_names_k_minus_one() {
    let mut s = sample_state("a");
    for k in 1..=12u64 {
        let name = s.write_checkpoint((k as f64).to_bits(), "out");
        assert_eq!(name, format!("out/chkpt.{:04}.sf", k - 1));
    }
    assert_eq!(s.checkpoint.number, 12);
}

#[test]
fn write_checkpoint_keeps_other_fields() {
    let mut s = sample_state("p");
    let _ = s.write_checkpoint(4.0f64.to_bits(), "out");
    assert_eq!(s.setup_name, "sod_shock_tube");
    assert_eq!(s.parameters, "p");
    assert_eq!(s.primitive, vec![1.5f64.to_bits(), (-0.25f64).to_bits(), 0.0f64.to_bits()]);
    assert_eq!(f64::from_bits(s.time), 2.75);
    assert_eq!(s.iteration, 42);
}

#[test]
fn write_checkpoint_directory_may_vary() {
    let mut s = sample_state("p");
    assert_eq!(s.write_checkpoint(1.0f64.to_bits(), "x"), "x/chkpt.0000.sf");
    assert_eq!(s.write_checkpoint(2.0f64.to_bits(), "y/z"), "y/z/chkpt.0001.sf");
}

#[test]
fn parameters_chain_on_each_resume() {
    let once = State::from_checkpoint(Ok(sample_state("a")), "b").unwrap();
    assert_eq!(once.parameters, "a:b");
    let twice = State::from_checkpoint(Ok(once), "c").unwrap();
    assert_eq!(twice.parameters, "a:b:c");
}

#[test]
fn resume_with_empty_parameters() {
    let s = State::from_checkpoint(Ok(sample_state("")), "").unwrap();
    assert_eq!(s.parameters, ":");
}

#[test]
fn resume_keeps_every_other_field() {
    let mut stored = sample_state("a");
    let _ = stored.write_checkpoint(0.125f64.to_bits(), "out");
    let restored = State::from_checkpoint(Ok(stored.clone()), "b").unwrap();
    assert_eq!(restored.setup_name, stored.setup_name);
    assert_eq!(restored.primitive, stored.primitive);
    assert_eq!(restored.time, stored.time);
    assert_eq!(restored.iteration, stored.iteration);
    assert_eq!(restored.checkpoint, stored.checkpoint);
    assert_eq!(restored.checkpoint.number, 1);
}

#[test]
fn resume_continues_numbering() {
    let mut s = sample_state("a");
    let _ = s.write_checkpoint(1.0f64.to_bits(), "out");
    let _ = s.write_checkpoint(2.0f64.to_bits(), "out");
    let mut resumed = State::from_checkpoint(Ok(s), "b").unwrap();
    assert_eq!(resumed.write_checkpoint(3.0f64.to_bits(), "out"), "out/chkpt.0002.sf");
}

#[test]
fn decode_failure_is_invalid_checkpoint() {
    let r = State::from_checkpoint(Err("unexpected end of file".to_string()), "b");
    match r {
        Err(Error::InvalidCheckpoint(m)) => assert_eq!(m, "unexpected end of file"),
        _ => panic!("expected InvalidCheckpoint"),
    }
}

#[test]
fn new_state_has_fresh_tracker() {
    let s = sample_state("x");
    assert_eq!(s.checkpoint, RecurringTask::new());
    assert_eq!(s.checkpoint.number, 0);
}
