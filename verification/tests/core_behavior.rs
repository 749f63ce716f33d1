use dropstitch::codec::parse_action_lines;
use dropstitch::engine::{Command, Dropstitch, Reflog};
use dropstitch::error::DropstitchError;
use dropstitch::guard::{check_repository, ledger_rel_path, parse_branch_output, reflog_rel_path};
use dropstitch::records::{action_performed_eq, Action, ActionPerformed, Operation, Ref};

fn hash(c: u8) -> Vec<u8> {
    vec![c; 40]
}

fn amend_line(from: u8, to: u8, message: &str) -> Vec<u8> {
    let mut line = hash(from);
    line.push(b' ');
    line.extend_from_slice(&hash(to));
    line.extend_from_slice(b" commit (amend): ");
    line.extend_from_slice(message.as_bytes());
    line
}

fn record(action: Action, from: u8, to: u8) -> ActionPerformed {
    ActionPerformed {
        action,
        reference: Ref { from_hash: hash(from), to_hash: hash(to), operation: Operation::Amend },
    }
}

fn encoded(action: &str, from: u8, to: u8) -> Vec<u8> {
    format!(
        "{{\"action\":\"{}\",\"reference\":{{\"from_hash\":\"{}\",\"to_hash\":\"{}\",\"operation\":\"amend\"}}}}",
        action,
        String::from_utf8(hash(from)).unwrap(),
        String::from_utf8(hash(to)).unwrap(),
    )
    .into_bytes()
}

#[test]
fn parse_skips_unrelated_lines() {
    let cases: Vec<Vec<u8>> = vec![
        b"".to_vec(),
        b"checkout: moving from main to feature".to_vec(),
        b"not a hash at all".to_vec(),
        hash(b'a'),
    ];
    for line in cases {
        assert!(Ref::from_line(&line).is_none());
    }
}

#[test]
fn parse_skips_line_with_unrecognized_operation() {
    let mut line = hash(b'a');
    line.push(b' ');
    line.extend_from_slice(&hash(b'b'));
    line.extend_from_slice(b" commit (rebase): onto main");
    assert!(Ref::from_line(&line).is_none());
}

#[test]
fn parse_skips_line_with_malformed_hash() {
    let mut line = hash(b'a');
    line[7] = b'!';
    line.push(b' ');
    line.extend_from_slice(&hash(b'b'));
    line.extend_from_slice(b" commit (amend): message");
    assert!(Ref::from_line(&line).is_none());
}

#[test]
fn parse_skips_token_without_surrounding_text() {
    // The token must have at least one byte of free text before it.
    let mut line = hash(b'a');
    line.push(b' ');
    line.extend_from_slice(&hash(b'b'));
    line.extend_from_slice(b" (amend): message");
    assert!(Ref::from_line(&line).is_none());
    // ... and at least one byte after it.
    let mut line = hash(b'a');
    line.push(b' ');
    line.extend_from_slice(&hash(b'b'));
    line.extend_from_slice(b" commit (amend): ");
    assert!(Ref::from_line(&line).is_none());
}

#[test]
fn parse_recognizes_amend_line() {
    let line = amend_line(b'a', b'b', "tidy up the docs");
    let rec = Ref::from_line(&line).expect("line should parse");
    assert_eq!(rec.from_hash, hash(b'a'));
    assert_eq!(rec.to_hash, hash(b'b'));
    assert_eq!(rec.operation, Operation::Amend);
}

#[test]
fn parse_recognizes_smallest_matching_line() {
    // One byte of free text before the token and one after it.
    let mut line = hash(b'a');
    line.push(b' ');
    line.extend_from_slice(&hash(b'B'));
    line.extend_from_slice(b" x(amend): y");
    assert_eq!(line.len(), 93);
    let rec = Ref::from_line(&line).expect("line should parse");
    assert_eq!(rec.from_hash, hash(b'a'));
    assert_eq!(rec.to_hash, hash(b'B'));
}

#[test]
fn parse_recognizes_token_anywhere_in_free_text() {
    let line = amend_line(b'1', b'2', "kept the old (amend): note");
    let rec = Ref::from_line(&line).expect("line should parse");
    assert_eq!(rec.from_hash, hash(b'1'));
    assert_eq!(rec.to_hash, hash(b'2'));
}

#[test]
fn encode_produces_one_exact_line() {
    let rec = record(Action::Undo, b'a', b'b');
    assert_eq!(rec.encode(), encoded("undo", b'a', b'b'));
    let rec = record(Action::Redo, b'c', b'd');
    assert_eq!(rec.encode(), encoded("redo", b'c', b'd'));
}

#[test]
fn codec_round_trips_every_record_shape() {
    for action in [Action::Undo, Action::Redo] {
        let rec = record(action, b'0', b'f');
        let back = ActionPerformed::from_line(&rec.encode()).expect("round trip should decode");
        assert_eq!(back, rec);
    }
}

#[test]
fn decode_rejects_corrupt_lines() {
    let cases: Vec<Vec<u8>> = vec![
        b"".to_vec(),
        b"{}".to_vec(),
        b"not json at all".to_vec(),
        // Same fields in another order: not the persisted form.
        format!(
            "{{\"reference\":{{\"from_hash\":\"{0}\",\"to_hash\":\"{0}\",\"operation\":\"amend\"}},\"action\":\"undo\"}}",
            String::from_utf8(hash(b'a')).unwrap(),
        )
        .into_bytes(),
    ];
    for line in cases {
        match ActionPerformed::from_line(&line) {
            Err(DropstitchError::Other(payload)) => assert_eq!(payload, line),
            other => panic!("expected a corrupt-line error, got {:?}", other),
        }
    }
}

#[test]
fn decode_rejects_tampered_action_token() {
    let mut line = encoded("undo", b'a', b'b');
    line[11] = b'x';
    assert!(ActionPerformed::from_line(&line).is_err());
}

#[test]
fn ledger_load_fails_on_one_corrupt_line() {
    let good = record(Action::Undo, b'a', b'b').encode();
    let bad = b"garbage".to_vec();
    let lines = vec![good.clone(), bad.clone()];
    match parse_action_lines(&lines) {
        Err(DropstitchError::Other(payload)) => assert_eq!(payload, bad),
        other => panic!("expected a corrupt-line error, got {:?}", other),
    }
    let lines = vec![good.clone()];
    let log = parse_action_lines(&lines).expect("a clean ledger should load");
    assert_eq!(log, vec![record(Action::Undo, b'a', b'b')]);
}

#[test]
fn selection_walks_most_recent_first() {
    let history = vec![
        amend_line(b'1', b'2', "first"),
        amend_line(b'3', b'4', "second"),
        amend_line(b'5', b'6', "third"),
    ];
    let no_ledger: Vec<Vec<u8>> = vec![];

    let reflog = Reflog::init(&history, &no_ledger).unwrap();
    assert_eq!(reflog.get_prev().unwrap().from_hash, hash(b'5'));

    let ledger = vec![record(Action::Undo, b'5', b'6').encode()];
    let reflog = Reflog::init(&history, &ledger).unwrap();
    assert_eq!(reflog.get_prev().unwrap().from_hash, hash(b'3'));

    let ledger = vec![
        record(Action::Undo, b'5', b'6').encode(),
        record(Action::Undo, b'3', b'4').encode(),
    ];
    let reflog = Reflog::init(&history, &ledger).unwrap();
    assert_eq!(reflog.get_prev().unwrap().from_hash, hash(b'1'));

    let ledger = vec![
        record(Action::Undo, b'5', b'6').encode(),
        record(Action::Undo, b'3', b'4').encode(),
        record(Action::Undo, b'1', b'2').encode(),
    ];
    let reflog = Reflog::init(&history, &ledger).unwrap();
    assert!(reflog.get_prev().is_none());
}

#[test]
fn undone_record_is_never_selected_again() {
    let history = vec![amend_line(b'a', b'b', "amended")];
    let ledger = vec![record(Action::Undo, b'a', b'b').encode()];
    let reflog = Reflog::init(&history, &ledger).unwrap();
    assert!(reflog.get_prev().is_none());
    assert!(reflog.contains(
        Action::Undo,
        &Ref { from_hash: hash(b'a'), to_hash: hash(b'b'), operation: Operation::Amend },
    ));
}

#[test]
fn undo_plans_reset_then_append() {
    // A commit was amended from "foo" to "bar": undoing resets to the
    // pre-amend identifier and records exactly one ledger line.
    let history = vec![amend_line(b'a', b'b', "foo to bar")];
    let no_ledger: Vec<Vec<u8>> = vec![];
    let reflog = Reflog::init(&history, &no_ledger).unwrap();
    let step = Dropstitch::run(&reflog, Command::Z)
        .expect("undo should be planned")
        .expect("an undo command plans a step");
    assert_eq!(step.reset_to, hash(b'a'));
    assert_eq!(step.ledger_line, encoded("undo", b'a', b'b'));
}

#[test]
fn second_undo_finds_nothing_left() {
    let history = vec![amend_line(b'a', b'b', "foo to bar")];
    let ledger = vec![record(Action::Undo, b'a', b'b').encode()];
    let reflog = Reflog::init(&history, &ledger).unwrap();
    match Dropstitch::run(&reflog, Command::Z) {
        Err(DropstitchError::NothingTo(Action::Undo)) => {},
        other => panic!("expected nothing-to-undo, got {:?}", other),
    }
    assert_eq!(DropstitchError::NothingTo(Action::Undo).into_exit_code(), 2);
}

#[test]
fn redo_replays_the_most_recent_undo() {
    let history = vec![amend_line(b'a', b'b', "foo to bar")];
    let ledger = vec![record(Action::Undo, b'a', b'b').encode()];
    let reflog = Reflog::init(&history, &ledger).unwrap();
    let step = Dropstitch::run(&reflog, Command::Y)
        .expect("redo should be planned")
        .expect("a redo command plans a step");
    assert_eq!(step.reset_to, hash(b'b'));
    assert_eq!(step.ledger_line, encoded("redo", b'a', b'b'));
}

#[test]
fn redone_record_is_not_redone_again() {
    let history = vec![amend_line(b'a', b'b', "foo to bar")];
    let ledger = vec![
        record(Action::Undo, b'a', b'b').encode(),
        record(Action::Redo, b'a', b'b').encode(),
    ];
    let reflog = Reflog::init(&history, &ledger).unwrap();
    match Dropstitch::run(&reflog, Command::Y) {
        Err(DropstitchError::NothingTo(Action::Redo)) => {},
        other => panic!("expected nothing-to-redo, got {:?}", other),
    }
}

#[test]
fn listing_performs_no_step() {
    let history: Vec<Vec<u8>> = vec![];
    let no_ledger: Vec<Vec<u8>> = vec![];
    let reflog = Reflog::init(&history, &no_ledger).unwrap();
    assert!(Dropstitch::run(&reflog, Command::Ls).unwrap().is_none());
}

#[test]
fn init_fails_on_corrupt_ledger() {
    let history = vec![amend_line(b'a', b'b', "fine")];
    let ledger = vec![b"half a reco".to_vec()];
    match Reflog::init(&history, &ledger) {
        Err(DropstitchError::Other(payload)) => assert_eq!(payload, b"half a reco".to_vec()),
        other => panic!("expected a corrupt-ledger error, got {:?}", other),
    }
}

#[test]
fn guard_rejects_detached_head() {
    let output = b"  main\n* (HEAD detached at 1a2b3c4)\n  feature\n".to_vec();
    match parse_branch_output(&output) {
        Err(DropstitchError::DetachedHead) => {},
        other => panic!("expected detached-head, got {:?}", other),
    }
}

#[test]
fn guard_rejects_rebase_in_progress() {
    let output = b"* (no branch, rebasing feature)\n  main\n".to_vec();
    match parse_branch_output(&output) {
        Err(DropstitchError::OperationInProgress(op)) => assert_eq!(op, b"rebasing".to_vec()),
        other => panic!("expected operation-in-progress, got {:?}", other),
    }
}

#[test]
fn guard_rejects_bisect_in_progress() {
    let output = b"* (no branch, bisect started on main)\n".to_vec();
    match parse_branch_output(&output) {
        Err(DropstitchError::OperationInProgress(op)) => assert_eq!(op, b"bisect".to_vec()),
        other => panic!("expected operation-in-progress, got {:?}", other),
    }
}

#[test]
fn guard_reads_the_marked_branch_name() {
    let output = b"  main\n* feature\n  other\n".to_vec();
    assert_eq!(parse_branch_output(&output).unwrap(), b"feature".to_vec());
}

#[test]
fn guard_fails_without_a_marked_line() {
    let output = b"  main\n  feature\n".to_vec();
    match parse_branch_output(&output) {
        Err(DropstitchError::Other(payload)) => assert_eq!(payload, output),
        other => panic!("expected an unexpected-environment error, got {:?}", other),
    }
}

#[test]
fn guard_fails_on_empty_marked_line() {
    let output = b"* \n  main\n".to_vec();
    match parse_branch_output(&output) {
        Err(DropstitchError::Other(payload)) => assert_eq!(payload, output),
        other => panic!("expected an unexpected-environment error, got {:?}", other),
    }
}

#[test]
fn guard_requires_the_metadata_marker() {
    assert!(check_repository(true, true).is_ok());
    for (exists, is_file) in [(false, false), (false, true), (true, false)] {
        match check_repository(exists, is_file) {
            Err(DropstitchError::NotAGitRepository) => {},
            other => panic!("expected not-a-repository, got {:?}", other),
        }
    }
}

#[test]
fn exit_codes_split_preconditions_from_internal_failures() {
    assert_eq!(DropstitchError::NotAGitRepository.into_exit_code(), 2);
    assert_eq!(DropstitchError::NothingTo(Action::Undo).into_exit_code(), 2);
    assert_eq!(DropstitchError::NothingTo(Action::Redo).into_exit_code(), 2);
    assert_eq!(DropstitchError::DetachedHead.into_exit_code(), 2);
    assert_eq!(
        DropstitchError::OperationInProgress(b"rebasing".to_vec()).into_exit_code(),
        2,
    );
    assert_eq!(DropstitchError::IoError(b"broken pipe".to_vec()).into_exit_code(), 1);
    assert_eq!(DropstitchError::Other(b"oddity".to_vec()).into_exit_code(), 1);
}

#[test]
fn branch_files_live_under_fixed_directories() {
    assert_eq!(
        ledger_rel_path(&b"main".to_vec()),
        b".git/.dropstitch/main".to_vec(),
    );
    assert_eq!(
        reflog_rel_path(&b"feature".to_vec()),
        b".git/logs/refs/heads/feature".to_vec(),
    );
}

#[test]
fn record_equality_is_structural() {
    let a = record(Action::Undo, b'a', b'b');
    let b = record(Action::Undo, b'a', b'b');
    assert!(action_performed_eq(&a, &b));
    assert!(!action_performed_eq(&a, &record(Action::Redo, b'a', b'b')));
    assert!(!action_performed_eq(&a, &record(Action::Undo, b'a', b'c')));
}

#[test]
fn default_command_is_listing() {
    assert_eq!(Command::default(), Command::Ls);
}
