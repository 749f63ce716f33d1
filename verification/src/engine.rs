//! The undo/redo engine: the run state loaded from the two files, the
//! selection of the next eligible operation, and the step a run must
//! perform.
//!
//! The engine itself performs no side effect. It computes, from the
//! history records and the ledger, which operation is next and what the
//! caller must do: reset the working tree to a given identifier, and —
//! only after that reset has succeeded — append one given line to the
//! ledger. Appending strictly after the effect keeps a crash between
//! the two recoverable from the real repository state, and a failed
//! reset leaves the ledger untouched.

use vstd::prelude::*;

use crate::codec::{
    decoded_ledger, decoded_record, encoded_line, ledger_lines_ok, ledger_view,
    parse_action_lines,
};
use crate::error::DropstitchError;
use crate::parse::{parse_ref_lines, parsed_records, refs_view};
use crate::records::{
    copy_range, lines_view, ref_eq, Action, ActionPerformed, ActionPerformedV, Ref, RefV,
};

verus! {

/// The ledger holds a record of `action` performed against `r`.
pub open spec fn ledger_contains(log: Seq<ActionPerformedV>, action: Action, r: RefV) -> bool {
    exists|k: int|
        0 <= k < log.len() && log[k] == (ActionPerformedV { action, reference: r })
}

/// The next operation to undo: scanning the history from most recent
/// (the last record) to oldest, the first record the ledger does not
/// yet mark as undone; `None` once every record is undone or the
/// history is empty.
pub open spec fn undo_target(refs: Seq<RefV>, log: Seq<ActionPerformedV>) -> Option<RefV>
    decreases refs.len(),
{
    if refs.len() == 0 {
        None
    } else if !ledger_contains(log, Action::Undo, refs.last()) {
        Some(refs.last())
    } else {
        undo_target(refs.drop_last(), log)
    }
}

/// The scan behind [`redo_target`]: walks `log` from most recent to
/// oldest looking for an undo record whose operation the full ledger
/// does not mark as redone.
pub open spec fn redo_scan(log: Seq<ActionPerformedV>, full: Seq<ActionPerformedV>) -> Option<
    RefV,
>
    decreases log.len(),
{
    if log.len() == 0 {
        None
    } else if log.last().action == Action::Undo && !ledger_contains(
        full,
        Action::Redo,
        log.last().reference,
    ) {
        Some(log.last().reference)
    } else {
        redo_scan(log.drop_last(), full)
    }
}

/// The next operation to redo: the most recently undone operation
/// that the ledger does not mark as redone.
pub open spec fn redo_target(log: Seq<ActionPerformedV>) -> Option<RefV> {
    redo_scan(log, log)
}

/// The identifier a run resets the working tree to: undoing goes back
/// to the state before the operation, redoing forward to the state
/// after it.
pub open spec fn reset_hash(action: Action, r: RefV) -> Seq<u8> {
    match action {
        Action::Undo => r.from_hash,
        Action::Redo => r.to_hash,
    }
}

/// The step a run must perform: reset the working tree to
/// `reset_to`, and, only once that has succeeded, append
/// `ledger_line` (plus a line feed) to the ledger file.
#[derive(Debug)]
pub struct ActionStep {
    pub reset_to: Vec<u8>,
    pub ledger_line: Vec<u8>,
}

/// The state of one run: the operation records of the branch history
/// in chronological order, and the ledger of actions already
/// performed, both loaded in full at startup.
#[derive(Debug)]
pub struct Reflog {
    pub refs: Vec<Ref>,
    pub action_log: Vec<ActionPerformed>,
}

impl Reflog {
    /// Every held record is well-formed.
    pub open spec fn wf(self) -> bool {
        &&& forall|i: int| 0 <= i < self.refs@.len() ==> (#[trigger] self.refs@[i]).wf()
        &&& forall|i: int|
            0 <= i < self.action_log@.len() ==> (#[trigger] self.action_log@[i]).wf()
    }

    /// The models of the held operation records, in history order.
    pub open spec fn refs_model(self) -> Seq<RefV> {
        refs_view(self.refs@)
    }

    /// The models of the held ledger records, in file order.
    pub open spec fn log_model(self) -> Seq<ActionPerformedV> {
        ledger_view(self.action_log@)
    }

    /// Builds the run state from the lines of the branch history log
    /// and of the ledger file. Every history line is parsed, with
    /// non-matching lines skipped; every ledger line must decode, and
    /// a single corrupt line fails the whole load.
    pub fn init(ref_lines: &Vec<Vec<u8>>, ledger_lines: &Vec<Vec<u8>>) -> (r: Result<
        Reflog,
        DropstitchError,
    >)
        ensures
            r is Ok <==> ledger_lines_ok(lines_view(ledger_lines@)),
            r matches Ok(reflog) ==> reflog.wf() && reflog.refs_model() == parsed_records(
                lines_view(ref_lines@),
            ) && reflog.log_model() == decoded_ledger(lines_view(ledger_lines@)),
            r matches Err(e) ==> e matches DropstitchError::Other(bad) && (exists|i: int|
                0 <= i < ledger_lines@.len() && decoded_record(
                    #[trigger] lines_view(ledger_lines@)[i],
                ) is None && bad@ == lines_view(ledger_lines@)[i]),
    {
        let refs = parse_ref_lines(ref_lines);
        let action_log = match parse_action_lines(ledger_lines) {
            Ok(log) => log,
            Err(e) => {
                return Err(e);
            },
        };
        Ok(Reflog { refs, action_log })
    }

    /// The ledger holds a record of `action` performed against
    /// `reference`: the structural membership test.
    pub fn contains(&self, action: Action, reference: &Ref) -> (r: bool)
        ensures
            r == ledger_contains(self.log_model(), action, reference@),
    {
        let mut i: usize = 0;
        while i < self.action_log.len()
            invariant
                0 <= i <= self.action_log@.len(),
                forall|k: int|
                    0 <= k < i ==> (#[trigger] self.action_log@[k])@ != (ActionPerformedV {
                        action,
                        reference: reference@,
                    }),
            decreases self.action_log@.len() - i,
        {
            let entry = &self.action_log[i];
            if entry.action == action && ref_eq(&entry.reference, reference) {
                proof {
                    assert(entry@ =~= (ActionPerformedV { action, reference: reference@ }));
                    assert(ledger_contains(self.log_model(), action, reference@)) by {
                        assert(self.log_model()[i as int] == (ActionPerformedV {
                            action,
                            reference: reference@,
                        }));
                    }
                }
                return true;
            }
            proof {
                if entry@ == (ActionPerformedV { action, reference: reference@ }) {
                    assert(entry.action == action && entry.reference@ == reference@);
                }
            }
            i = i + 1;
        }
        proof {
            assert(forall|k: int|
                0 <= k < self.log_model().len() ==> #[trigger] self.log_model()[k]
                    == self.action_log@[k]@);
        }
        false
    }

    /// The next operation to undo, per [`undo_target`]: the most
    /// recent history record not yet marked undone in the ledger.
    pub fn get_prev(&self) -> (r: Option<Ref>)
        ensures
            r matches Some(rec) ==> undo_target(self.refs_model(), self.log_model()) == Some(
                rec@,
            ),
            r is None ==> undo_target(self.refs_model(), self.log_model()) is None,
    {
        let ghost all = self.refs_model();
        let ghost log = self.log_model();
        let mut i: usize = self.refs.len();
        proof {
            assert(all.subrange(0, i as int) =~= all);
        }
        while i > 0
            invariant
                0 <= i <= self.refs@.len(),
                all == self.refs_model(),
                log == self.log_model(),
                undo_target(all, log) == undo_target(all.subrange(0, i as int), log),
            decreases i,
        {
            let candidate = &self.refs[i - 1];
            let ghost prefix = all.subrange(0, i as int);
            proof {
                assert(prefix.last() == all[i - 1]);
                assert(all[i - 1] == candidate@);
                assert(prefix.drop_last() =~= all.subrange(0, i - 1));
            }
            if !self.contains(Action::Undo, candidate) {
                return Some(candidate.duplicate());
            }
            i = i - 1;
        }
        proof {
            assert(all.subrange(0, 0) =~= Seq::<RefV>::empty());
        }
        None
    }

    /// The next operation to redo, per [`redo_target`]: the most
    /// recently undone operation not yet marked redone in the ledger.
    pub fn get_next(&self) -> (r: Option<Ref>)
        ensures
            r matches Some(rec) ==> redo_target(self.log_model()) == Some(rec@),
            r is None ==> redo_target(self.log_model()) is None,
    {
        let ghost log = self.log_model();
        let mut i: usize = self.action_log.len();
        proof {
            assert(log.subrange(0, i as int) =~= log);
        }
        while i > 0
            invariant
                0 <= i <= self.action_log@.len(),
                log == self.log_model(),
                redo_target(log) == redo_scan(log.subrange(0, i as int), log),
            decreases i,
        {
            let entry = &self.action_log[i - 1];
            let ghost prefix = log.subrange(0, i as int);
            proof {
                assert(prefix.last() == log[i - 1]);
                assert(log[i - 1] == entry@);
                assert(prefix.drop_last() =~= log.subrange(0, i - 1));
            }
            if entry.action == Action::Undo && !self.contains(Action::Redo, &entry.reference) {
                return Some(entry.reference.duplicate());
            }
            i = i - 1;
        }
        proof {
            assert(log.subrange(0, 0) =~= Seq::<ActionPerformedV>::empty());
        }
        None
    }

    /// Turns a selected target into the step the run must perform,
    /// or the expected nothing-left failure when there is none. The
    /// ledger line records the action against the target, encoded for
    /// appending once the reset has succeeded.
    pub fn plan_action(&self, action: Action, target: Option<Ref>) -> (r: Result<
        ActionStep,
        DropstitchError,
    >)
        ensures
            target is None ==> r == Err::<ActionStep, DropstitchError>(
                DropstitchError::NothingTo(action),
            ),
            target matches Some(t) ==> r matches Ok(step) && step.reset_to@ == reset_hash(
                action,
                t@,
            ) && step.ledger_line@ == encoded_line(
                ActionPerformedV { action, reference: t@ },
            ),
    {
        match target {
            None => Err(DropstitchError::NothingTo(action)),
            Some(reference) => {
                let reset_to = match action {
                    Action::Undo => copy_range(&reference.from_hash, 0, reference.from_hash.len()),
                    Action::Redo => copy_range(&reference.to_hash, 0, reference.to_hash.len()),
                };
                let record = ActionPerformed { action, reference };
                let ledger_line = record.encode();
                proof {
                    assert(record.reference.from_hash@.subrange(
                        0,
                        record.reference.from_hash@.len() as int,
                    ) =~= record.reference.from_hash@);
                    assert(record.reference.to_hash@.subrange(
                        0,
                        record.reference.to_hash@.len() as int,
                    ) =~= record.reference.to_hash@);
                }
                Ok(ActionStep { reset_to, ledger_line })
            },
        }
    }

    /// The undo step of this run: selects the target per
    /// [`undo_target`] and plans the reset to its pre-operation
    /// identifier; fails with the nothing-to-undo condition when
    /// every operation is already undone.
    pub fn undo_previous(&self) -> (r: Result<ActionStep, DropstitchError>)
        ensures
            ({
                match undo_target(self.refs_model(), self.log_model()) {
                    None => r == Err::<ActionStep, DropstitchError>(
                        DropstitchError::NothingTo(Action::Undo),
                    ),
                    Some(t) => r matches Ok(step) && step.reset_to@ == t.from_hash
                        && step.ledger_line@ == encoded_line(
                        ActionPerformedV { action: Action::Undo, reference: t },
                    ),
                }
            }),
    {
        let target = self.get_prev();
        self.plan_action(Action::Undo, target)
    }

    /// The redo step of this run: selects the target per
    /// [`redo_target`] and plans the reset to its post-operation
    /// identifier; fails with the nothing-to-redo condition when no
    /// undone operation is left to re-apply.
    pub fn redo_next(&self) -> (r: Result<ActionStep, DropstitchError>)
        ensures
            ({
                match redo_target(self.log_model()) {
                    None => r == Err::<ActionStep, DropstitchError>(
                        DropstitchError::NothingTo(Action::Redo),
                    ),
                    Some(t) => r matches Ok(step) && step.reset_to@ == t.to_hash
                        && step.ledger_line@ == encoded_line(
                        ActionPerformedV { action: Action::Redo, reference: t },
                    ),
                }
            }),
    {
        let target = self.get_next();
        self.plan_action(Action::Redo, target)
    }
}

/// The subcommands of a run: undo the last operation, redo the next
/// one, or list what is available (the default).
#[derive(Clone, Copy, Debug, PartialEq, Eq, Structural)]
pub enum Command {
    Z,
    Y,
    Ls,
}

impl Default for Command {
    fn default() -> (c: Command)
        ensures
            c == Command::Ls,
    {
        Command::Ls
    }
}

/// The tool itself: dispatches one invocation against a loaded run
/// state.
pub struct Dropstitch;

impl Dropstitch {
    /// Decides one invocation: the step to perform for the chosen
    /// command, `None` when the command only lists (listing is
    /// presentation, left to the caller), or the failure to report.
    pub fn run(reflog: &Reflog, command: Command) -> (r: Result<
        Option<ActionStep>,
        DropstitchError,
    >)
        ensures
            ({
                match command {
                    Command::Z => match undo_target(reflog.refs_model(), reflog.log_model()) {
                        None => r == Err::<Option<ActionStep>, DropstitchError>(
                            DropstitchError::NothingTo(Action::Undo),
                        ),
                        Some(t) => r matches Ok(step_opt) && step_opt matches Some(step)
                            && step.reset_to@ == t.from_hash && step.ledger_line@
                            == encoded_line(
                            ActionPerformedV { action: Action::Undo, reference: t },
                        ),
                    },
                    Command::Y => match redo_target(reflog.log_model()) {
                        None => r == Err::<Option<ActionStep>, DropstitchError>(
                            DropstitchError::NothingTo(Action::Redo),
                        ),
                        Some(t) => r matches Ok(step_opt) && step_opt matches Some(step)
                            && step.reset_to@ == t.to_hash && step.ledger_line@ == encoded_line(
                            ActionPerformedV { action: Action::Redo, reference: t },
                        ),
                    },
                    Command::Ls => r matches Ok(step_opt) && step_opt is None,
                }
            }),
    {
        match command {
            Command::Z => match reflog.undo_previous() {
                Ok(step) => Ok(Some(step)),
                Err(e) => Err(e),
            },
            Command::Y => match reflog.redo_next() {
                Ok(step) => Ok(Some(step)),
                Err(e) => Err(e),
            },
            Command::Ls => Ok(None),
        }
    }
}

/// What the undo selection returns is sound: a selected record comes
/// from the history and is not yet marked undone, and nothing is
/// selected exactly when the history is empty or every record is
/// already undone — the nothing-to-undo condition.
pub proof fn lemma_undo_target_characterized(refs: Seq<RefV>, log: Seq<ActionPerformedV>)
    ensures
        ({
            match undo_target(refs, log) {
                Some(t) => refs.contains(t) && !ledger_contains(log, Action::Undo, t),
                None => forall|i: int|
                    0 <= i < refs.len() ==> ledger_contains(log, Action::Undo, #[trigger] refs[i]),
            }
        }),
    decreases refs.len(),
{
    if refs.len() > 0 {
        if ledger_contains(log, Action::Undo, refs.last()) {
            lemma_undo_target_characterized(refs.drop_last(), log);
            match undo_target(refs.drop_last(), log) {
                Some(t) => {
                    assert(refs.drop_last().contains(t));
                    let w = choose|k: int|
                        0 <= k < refs.drop_last().len() && refs.drop_last()[k] == t;
                    assert(refs[w] == t);
                },
                None => {
                    assert(forall|i: int|
                        0 <= i < refs.len() - 1 ==> refs.drop_last()[i] == #[trigger] refs[i]);
                },
            }
        } else {
            assert(refs[refs.len() - 1] == refs.last());
            assert(refs.contains(refs.last()));
        }
    }
}

/// What the scan behind the redo selection returns is sound: a
/// selected operation has an undo record in the scanned part and no
/// redo record in the full ledger, and nothing is selected exactly
/// when every undone operation of the scanned part is already redone.
proof fn lemma_redo_scan_characterized(log: Seq<ActionPerformedV>, full: Seq<ActionPerformedV>)
    ensures
        ({
            match redo_scan(log, full) {
                Some(t) => ledger_contains(log, Action::Undo, t) && !ledger_contains(
                    full,
                    Action::Redo,
                    t,
                ),
                None => forall|k: int|
                    0 <= k < log.len() && (#[trigger] log[k]).action == Action::Undo
                        ==> ledger_contains(full, Action::Redo, log[k].reference),
            }
        }),
    decreases log.len(),
{
    if log.len() > 0 {
        let last = log.last();
        if last.action == Action::Undo && !ledger_contains(full, Action::Redo, last.reference) {
            assert(log[log.len() - 1] == (ActionPerformedV {
                action: Action::Undo,
                reference: last.reference,
            }));
        } else {
            lemma_redo_scan_characterized(log.drop_last(), full);
            assert(forall|k: int|
                0 <= k < log.len() - 1 ==> log.drop_last()[k] == #[trigger] log[k]);
            match redo_scan(log.drop_last(), full) {
                Some(t) => {
                    let w = choose|k: int|
                        0 <= k < log.drop_last().len() && log.drop_last()[k]
                            == (ActionPerformedV { action: Action::Undo, reference: t });
                    assert(log[w] == (ActionPerformedV {
                        action: Action::Undo,
                        reference: t,
                    }));
                },
                None => {},
            }
        }
    }
}

/// What the redo selection returns is sound: a selected operation was
/// undone and is not yet redone, and nothing is selected exactly when
/// every undone operation is already redone — the nothing-to-redo
/// condition.
pub proof fn lemma_redo_target_characterized(log: Seq<ActionPerformedV>)
    ensures
        ({
            match redo_target(log) {
                Some(t) => ledger_contains(log, Action::Undo, t) && !ledger_contains(
                    log,
                    Action::Redo,
                    t,
                ),
                None => forall|k: int|
                    0 <= k < log.len() && (#[trigger] log[k]).action == Action::Undo
                        ==> ledger_contains(log, Action::Redo, log[k].reference),
            }
        }),
{
    lemma_redo_scan_characterized(log, log);
}

/// Once a record of undoing `r` stands anywhere in the ledger, the
/// undo selection never picks `r` again, whatever else the ledger
/// holds and however the history reads.
pub proof fn lemma_undo_idempotent(refs: Seq<RefV>, log: Seq<ActionPerformedV>, r: RefV)
    requires
        ledger_contains(log, Action::Undo, r),
    ensures
        undo_target(refs, log) != Some(r),
    decreases refs.len(),
{
    if refs.len() > 0 {
        if ledger_contains(log, Action::Undo, refs.last()) {
            lemma_undo_idempotent(refs.drop_last(), log, r);
        }
    }
}

/// The selection order over a three-record history appended
/// chronologically: with an empty ledger the most recent record is
/// picked; each undo moves the pick one record back; once all three
/// are undone nothing is left.
pub proof fn lemma_selection_order(r1: RefV, r2: RefV, r3: RefV)
    requires
        r1 != r2,
        r1 != r3,
        r2 != r3,
    ensures
        undo_target(seq![r1, r2, r3], Seq::<ActionPerformedV>::empty()) == Some(r3),
        undo_target(
            seq![r1, r2, r3],
            seq![ActionPerformedV { action: Action::Undo, reference: r3 }],
        ) == Some(r2),
        undo_target(
            seq![r1, r2, r3],
            seq![
                ActionPerformedV { action: Action::Undo, reference: r3 },
                ActionPerformedV { action: Action::Undo, reference: r2 },
            ],
        ) == Some(r1),
        undo_target(
            seq![r1, r2, r3],
            seq![
                ActionPerformedV { action: Action::Undo, reference: r3 },
                ActionPerformedV { action: Action::Undo, reference: r2 },
                ActionPerformedV { action: Action::Undo, reference: r1 },
            ],
        ) is None,
{
    let refs = seq![r1, r2, r3];
    let u3 = ActionPerformedV { action: Action::Undo, reference: r3 };
    let u2 = ActionPerformedV { action: Action::Undo, reference: r2 };
    let u1 = ActionPerformedV { action: Action::Undo, reference: r1 };
    assert(refs.drop_last() =~= seq![r1, r2]);
    assert(seq![r1, r2].drop_last() =~= seq![r1]);
    assert(seq![r1].drop_last() =~= Seq::<RefV>::empty());

    let log0 = Seq::<ActionPerformedV>::empty();
    assert(!ledger_contains(log0, Action::Undo, r3));

    let log1 = seq![u3];
    assert(ledger_contains(log1, Action::Undo, r3)) by {
        assert(log1[0] == u3);
    }
    assert(!ledger_contains(log1, Action::Undo, r2));
    assert(undo_target(refs, log1) == undo_target(seq![r1, r2], log1));
    assert(undo_target(seq![r1, r2], log1) == Some(r2));

    let log2 = seq![u3, u2];
    assert(ledger_contains(log2, Action::Undo, r3)) by {
        assert(log2[0] == u3);
    }
    assert(ledger_contains(log2, Action::Undo, r2)) by {
        assert(log2[1] == u2);
    }
    assert(!ledger_contains(log2, Action::Undo, r1));
    assert(undo_target(refs, log2) == undo_target(seq![r1, r2], log2));
    assert(undo_target(seq![r1, r2], log2) == undo_target(seq![r1], log2));
    assert(undo_target(seq![r1], log2) == Some(r1));

    let log3 = seq![u3, u2, u1];
    assert(ledger_contains(log3, Action::Undo, r3)) by {
        assert(log3[0] == u3);
    }
    assert(ledger_contains(log3, Action::Undo, r2)) by {
        assert(log3[1] == u2);
    }
    assert(ledger_contains(log3, Action::Undo, r1)) by {
        assert(log3[2] == u1);
    }
    assert(undo_target(refs, log3) == undo_target(seq![r1, r2], log3));
    assert(undo_target(seq![r1, r2], log3) == undo_target(seq![r1], log3));
    assert(undo_target(seq![r1], log3) == undo_target(Seq::<RefV>::empty(), log3));
}

} // verus!
