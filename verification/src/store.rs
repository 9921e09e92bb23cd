//! The index store's side of an update: which command is asked for, and the
//! order of the steps by which a batch of entries is appended to the
//! catalogue.
//!
//! The store itself is the caller's. A `Rebuild` names the next step; the
//! caller performs it on the store and reports how it went. A row that the
//! store refuses is skipped and the batch goes on; only a step on which the
//! whole batch rests ends it early.

use crate::entry::{entry_views, PathEntry, PathEntryView};
use crate::text::same_text;
use vstd::prelude::*;

verus! {

/// Why an update of the store came to nothing.
#[derive(Clone, Copy, Debug, PartialEq, Eq, Structural)]
pub enum StoreError {
    /// The directory that holds the store could not be made.
    Open,
    /// The catalogue table could not be looked up or created.
    Schema,
    /// The transaction of the batch could not be begun or committed.
    Transaction,
}

/// A batch that was committed: how many rows were tried, and how many of them
/// the store took.
#[derive(Clone, Copy, Debug, PartialEq, Eq, Structural)]
pub struct BatchOutcome {
    pub attempted: usize,
    pub persisted: usize,
}

/// One step for the caller to perform on the store.
#[derive(Clone, Copy, Debug, PartialEq, Eq, Structural)]
pub enum StoreAction {
    /// Make the directory that holds the store, unless it is there.
    EnsureParentDirectory,
    /// Look the catalogue table up by its name.
    CheckSchema,
    /// Create the catalogue table.
    CreateSchema,
    /// Begin the transaction of the batch.
    BeginTransaction,
    /// Insert the entry at this index of the batch.
    InsertRow(usize),
    /// Commit the transaction.
    Commit,
}

/// How a step went.
#[derive(Clone, Copy, Debug, PartialEq, Eq, Structural)]
pub enum StoreReply {
    /// The step was performed.
    Done,
    /// The step was performed, and what it looked for is not there. Only the
    /// lookup of the table can go this way; said of any other step it counts
    /// as a failure.
    Absent,
    /// The step failed.
    Failed,
}

/// Where an update stands.
#[derive(Clone, Copy, Debug, PartialEq, Eq, Structural)]
pub enum Phase {
    EnsuringDirectory,
    CheckingSchema,
    CreatingSchema,
    Beginning,
    Inserting,
    Committing,
    Committed,
    Failed(StoreError),
}

/// The state of an update: its phase, the size of the batch, the number of
/// rows tried so far, and the number of those that the store took.
pub struct RebuildView {
    pub phase: Phase,
    pub total: nat,
    pub next: nat,
    pub persisted: nat,
}

impl RebuildView {
    /// The state in which every update begins.
    pub open spec fn initial(total: nat) -> RebuildView {
        RebuildView { phase: Phase::EnsuringDirectory, total, next: 0, persisted: 0 }
    }

    /// No more rows were taken than tried, no more tried than the batch
    /// holds; no row is tried before the transaction has begun, and the
    /// commit comes when all were tried. The batch is one that memory can
    /// hold.
    pub open spec fn well_formed(self) -> bool {
        &&& self.persisted <= self.next <= self.total <= usize::MAX
        &&& match self.phase {
            Phase::EnsuringDirectory | Phase::CheckingSchema | Phase::CreatingSchema
            | Phase::Beginning => self.next == 0,
            Phase::Inserting => self.next < self.total,
            Phase::Committing | Phase::Committed => self.next == self.total,
            Phase::Failed(_) => true,
        }
    }

    /// The step that the update waits for; none when it has ended.
    pub open spec fn pending(self) -> Option<StoreAction> {
        match self.phase {
            Phase::EnsuringDirectory => Some(StoreAction::EnsureParentDirectory),
            Phase::CheckingSchema => Some(StoreAction::CheckSchema),
            Phase::CreatingSchema => Some(StoreAction::CreateSchema),
            Phase::Beginning => Some(StoreAction::BeginTransaction),
            Phase::Inserting => Some(StoreAction::InsertRow(self.next as usize)),
            Phase::Committing => Some(StoreAction::Commit),
            Phase::Committed | Phase::Failed(_) => None,
        }
    }

    /// How the update ended; none while it is under way.
    pub open spec fn outcome(self) -> Option<Result<BatchOutcome, StoreError>> {
        match self.phase {
            Phase::Committed => Some(
                Ok(
                    BatchOutcome {
                        attempted: self.next as usize,
                        persisted: self.persisted as usize,
                    },
                ),
            ),
            Phase::Failed(error) => Some(Err(error)),
            _ => None,
        }
    }

    /// The phase that follows the rows tried so far: the next row, or the
    /// commit when none is left.
    pub open spec fn rows_or_commit(self) -> Phase {
        if self.next < self.total {
            Phase::Inserting
        } else {
            Phase::Committing
        }
    }

    /// The state after the pending step went as `reply` says.
    pub open spec fn after(self, reply: StoreReply) -> RebuildView {
        match self.phase {
            Phase::EnsuringDirectory => match reply {
                StoreReply::Done => RebuildView { phase: Phase::CheckingSchema, ..self },
                _ => RebuildView { phase: Phase::Failed(StoreError::Open), ..self },
            },
            Phase::CheckingSchema => match reply {
                StoreReply::Done => RebuildView { phase: Phase::Beginning, ..self },
                StoreReply::Absent => RebuildView { phase: Phase::CreatingSchema, ..self },
                StoreReply::Failed => RebuildView {
                    phase: Phase::Failed(StoreError::Schema),
                    ..self
                },
            },
            Phase::CreatingSchema => match reply {
                StoreReply::Done => RebuildView { phase: Phase::Beginning, ..self },
                _ => RebuildView { phase: Phase::Failed(StoreError::Schema), ..self },
            },
            Phase::Beginning => match reply {
                StoreReply::Done => RebuildView { phase: self.rows_or_commit(), ..self },
                _ => RebuildView { phase: Phase::Failed(StoreError::Transaction), ..self },
            },
            Phase::Inserting => {
                let tried = RebuildView {
                    next: self.next + 1,
                    persisted: if reply == StoreReply::Done {
                        self.persisted + 1
                    } else {
                        self.persisted
                    },
                    ..self
                };
                RebuildView { phase: tried.rows_or_commit(), ..tried }
            },
            Phase::Committing => match reply {
                StoreReply::Done => RebuildView { phase: Phase::Committed, ..self },
                _ => RebuildView { phase: Phase::Failed(StoreError::Transaction), ..self },
            },
            Phase::Committed | Phase::Failed(_) => self,
        }
    }

    /// The state after one step for each of `replies`, in their order.
    pub open spec fn after_all(self, replies: Seq<StoreReply>) -> RebuildView
        decreases replies.len(),
    {
        if replies.len() == 0 {
            self
        } else {
            self.after_all(replies.drop_last()).after(replies.last())
        }
    }

    /// The state in which the transaction of a batch of `total` rows is to be
    /// begun.
    pub open spec fn beginning(total: nat) -> RebuildView {
        RebuildView { phase: Phase::Beginning, total, next: 0, persisted: 0 }
    }

    /// An upper bound on the steps that are left.
    pub open spec fn steps_left(self) -> nat {
        match self.phase {
            Phase::EnsuringDirectory => self.total + 5,
            Phase::CheckingSchema => self.total + 4,
            Phase::CreatingSchema => self.total + 3,
            Phase::Beginning => self.total + 2,
            Phase::Inserting => (self.total - self.next + 1) as nat,
            Phase::Committing => 1,
            Phase::Committed | Phase::Failed(_) => 0,
        }
    }
}

/// The number of `replies` that say `Done`.
pub open spec fn done_count(replies: Seq<StoreReply>) -> nat {
    replies.filter(|reply: StoreReply| reply == StoreReply::Done).len()
}

/// Whatever the reply, a well-formed state is followed by a well-formed state.
pub proof fn lemma_after_keeps_well_formed(state: RebuildView, reply: StoreReply)
    requires
        state.well_formed(),
    ensures
        state.after(reply).well_formed(),
{
}

/// A row that the store refuses does not end the update: the row is counted
/// as tried and not as taken, and the update goes on with the next row, or
/// with the commit when it was the last.
pub proof fn lemma_refused_row_is_skipped(state: RebuildView, reply: StoreReply)
    requires
        state.well_formed(),
        state.phase == Phase::Inserting,
        reply != StoreReply::Done,
    ensures
        state.after(reply).phase == Phase::Inserting || state.after(reply).phase
            == Phase::Committing,
        state.after(reply).next == state.next + 1,
        state.after(reply).persisted == state.persisted,
{
}

/// The commit is asked for exactly when every row of the batch was tried, and
/// a row is asked for only while one is left.
pub proof fn lemma_commit_comes_after_the_last_row(state: RebuildView)
    requires
        state.well_formed(),
    ensures
        state.pending() == Some(StoreAction::Commit) ==> state.next == state.total,
        state.pending() matches Some(StoreAction::InsertRow(index)) ==> index == state.next
            && state.next < state.total,
{
}

/// The table is created only when the lookup found none, and either way the
/// update comes to the same state: ready to begin the transaction.
pub proof fn lemma_schema_is_ensured_either_way(state: RebuildView)
    requires
        state.phase == Phase::CheckingSchema,
    ensures
        state.after(StoreReply::Done).pending() == Some(StoreAction::BeginTransaction),
        state.after(StoreReply::Absent).pending() == Some(StoreAction::CreateSchema),
        state.after(StoreReply::Absent).after(StoreReply::Done) == state.after(StoreReply::Done),
{
}

/// Each step brings the end nearer: an update of a batch of `total` rows ends
/// after `total + 5` steps at most.
pub proof fn lemma_each_step_brings_the_end_nearer(state: RebuildView, reply: StoreReply)
    requires
        state.well_formed(),
        state.pending() is Some,
    ensures
        state.after(reply).steps_left() < state.steps_left(),
        RebuildView::initial(state.total).steps_left() == state.total + 5,
        state.after(reply).steps_left() == 0 <==> state.after(reply).pending() is None,
{
}

/// Once the transaction has begun, the rows are tried one by one, whatever
/// the store says of each: after `replies.len()` rows, that many were tried,
/// and as many were taken as the store accepted.
pub proof fn lemma_rows_are_tried_in_turn(total: nat, replies: Seq<StoreReply>)
    requires
        replies.len() <= total,
    ensures
        ({
            let tried = RebuildView::beginning(total).after(StoreReply::Done).after_all(replies);
            &&& tried.total == total
            &&& tried.next == replies.len()
            &&& tried.persisted == done_count(replies)
            &&& tried.phase == tried.rows_or_commit()
        }),
    decreases replies.len(),
{
    if replies.len() > 0 {
        let earlier = replies.drop_last();
        lemma_rows_are_tried_in_turn(total, earlier);
        assert(earlier.push(replies.last()) =~= replies);
        earlier.lemma_filter_push(replies.last(), |reply: StoreReply| reply == StoreReply::Done);
    } else {
        assert(done_count(replies) == 0) by {
            replies.lemma_filter_len(|reply: StoreReply| reply == StoreReply::Done);
        }
    }
}

/// A batch whose transaction is committed is counted row by row: every row
/// was tried, and as many are persisted as the store accepted. A batch whose
/// commit fails ends in a transaction error.
pub proof fn lemma_committed_batch_counts_its_rows(
    total: nat,
    replies: Seq<StoreReply>,
    commit: StoreReply,
)
    requires
        replies.len() == total,
        total <= usize::MAX,
    ensures
        ({
            let ended = RebuildView::beginning(total).after(StoreReply::Done).after_all(
                replies,
            ).after(commit);
            ended.outcome() == Some(
                if commit == StoreReply::Done {
                    Ok(
                        BatchOutcome {
                            attempted: total as usize,
                            persisted: done_count(replies) as usize,
                        },
                    )
                } else {
                    Err(StoreError::Transaction)
                },
            )
        }),
        done_count(replies) <= total,
{
    lemma_rows_are_tried_in_turn(total, replies);
    replies.lemma_filter_len(|reply: StoreReply| reply == StoreReply::Done);
}

/// Where the store accepts every row and the commit succeeds, the whole batch
/// is persisted.
pub proof fn lemma_accepted_batch_is_persisted_whole(total: nat, replies: Seq<StoreReply>)
    requires
        replies.len() == total,
        total <= usize::MAX,
        forall|i: int| 0 <= i < replies.len() ==> replies[i] == StoreReply::Done,
    ensures
        RebuildView::beginning(total).after(StoreReply::Done).after_all(replies).after(
            StoreReply::Done,
        ).outcome() == Some(
            Ok::<BatchOutcome, StoreError>(
                BatchOutcome { attempted: total as usize, persisted: total as usize },
            ),
        ),
{
    lemma_committed_batch_counts_its_rows(total, replies, StoreReply::Done);
    lemma_all_done(replies);
}

/// Where every reply says `Done`, the count of those is the count of all.
proof fn lemma_all_done(replies: Seq<StoreReply>)
    requires
        forall|i: int| 0 <= i < replies.len() ==> replies[i] == StoreReply::Done,
    ensures
        done_count(replies) == replies.len(),
    decreases replies.len(),
{
    let is_done = |reply: StoreReply| reply == StoreReply::Done;
    if replies.len() > 0 {
        let earlier = replies.drop_last();
        lemma_all_done(earlier);
        assert(earlier.push(replies.last()) =~= replies);
        earlier.lemma_filter_push(replies.last(), is_done);
    } else {
        replies.lemma_filter_len(is_done);
    }
}

/// An update of the store under way: the appending of one batch of entries.
#[derive(Clone, Copy, Debug)]
pub struct Rebuild {
    phase: Phase,
    total: usize,
    next: usize,
    persisted: usize,
}

impl View for Rebuild {
    type V = RebuildView;

    closed spec fn view(&self) -> RebuildView {
        RebuildView {
            phase: self.phase,
            total: self.total as nat,
            next: self.next as nat,
            persisted: self.persisted as nat,
        }
    }
}

impl Rebuild {
    #[verifier::type_invariant]
    spec fn counts_in_order(self) -> bool {
        self@.well_formed()
    }

    /// The update that appends a batch of `total` entries.
    pub fn start(total: usize) -> (update: Rebuild)
        ensures
            update@ == RebuildView::initial(total as nat),
    {
        Rebuild { phase: Phase::EnsuringDirectory, total, next: 0, persisted: 0 }
    }

    /// The step to perform next; none when the update has ended.
    ///
    /// A row to insert is named by its index in the batch.
    pub fn action(&self) -> (action: Option<StoreAction>)
        ensures
            action == self@.pending(),
            self@.well_formed(),
            action matches Some(StoreAction::InsertRow(index)) ==> index < self@.total,
    {
        proof {
            use_type_invariant(self);
        }
        match self.phase {
            Phase::EnsuringDirectory => Some(StoreAction::EnsureParentDirectory),
            Phase::CheckingSchema => Some(StoreAction::CheckSchema),
            Phase::CreatingSchema => Some(StoreAction::CreateSchema),
            Phase::Beginning => Some(StoreAction::BeginTransaction),
            Phase::Inserting => Some(StoreAction::InsertRow(self.next)),
            Phase::Committing => Some(StoreAction::Commit),
            Phase::Committed => None,
            Phase::Failed(_) => None,
        }
    }

    /// The update after the step that `action` named went as `reply` says.
    ///
    /// A row that failed is skipped: the update goes on with the next row.
    /// Once the update has ended, a reply changes nothing.
    pub fn advance(self, reply: StoreReply) -> (update: Rebuild)
        ensures
            update@ == self@.after(reply),
    {
        proof {
            use_type_invariant(&self);
        }
        let done = match reply {
            StoreReply::Done => true,
            _ => false,
        };
        match self.phase {
            Phase::EnsuringDirectory => if done {
                Rebuild { phase: Phase::CheckingSchema, ..self }
            } else {
                Rebuild { phase: Phase::Failed(StoreError::Open), ..self }
            },
            Phase::CheckingSchema => match reply {
                StoreReply::Done => Rebuild { phase: Phase::Beginning, ..self },
                StoreReply::Absent => Rebuild { phase: Phase::CreatingSchema, ..self },
                StoreReply::Failed => Rebuild { phase: Phase::Failed(StoreError::Schema), ..self },
            },
            Phase::CreatingSchema => if done {
                Rebuild { phase: Phase::Beginning, ..self }
            } else {
                Rebuild { phase: Phase::Failed(StoreError::Schema), ..self }
            },
            Phase::Beginning => if !done {
                Rebuild { phase: Phase::Failed(StoreError::Transaction), ..self }
            } else if self.next < self.total {
                Rebuild { phase: Phase::Inserting, ..self }
            } else {
                Rebuild { phase: Phase::Committing, ..self }
            },
            Phase::Inserting => {
                let next: usize = self.next + 1;
                let persisted: usize = if done {
                    self.persisted + 1
                } else {
                    self.persisted
                };
                let phase = if next < self.total {
                    Phase::Inserting
                } else {
                    Phase::Committing
                };
                Rebuild { phase, total: self.total, next, persisted }
            },
            Phase::Committing => if done {
                Rebuild { phase: Phase::Committed, ..self }
            } else {
                Rebuild { phase: Phase::Failed(StoreError::Transaction), ..self }
            },
            Phase::Committed => self,
            Phase::Failed(_) => self,
        }
    }

    /// How the update ended; none while it is under way.
    pub fn outcome(&self) -> (outcome: Option<Result<BatchOutcome, StoreError>>)
        ensures
            outcome == self@.outcome(),
            outcome matches Some(Ok(batch)) ==> batch.persisted <= batch.attempted
                && batch.attempted == self@.total,
    {
        proof {
            use_type_invariant(self);
        }
        match self.phase {
            Phase::Committed => Some(
                Ok(BatchOutcome { attempted: self.next, persisted: self.persisted }),
            ),
            Phase::Failed(error) => Some(Err(error)),
            _ => None,
        }
    }
}

/// What can be asked of the store.
#[derive(Clone, Copy, Debug, PartialEq, Eq, Structural)]
pub enum StoreCommand {
    /// Append a batch of entries to the catalogue.
    Update,
    /// Show every entry of the catalogue.
    Debug,
    /// Discard the catalogue.
    Reset,
}

/// The command that a name stands for.
pub open spec fn command_named(name: Seq<char>) -> Option<StoreCommand> {
    if name == "updatedb"@ {
        Some(StoreCommand::Update)
    } else if name == "debug"@ {
        Some(StoreCommand::Debug)
    } else if name == "reset"@ {
        Some(StoreCommand::Reset)
    } else {
        None
    }
}

impl StoreCommand {
    /// The command that `name` stands for: `updatedb`, `debug` or `reset`.
    pub fn from_name(name: &str) -> (command: Option<StoreCommand>)
        ensures
            command == command_named(name@),
    {
        if same_text(name, "updatedb") {
            Some(StoreCommand::Update)
        } else if same_text(name, "debug") {
            Some(StoreCommand::Debug)
        } else if same_text(name, "reset") {
            Some(StoreCommand::Reset)
        } else {
            None
        }
    }
}

/// What the store is to do.
#[derive(Debug, PartialEq, Eq)]
pub enum StoreRequest {
    /// Append these entries to the catalogue.
    Update(Vec<PathEntry>),
    /// Show every entry of the catalogue.
    Debug,
    /// Discard the catalogue.
    Reset,
}

/// Why nothing is asked of the store.
#[derive(Clone, Copy, Debug, PartialEq, Eq, Structural)]
pub enum HandlerError {
    /// An update was asked for, and no entries came with it.
    MissingEntries,
    /// The name given is that of no command.
    UnrecognizedCommand,
}

/// What the store is to do for the command of the given name.
///
/// An update takes the entries that come with it, and is an error without
/// them. The other commands take none; entries that come with them are
/// dropped.
pub fn database_handler(entries_opt: Option<Vec<PathEntry>>, command: &str) -> (request: Result<
    StoreRequest,
    HandlerError,
>)
    ensures
        match command_named(command@) {
            Some(StoreCommand::Update) => match entries_opt {
                Some(entries) => request matches Ok(StoreRequest::Update(batch)) && batch
                    == entries,
                None => request == Err::<StoreRequest, HandlerError>(HandlerError::MissingEntries),
            },
            Some(StoreCommand::Debug) => request == Ok::<StoreRequest, HandlerError>(
                StoreRequest::Debug,
            ),
            Some(StoreCommand::Reset) => request == Ok::<StoreRequest, HandlerError>(
                StoreRequest::Reset,
            ),
            None => request == Err::<StoreRequest, HandlerError>(
                HandlerError::UnrecognizedCommand,
            ),
        },
{
    match StoreCommand::from_name(command) {
        Some(StoreCommand::Update) => match entries_opt {
            Some(entries) => Ok(StoreRequest::Update(entries)),
            None => Err(HandlerError::MissingEntries),
        },
        Some(StoreCommand::Debug) => Ok(StoreRequest::Debug),
        Some(StoreCommand::Reset) => Ok(StoreRequest::Reset),
        None => Err(HandlerError::UnrecognizedCommand),
    }
}

/// The entry that a stored row stands for: its path and its basename, as
/// stored.
pub open spec fn row_entry(row: (String, String)) -> PathEntryView {
    PathEntryView { path: row.0@, basename: row.1@ }
}

/// The catalogue as entries, from its rows of path and basename: one entry
/// for each row, in the order of the rows. Nothing is derived again.
pub fn retrieve_entries(rows: Vec<(String, String)>) -> (entries: Vec<PathEntry>)
    ensures
        entry_views(entries@) == rows@.map_values(|row: (String, String)| row_entry(row)),
{
    let ghost entry_of = |row: (String, String)| row_entry(row);
    let mut entries: Vec<PathEntry> = Vec::new();
    let mut i: usize = 0;
    while i < rows.len()
        invariant
            i <= rows.len(),
            entry_of == |row: (String, String)| row_entry(row),
            entry_views(entries@) == rows@.take(i as int).map_values(entry_of),
        decreases rows.len() - i,
    {
        let entry = PathEntry::new(rows[i].0.clone(), rows[i].1.clone());
        proof {
            let earlier = rows@.take(i as int);
            assert(entry@ == entry_of(rows@[i as int]));
            assert(rows@.take(i + 1) =~= earlier.push(rows@[i as int]));
            assert(earlier.push(rows@[i as int]).map_values(entry_of) =~= earlier.map_values(
                entry_of,
            ).push(entry@));
            assert(entry_views(entries@.push(entry)) =~= entry_views(entries@).push(entry@));
        }
        entries.push(entry);
        i += 1;
    }
    proof {
        assert(rows@.take(rows.len() as int) =~= rows@);
    }
    entries
}

} // verus!
