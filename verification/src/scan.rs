//! The search itself: a walk through a directory tree, nearest directories
//! first, that reports the environments it meets.
//!
//! The walk never touches the disk. A [`VenvScanner`] names the next thing it
//! needs done ([`Action`]); the caller does it and hands back what came of it
//! ([`Event`]). [`step_model`] is the whole rule, and [`VenvScanner::step`]
//! computes it.

use std::collections::VecDeque;
use vstd::prelude::*;
use crate::detect::{
    activate_of,
    bin_dir_of,
    bin_dir_path,
    get_virtual_env,
    activate_path,
    interpreter_of,
    interpreter_path,
    Probe,
};
use crate::emit::{display_virtual_env, emission, resolved_view, ScanError, ScanErrorModel};
use crate::platform::Platform;

verus! {

/// Where a search begins and how long it goes on.
#[derive(Debug, PartialEq, Eq)]
pub struct ScanConfig {
    /// The directory to begin at.
    pub root: String,
    /// Report every environment, not only the first.
    pub find_all: bool,
}

/// One step of reading a directory.
#[derive(Debug, PartialEq, Eq)]
pub enum Entry {
    /// An entry that was read.
    Child {
        /// The path of the entry, its directory included.
        path: String,
        /// Whether the entry is itself a directory.
        is_dir: bool,
    },
    /// The read failed. Nothing is read behind it.
    Failed {
        /// What the system said.
        cause: String,
    },
}

/// An [`Entry`] in specifications.
pub enum EntryModel {
    Child { path: Seq<char>, is_dir: bool },
    Failed { cause: Seq<char> },
}

impl View for Entry {
    type V = EntryModel;

    open spec fn view(&self) -> EntryModel {
        match *self {
            Entry::Child { path, is_dir } => EntryModel::Child { path: path@, is_dir },
            Entry::Failed { cause } => EntryModel::Failed { cause: cause@ },
        }
    }
}

/// What the caller hands back to the search.
#[derive(Debug, PartialEq, Eq)]
pub enum Event {
    /// The answer to [`Action::Probe`].
    Probed(Probe),
    /// The answer to [`Action::Resolve`]: the canonical path, or what the
    /// system said when it had none.
    Resolved(Result<String, String>),
    /// The answer to [`Action::Print`]: the line is out.
    Printed,
    /// The answer to [`Action::List`] for a directory that was opened: its
    /// entries in the order they were read.
    Listed(Vec<Entry>),
    /// The answer to [`Action::List`] for a directory that could not be
    /// opened, whatever the reason.
    Unreadable,
}

/// An [`Event`] in specifications.
pub enum EventModel {
    Probed(Probe),
    Resolved(Result<Seq<char>, Seq<char>>),
    Printed,
    Listed(Seq<EntryModel>),
    Unreadable,
}

/// The entries of a listing in specifications.
pub open spec fn entries_view(entries: Seq<Entry>) -> Seq<EntryModel> {
    entries.map_values(|entry: Entry| entry@)
}

impl View for Event {
    type V = EventModel;

    open spec fn view(&self) -> EventModel {
        match *self {
            Event::Probed(probe) => EventModel::Probed(probe),
            Event::Resolved(resolved) => EventModel::Resolved(resolved_view(resolved)),
            Event::Printed => EventModel::Printed,
            Event::Listed(entries) => EventModel::Listed(entries_view(entries@)),
            Event::Unreadable => EventModel::Unreadable,
        }
    }
}

/// What the search needs done next.
#[derive(Debug, PartialEq, Eq)]
pub enum Action {
    /// Look at a candidate: is `dir` a directory, is `bin_dir` one, is
    /// `interpreter` a regular file? Answer with [`Event::Probed`].
    Probe { dir: String, bin_dir: String, interpreter: String },
    /// Find the canonical path of `path`. Answer with [`Event::Resolved`].
    Resolve { path: String },
    /// Write `line` out, on a line of its own. Answer with [`Event::Printed`].
    Print { line: String },
    /// Read the entries of `dir`. Answer with [`Event::Listed`], or with
    /// [`Event::Unreadable`] where the directory cannot be opened.
    List { dir: String },
    /// The search is over and went well.
    Finish,
    /// The search is over and failed.
    Fail { error: ScanError },
}

/// An [`Action`] in specifications.
pub enum ActionModel {
    Probe { dir: Seq<char>, bin_dir: Seq<char>, interpreter: Seq<char> },
    Resolve { path: Seq<char> },
    Print { line: Seq<char> },
    List { dir: Seq<char> },
    Finish,
    Fail { error: ScanErrorModel },
}

impl View for Action {
    type V = ActionModel;

    open spec fn view(&self) -> ActionModel {
        match *self {
            Action::Probe { dir, bin_dir, interpreter } => ActionModel::Probe {
                dir: dir@,
                bin_dir: bin_dir@,
                interpreter: interpreter@,
            },
            Action::Resolve { path } => ActionModel::Resolve { path: path@ },
            Action::Print { line } => ActionModel::Print { line: line@ },
            Action::List { dir } => ActionModel::List { dir: dir@ },
            Action::Finish => ActionModel::Finish,
            Action::Fail { error } => ActionModel::Fail { error: error@ },
        }
    }
}

/// What a search is waiting for.
#[derive(Debug)]
enum Phase {
    Probing { dir: String },
    Resolving { dir: String },
    Printing { dir: String, line: String },
    Listing { dir: String },
    Finished,
    Failed { error: ScanError },
}

/// What a search is waiting for, in specifications. Every phase but the last
/// two names the directory that the search is busy with.
pub enum PhaseModel {
    /// For what the disk says of `dir`.
    Probing { dir: Seq<char> },
    /// For the canonical path of the activation script under `dir`.
    Resolving { dir: Seq<char> },
    /// For `line` to be written.
    Printing { dir: Seq<char>, line: Seq<char> },
    /// For the entries of `dir`.
    Listing { dir: Seq<char> },
    /// For nothing: the search went well.
    Finished,
    /// For nothing: the search failed.
    Failed { error: ScanErrorModel },
}

impl View for Phase {
    type V = PhaseModel;

    closed spec fn view(&self) -> PhaseModel {
        match *self {
            Phase::Probing { dir } => PhaseModel::Probing { dir: dir@ },
            Phase::Resolving { dir } => PhaseModel::Resolving { dir: dir@ },
            Phase::Printing { dir, line } => PhaseModel::Printing { dir: dir@, line: line@ },
            Phase::Listing { dir } => PhaseModel::Listing { dir: dir@ },
            Phase::Finished => PhaseModel::Finished,
            Phase::Failed { error } => PhaseModel::Failed { error: error@ },
        }
    }
}

/// A search in specifications.
pub struct ScannerModel {
    pub platform: Platform,
    pub find_all: bool,
    /// The directories that wait to be looked at, the next one first.
    pub queue: Seq<Seq<char>>,
    pub phase: PhaseModel,
}

/// The cause of the first read that failed, if one did.
pub open spec fn first_failure(entries: Seq<EntryModel>) -> Option<Seq<char>>
    decreases entries.len(),
{
    if entries.len() == 0 {
        None
    } else {
        match first_failure(entries.drop_last()) {
            Some(cause) => Some(cause),
            None => match entries.last() {
                EntryModel::Failed { cause } => Some(cause),
                EntryModel::Child { .. } => None,
            },
        }
    }
}

/// The paths of the entries that are directories, in the order they were
/// read.
pub open spec fn directories(entries: Seq<EntryModel>) -> Seq<Seq<char>>
    decreases entries.len(),
{
    if entries.len() == 0 {
        Seq::empty()
    } else {
        let before = directories(entries.drop_last());
        match entries.last() {
            EntryModel::Child { path, is_dir } => if is_dir {
                before.push(path)
            } else {
                before
            },
            EntryModel::Failed { .. } => before,
        }
    }
}

/// The search that takes the front of `queue` as its next candidate, or is
/// over when nothing waits.
pub open spec fn advance(platform: Platform, find_all: bool, queue: Seq<Seq<char>>) -> ScannerModel {
    if queue.len() == 0 {
        ScannerModel { platform, find_all, queue, phase: PhaseModel::Finished }
    } else {
        ScannerModel {
            platform,
            find_all,
            queue: queue.drop_first(),
            phase: PhaseModel::Probing { dir: queue.first() },
        }
    }
}

/// A search at its beginning: only the root waits, and it is taken at once.
pub open spec fn start(platform: Platform, root: Seq<char>, find_all: bool) -> ScannerModel {
    advance(platform, find_all, seq![root])
}

/// What a search in state `s` needs done.
pub open spec fn pending(s: ScannerModel) -> ActionModel {
    match s.phase {
        PhaseModel::Probing { dir } => ActionModel::Probe {
            dir,
            bin_dir: bin_dir_of(s.platform, dir),
            interpreter: interpreter_of(s.platform, dir),
        },
        PhaseModel::Resolving { dir } => ActionModel::Resolve { path: activate_of(s.platform, dir) },
        PhaseModel::Printing { dir, line } => ActionModel::Print { line },
        PhaseModel::Listing { dir } => ActionModel::List { dir },
        PhaseModel::Finished => ActionModel::Finish,
        PhaseModel::Failed { error } => ActionModel::Fail { error },
    }
}

/// The state that follows `s` when `event` comes in.
///
/// A candidate that is an environment has its activation script resolved and
/// printed; with that the search is over, unless every environment was asked
/// for. In every other case the candidate's entries are read, and those that
/// are directories go to the back of the queue, behind all that wait already.
/// A directory that cannot be opened adds nothing. A read that fails ends the
/// search, and so does a match without a canonical path. An event that does
/// not answer what the search is waiting for changes nothing.
pub open spec fn step_model(s: ScannerModel, event: EventModel) -> ScannerModel {
    match (s.phase, event) {
        (PhaseModel::Probing { dir }, EventModel::Probed(probe)) => if probe.is_environment() {
            ScannerModel { phase: PhaseModel::Resolving { dir }, ..s }
        } else {
            ScannerModel { phase: PhaseModel::Listing { dir }, ..s }
        },
        (PhaseModel::Resolving { dir }, EventModel::Resolved(resolved)) => match emission(
            activate_of(s.platform, dir),
            resolved,
        ) {
            Ok(line) => ScannerModel { phase: PhaseModel::Printing { dir, line }, ..s },
            Err(error) => ScannerModel { phase: PhaseModel::Failed { error }, ..s },
        },
        (PhaseModel::Printing { dir, line }, EventModel::Printed) => if s.find_all {
            ScannerModel { phase: PhaseModel::Listing { dir }, ..s }
        } else {
            ScannerModel { phase: PhaseModel::Finished, ..s }
        },
        (PhaseModel::Listing { dir }, EventModel::Unreadable) => advance(
            s.platform,
            s.find_all,
            s.queue,
        ),
        (PhaseModel::Listing { dir }, EventModel::Listed(entries)) => match first_failure(entries) {
            Some(cause) => ScannerModel {
                phase: PhaseModel::Failed { error: ScanErrorModel::EntryRead { cause } },
                ..s
            },
            None => advance(s.platform, s.find_all, s.queue + directories(entries)),
        },
        _ => s,
    }
}

/// The paths that a queue holds.
pub open spec fn queue_view(queue: Seq<String>) -> Seq<Seq<char>> {
    queue.map_values(|path: String| path@)
}

/// A failure at `at`, with none before it, is the first.
proof fn lemma_first_failure_at(entries: Seq<EntryModel>, at: int)
    requires
        0 <= at < entries.len(),
        entries[at] is Failed,
        forall|i: int| 0 <= i < at ==> entries[i] is Child,
    ensures
        first_failure(entries) == Some(entries[at]->cause),
    decreases entries.len(),
{
    if at == entries.len() - 1 {
        lemma_no_failure(entries.drop_last());
    } else {
        lemma_first_failure_at(entries.drop_last(), at);
    }
}

/// Where every read went well, none failed.
proof fn lemma_no_failure(entries: Seq<EntryModel>)
    requires
        forall|i: int| 0 <= i < entries.len() ==> entries[i] is Child,
    ensures
        first_failure(entries) is None,
    decreases entries.len(),
{
    if entries.len() > 0 {
        lemma_no_failure(entries.drop_last());
    }
}

/// Only directories join the queue, and every directory does: a path is
/// among [`directories`] exactly when an entry names it as a directory.
pub proof fn lemma_directories_are_directories(entries: Seq<EntryModel>, path: Seq<char>)
    ensures
        directories(entries).contains(path) <==> entries.contains(
            EntryModel::Child { path, is_dir: true },
        ),
    decreases entries.len(),
{
    let wanted = EntryModel::Child { path, is_dir: true };
    if entries.len() > 0 {
        let before = entries.drop_last();
        lemma_directories_are_directories(before, path);
        if directories(entries).contains(path) {
            let i = choose|i: int| 0 <= i < directories(entries).len() && directories(entries)[i] == path;
            if i < directories(before).len() {
                assert(directories(before)[i] == path);
                let j = choose|j: int| 0 <= j < before.len() && before[j] == wanted;
                assert(entries[j] == wanted);
            } else {
                assert(entries[entries.len() - 1] == wanted);
            }
        }
        if entries.contains(wanted) {
            let j = choose|j: int| 0 <= j < entries.len() && entries[j] == wanted;
            if j < before.len() {
                assert(before[j] == wanted);
                let i = choose|i: int| 0 <= i < directories(before).len() && directories(before)[i] == path;
                assert(directories(entries)[i] == path);
            } else {
                assert(directories(entries)[directories(before).len() as int] == path);
            }
        }
    }
}

/// Looks for the first read that failed.
fn find_failure(entries: &Vec<Entry>) -> (found: Option<String>)
    ensures
        match found {
            Some(cause) => first_failure(entries_view(entries@)) == Some(cause@),
            None => first_failure(entries_view(entries@)) is None,
        },
{
    let ghost model = entries_view(entries@);
    let mut i: usize = 0;
    while i < entries.len()
        invariant
            i <= entries.len(),
            model == entries_view(entries@),
            forall|j: int| 0 <= j < i ==> model[j] is Child,
        decreases entries.len() - i,
    {
        match &entries[i] {
            Entry::Failed { cause } => {
                proof {
                    lemma_first_failure_at(model, i as int);
                }
                return Some(cause.clone());
            },
            Entry::Child { .. } => {},
        }
        i += 1;
    }
    proof {
        lemma_no_failure(model);
    }
    None
}

/// Puts the directories among `entries` at the back of `queue`.
fn enqueue_directories(queue: &mut VecDeque<String>, entries: &Vec<Entry>)
    ensures
        queue_view(final(queue)@) == queue_view(old(queue)@) + directories(entries_view(entries@)),
{
    let ghost model = entries_view(entries@);
    let ghost before = queue_view(queue@);
    let mut i: usize = 0;
    while i < entries.len()
        invariant
            i <= entries.len(),
            model == entries_view(entries@),
            queue_view(queue@) == before + directories(model.take(i as int)),
        decreases entries.len() - i,
    {
        proof {
            assert(model.take(i + 1).drop_last() =~= model.take(i as int));
        }
        match &entries[i] {
            Entry::Child { path, is_dir } => {
                if *is_dir {
                    queue.push_back(path.clone());
                    assert(before + directories(model.take(i as int)).push(path@) =~= (before
                        + directories(model.take(i as int))).push(path@));
                }
            },
            Entry::Failed { .. } => {},
        }
        i += 1;
    }
    assert(model.take(entries.len() as int) =~= model);
}

/// A search for virtual environments under one root.
#[derive(Debug)]
pub struct VenvScanner {
    platform: Platform,
    find_all: bool,
    queue: VecDeque<String>,
    phase: Phase,
}

impl View for VenvScanner {
    type V = ScannerModel;

    closed spec fn view(&self) -> ScannerModel {
        ScannerModel {
            platform: self.platform,
            find_all: self.find_all,
            queue: queue_view(self.queue@),
            phase: self.phase@,
        }
    }
}

/// Takes the front of `queue` as the next candidate.
fn next_candidate(platform: Platform, find_all: bool, queue: VecDeque<String>) -> (next: VenvScanner)
    ensures
        next@ == advance(platform, find_all, queue_view(queue@)),
{
    let mut queue = queue;
    let ghost waiting = queue@;
    match queue.pop_front() {
        Some(dir) => {
            assert(queue_view(queue@) =~= queue_view(waiting).drop_first());
            VenvScanner { platform, find_all, queue, phase: Phase::Probing { dir } }
        },
        None => VenvScanner { platform, find_all, queue, phase: Phase::Finished },
    }
}

impl VenvScanner {
    /// Begins a search at `config.root`.
    pub fn new(platform: Platform, config: ScanConfig) -> (scanner: VenvScanner)
        ensures
            scanner@ == start(platform, config.root@, config.find_all),
    {
        let mut queue: VecDeque<String> = VecDeque::new();
        queue.push_front(config.root);
        assert(queue_view(queue@) =~= seq![config.root@]);
        next_candidate(platform, config.find_all, queue)
    }

    /// What the search needs done next.
    pub fn pending(&self) -> (action: Action)
        ensures
            action@ == pending(self@),
    {
        match &self.phase {
            Phase::Probing { dir } => Action::Probe {
                dir: dir.clone(),
                bin_dir: bin_dir_path(self.platform, dir.as_str()),
                interpreter: interpreter_path(self.platform, dir.as_str()),
            },
            Phase::Resolving { dir } => Action::Resolve {
                path: activate_path(self.platform, dir.as_str()),
            },
            Phase::Printing { dir, line } => Action::Print { line: line.clone() },
            Phase::Listing { dir } => Action::List { dir: dir.clone() },
            Phase::Finished => Action::Finish,
            Phase::Failed { error } => Action::Fail { error: error.duplicate() },
        }
    }

    /// Whether the search is over, well or not.
    pub fn is_over(&self) -> (over: bool)
        ensures
            over == (self@.phase is Finished || self@.phase is Failed),
    {
        match &self.phase {
            Phase::Finished => true,
            Phase::Failed { .. } => true,
            _ => false,
        }
    }

    /// Takes `event` in, and says what is to be done next.
    pub fn step(self, event: Event) -> (next: (VenvScanner, Action))
        ensures
            next.0@ == step_model(self@, event@),
            next.1@ == pending(next.0@),
    {
        let VenvScanner { platform, find_all, queue, phase } = self;
        let scanner = match (phase, event) {
            (Phase::Probing { dir }, Event::Probed(probe)) => {
                match get_virtual_env(platform, dir.as_str(), probe) {
                    Some(_) => VenvScanner { platform, find_all, queue, phase: Phase::Resolving { dir } },
                    None => VenvScanner { platform, find_all, queue, phase: Phase::Listing { dir } },
                }
            },
            (Phase::Resolving { dir }, Event::Resolved(resolved)) => {
                let path = activate_path(platform, dir.as_str());
                match display_virtual_env(path.as_str(), resolved) {
                    Ok(line) => VenvScanner {
                        platform,
                        find_all,
                        queue,
                        phase: Phase::Printing { dir, line },
                    },
                    Err(error) => VenvScanner { platform, find_all, queue, phase: Phase::Failed { error } },
                }
            },
            (Phase::Printing { dir, line }, Event::Printed) => {
                if find_all {
                    VenvScanner { platform, find_all, queue, phase: Phase::Listing { dir } }
                } else {
                    VenvScanner { platform, find_all, queue, phase: Phase::Finished }
                }
            },
            (Phase::Listing { dir }, Event::Unreadable) => next_candidate(platform, find_all, queue),
            (Phase::Listing { dir }, Event::Listed(entries)) => {
                match find_failure(&entries) {
                    Some(cause) => VenvScanner {
                        platform,
                        find_all,
                        queue,
                        phase: Phase::Failed { error: ScanError::EntryRead { cause } },
                    },
                    None => {
                        let mut queue = queue;
                        enqueue_directories(&mut queue, &entries);
                        next_candidate(platform, find_all, queue)
                    },
                }
            },
            (phase, _) => VenvScanner { platform, find_all, queue, phase },
        };
        let action = scanner.pending();
        (scanner, action)
    }
}

} // verus!
