//! What a search prints, stated against a picture of the disk.
//!
//! A [`World`] answers every question that a search can ask. [`run`] lets a
//! search go on against one; [`walk`] says directly, directory by directory,
//! what a search prints and how it ends. The theorem of this module is that
//! the two agree when the directories are taken level by level, the root
//! first, then its children, then theirs.

use vstd::prelude::*;
use crate::detect::{activate_of, bin_dir_of, interpreter_of, Probe};
use crate::emit::{emission, ScanErrorModel};
use crate::platform::Platform;
use crate::scan::{
    advance,
    directories,
    first_failure,
    pending,
    start,
    step_model,
    ActionModel,
    EntryModel,
    EventModel,
    ScannerModel,
};

verus! {

/// A picture of the disk: what it says to each question, for every path.
pub struct World {
    /// Whether a path names a directory.
    pub is_dir: spec_fn(Seq<char>) -> bool,
    /// Whether a path names a regular file.
    pub is_file: spec_fn(Seq<char>) -> bool,
    /// The canonical form of a path, or what the system says in its place.
    pub resolve: spec_fn(Seq<char>) -> Result<Seq<char>, Seq<char>>,
    /// The entries of a directory in the order they are read, or `None` where
    /// the path cannot be opened as a directory.
    pub list: spec_fn(Seq<char>) -> Option<Seq<EntryModel>>,
}

impl World {
    /// What the disk says of the candidate `dir`.
    pub open spec fn probe(self, platform: Platform, dir: Seq<char>) -> Probe {
        Probe {
            is_dir: (self.is_dir)(dir),
            has_bin_dir: (self.is_dir)(bin_dir_of(platform, dir)),
            has_interpreter: (self.is_file)(interpreter_of(platform, dir)),
        }
    }

    /// Whether `dir` is the root of a virtual environment.
    pub open spec fn is_environment(self, platform: Platform, dir: Seq<char>) -> bool {
        self.probe(platform, dir).is_environment()
    }

    /// The directories directly under `dir`, in the order they are read. A
    /// directory that cannot be opened has none.
    pub open spec fn children(self, dir: Seq<char>) -> Seq<Seq<char>> {
        match (self.list)(dir) {
            Some(entries) => directories(entries),
            None => Seq::empty(),
        }
    }

    /// The cause of the first failed read in `dir`, if there is one.
    pub open spec fn read_failure(self, dir: Seq<char>) -> Option<Seq<char>> {
        match (self.list)(dir) {
            Some(entries) => first_failure(entries),
            None => None,
        }
    }

    /// The event that comes back when `action` is carried out. A search that
    /// is over asks nothing more; the event given for it is never looked at.
    pub open spec fn answer(self, action: ActionModel) -> EventModel {
        match action {
            ActionModel::Probe { dir, bin_dir, interpreter } => EventModel::Probed(
                Probe {
                    is_dir: (self.is_dir)(dir),
                    has_bin_dir: (self.is_dir)(bin_dir),
                    has_interpreter: (self.is_file)(interpreter),
                },
            ),
            ActionModel::Resolve { path } => EventModel::Resolved((self.resolve)(path)),
            ActionModel::Print { line } => EventModel::Printed,
            ActionModel::List { dir } => match (self.list)(dir) {
                Some(entries) => EventModel::Listed(entries),
                None => EventModel::Unreadable,
            },
            ActionModel::Finish => EventModel::Printed,
            ActionModel::Fail { error } => EventModel::Printed,
        }
    }
}

/// What a search, or a part of one, has printed, and how it ended if it did.
pub struct Outcome {
    /// The lines in the order they were printed.
    pub lines: Seq<Seq<char>>,
    /// `None` as long as the search is to go on.
    pub result: Option<Result<(), ScanErrorModel>>,
}

impl Outcome {
    /// Nothing printed, and the search goes on.
    pub open spec fn silent() -> Outcome {
        Outcome { lines: Seq::empty(), result: None }
    }

    /// Nothing printed, and the search is over with `result`.
    pub open spec fn over(result: Result<(), ScanErrorModel>) -> Outcome {
        Outcome { lines: Seq::empty(), result: Some(result) }
    }

    /// `self`, and then `later` unless `self` ended the search.
    pub open spec fn followed_by(self, later: Outcome) -> Outcome {
        if self.result is Some {
            self
        } else {
            Outcome { lines: self.lines + later.lines, result: later.result }
        }
    }

    /// `self` where nothing is left to do: a search that was to go on ends
    /// well.
    pub open spec fn closed(self) -> Outcome {
        self.followed_by(Outcome::over(Ok(())))
    }
}

/// What the search `s` prints against `w` within `fuel` steps, and how it
/// ends. The result is `None` where `fuel` steps do not bring it to an end.
pub open spec fn run(w: World, s: ScannerModel, fuel: nat) -> Outcome
    decreases fuel,
{
    match pending(s) {
        ActionModel::Finish => Outcome::over(Ok(())),
        ActionModel::Fail { error } => Outcome::over(Err(error)),
        action => if fuel == 0 {
            Outcome::silent()
        } else {
            let rest = run(w, step_model(s, w.answer(action)), (fuel - 1) as nat);
            match action {
                ActionModel::Print { line } => Outcome {
                    lines: seq![line] + rest.lines,
                    result: rest.result,
                },
                _ => rest,
            }
        },
    }
}

/// What reading the entries of `dir` does to a search: it ends it where a
/// read fails.
pub open spec fn read(w: World, dir: Seq<char>) -> Outcome {
    match w.read_failure(dir) {
        Some(cause) => Outcome::over(Err(ScanErrorModel::EntryRead { cause })),
        None => Outcome::silent(),
    }
}

/// What the search does with the one directory `dir`, its children left
/// aside.
pub open spec fn visit(w: World, platform: Platform, find_all: bool, dir: Seq<char>) -> Outcome {
    if w.is_environment(platform, dir) {
        let script = activate_of(platform, dir);
        match emission(script, (w.resolve)(script)) {
            Err(error) => Outcome::over(Err(error)),
            Ok(line) => {
                let printed = Outcome { lines: seq![line], result: None };
                if find_all {
                    printed.followed_by(read(w, dir))
                } else {
                    printed.followed_by(Outcome::over(Ok(())))
                }
            },
        }
    } else {
        read(w, dir)
    }
}

/// What the search does with the directories `dirs`, taken in order.
pub open spec fn walk(w: World, platform: Platform, find_all: bool, dirs: Seq<Seq<char>>) -> Outcome
    decreases dirs.len(),
{
    if dirs.len() == 0 {
        Outcome::silent()
    } else {
        visit(w, platform, find_all, dirs.first()).followed_by(
            walk(w, platform, find_all, dirs.drop_first()),
        )
    }
}

/// The children of the directories `level`, in order.
pub open spec fn next_level(w: World, level: Seq<Seq<char>>) -> Seq<Seq<char>>
    decreases level.len(),
{
    if level.len() == 0 {
        Seq::empty()
    } else {
        w.children(level.first()) + next_level(w, level.drop_first())
    }
}

/// The directories that lie `depth` steps under `root`, in the order that
/// the listings give: the children of an earlier directory come before those
/// of a later one.
pub open spec fn level(w: World, root: Seq<char>, depth: nat) -> Seq<Seq<char>>
    decreases depth,
{
    if depth == 0 {
        seq![root]
    } else {
        next_level(w, level(w, root, (depth - 1) as nat))
    }
}

/// The levels `from`, `from + 1`, and so on below `to`, one behind the
/// other.
pub open spec fn levels(w: World, root: Seq<char>, from: nat, to: nat) -> Seq<Seq<char>>
    decreases to - from,
{
    if from >= to {
        Seq::empty()
    } else {
        level(w, root, from) + levels(w, root, from + 1, to)
    }
}

/// The tree under `root` down to `depth`, nearest directories first.
pub open spec fn breadth_first(w: World, root: Seq<char>, depth: nat) -> Seq<Seq<char>> {
    levels(w, root, 0, depth)
}

/// A search that has come to an end comes to the same end with more fuel.
pub proof fn lemma_run_stable(w: World, s: ScannerModel, fuel: nat, more: nat)
    requires
        run(w, s, fuel).result is Some,
        fuel <= more,
    ensures
        run(w, s, more) == run(w, s, fuel),
    decreases fuel,
{
    match pending(s) {
        ActionModel::Finish => {},
        ActionModel::Fail { error } => {},
        action => {
            lemma_run_stable(
                w,
                step_model(s, w.answer(action)),
                (fuel - 1) as nat,
                (more - 1) as nat,
            );
        },
    }
}

/// A search that waits for the entries of a directory.
proof fn lemma_run_listing(w: World, s: ScannerModel, fuel: nat)
    requires
        s.phase is Listing,
    ensures
        ({
            let dir = s.phase->Listing_dir;
            let next = advance(s.platform, s.find_all, s.queue + w.children(dir));
            if read(w, dir).result is Some {
                run(w, s, fuel + 1) == read(w, dir)
            } else {
                run(w, s, fuel + 1) == run(w, next, fuel)
            }
        }),
{
    reveal_with_fuel(run, 2);
}

/// A search that takes up a candidate: what it has done when it is through
/// with it.
proof fn lemma_run_directory(w: World, s: ScannerModel, fuel: nat)
    requires
        s.phase is Probing,
    ensures
        ({
            let dir = s.phase->Probing_dir;
            let here = visit(w, s.platform, s.find_all, dir);
            let next = advance(s.platform, s.find_all, s.queue + w.children(dir));
            if here.result is Some {
                run(w, s, fuel + 4) == here
            } else {
                run(w, next, fuel).result is Some ==> run(w, s, fuel + 4) == here.followed_by(
                    run(w, next, fuel),
                )
            }
        }),
{
    let dir = s.phase->Probing_dir;
    let next = advance(s.platform, s.find_all, s.queue + w.children(dir));
    let probed = step_model(s, w.answer(pending(s)));
    if w.is_environment(s.platform, dir) {
        let resolved = step_model(probed, w.answer(pending(probed)));
        if let Ok(line) = (w.resolve)(activate_of(s.platform, dir)) {
            let printed = step_model(resolved, w.answer(pending(resolved)));
            let rest = run(w, printed, (fuel + 1) as nat);
            assert(run(w, resolved, fuel + 2) == Outcome {
                lines: seq![line] + rest.lines,
                result: rest.result,
            });
            if s.find_all {
                lemma_run_listing(w, printed, fuel);
            }
        }
    } else {
        lemma_run_listing(w, probed, fuel + 2);
        if read(w, dir).result is None && run(w, next, fuel).result is Some {
            lemma_run_stable(w, next, fuel, fuel + 2);
        }
    }
}

/// A search that has `cur` at the front of its queue: what it has done when
/// it is through with all of `cur`. The children of `cur` then wait behind
/// what waited before.
proof fn lemma_run_level(
    w: World,
    platform: Platform,
    find_all: bool,
    cur: Seq<Seq<char>>,
    waiting: Seq<Seq<char>>,
    fuel: nat,
)
    ensures
        ({
            let here = walk(w, platform, find_all, cur);
            let s = advance(platform, find_all, cur + waiting);
            let next = advance(platform, find_all, waiting + next_level(w, cur));
            if here.result is Some {
                run(w, s, 4 * cur.len() + fuel) == here
            } else {
                run(w, next, fuel).result is Some ==> run(w, s, 4 * cur.len() + fuel) == here.followed_by(
                    run(w, next, fuel),
                )
            }
        }),
    decreases cur.len(),
{
    if cur.len() > 0 {
        let s = advance(platform, find_all, cur + waiting);
        let next = advance(platform, find_all, waiting + next_level(w, cur));
        let dir = cur.first();
        let rest = cur.drop_first();
        let first = visit(w, platform, find_all, dir);
        let tail = walk(w, platform, find_all, rest);
        let later = waiting + w.children(dir);
        assert((cur + waiting).drop_first() =~= rest + waiting);
        assert(rest + waiting + w.children(dir) =~= rest + later);
        assert(later + next_level(w, rest) =~= waiting + next_level(w, cur));
        lemma_run_directory(w, s, 4 * rest.len() + fuel);
        lemma_run_level(w, platform, find_all, rest, later, fuel);
        if first.result is None && tail.result is None && run(w, next, fuel).result is Some {
            assert(first.lines + (tail.lines + run(w, next, fuel).lines) =~= (first.lines
                + tail.lines) + run(w, next, fuel).lines);
        }
    }
}

/// Walking through `a` and then `b` is walking through both.
pub proof fn lemma_walk_append(
    w: World,
    platform: Platform,
    find_all: bool,
    a: Seq<Seq<char>>,
    b: Seq<Seq<char>>,
)
    ensures
        walk(w, platform, find_all, a + b) == walk(w, platform, find_all, a).followed_by(
            walk(w, platform, find_all, b),
        ),
    decreases a.len(),
{
    if a.len() > 0 {
        let first = visit(w, platform, find_all, a.first());
        let tail = walk(w, platform, find_all, a.drop_first());
        let last = walk(w, platform, find_all, b);
        assert((a + b).drop_first() =~= a.drop_first() + b);
        lemma_walk_append(w, platform, find_all, a.drop_first(), b);
        assert(first.lines + (tail.lines + last.lines) =~= (first.lines + tail.lines) + last.lines);
    }
}

/// A search that has the whole of one level in its queue, and nothing else,
/// walks through that level and all below it.
proof fn lemma_run_levels(
    w: World,
    platform: Platform,
    root: Seq<char>,
    find_all: bool,
    from: nat,
    depth: nat,
) -> (fuel: nat)
    requires
        from <= depth,
        level(w, root, depth).len() == 0 || walk(
            w,
            platform,
            find_all,
            levels(w, root, from, depth),
        ).result is Some,
    ensures
        run(w, advance(platform, find_all, level(w, root, from)), fuel) == walk(
            w,
            platform,
            find_all,
            levels(w, root, from, depth),
        ).closed(),
    decreases depth - from,
{
    let cur = level(w, root, from);
    if from == depth {
        0
    } else {
        let below = levels(w, root, from + 1, depth);
        let here = walk(w, platform, find_all, cur);
        lemma_walk_append(w, platform, find_all, cur, below);
        if here.result is Some {
            lemma_run_level(w, platform, find_all, cur, Seq::empty(), 0);
            4 * cur.len()
        } else {
            let tail = walk(w, platform, find_all, below);
            let fuel = lemma_run_levels(w, platform, root, find_all, from + 1, depth);
            lemma_run_level(w, platform, find_all, cur, Seq::empty(), fuel);
            4 * cur.len() + fuel
        }
    }
}

/// A search goes through the tree level by level.
///
/// Take the directories of the first `depth` levels under `root`, nearest
/// first. Where the tree ends above that depth, or the search ends among
/// these directories, a search from `root` comes to an end, and it prints and
/// ends as [`walk`] says of them.
pub proof fn theorem_scan_walks_breadth_first(
    w: World,
    platform: Platform,
    root: Seq<char>,
    find_all: bool,
    depth: nat,
) -> (fuel: nat)
    requires
        level(w, root, depth).len() == 0 || walk(
            w,
            platform,
            find_all,
            breadth_first(w, root, depth),
        ).result is Some,
    ensures
        run(w, start(platform, root, find_all), fuel) == walk(
            w,
            platform,
            find_all,
            breadth_first(w, root, depth),
        ).closed(),
{
    lemma_run_levels(w, platform, root, find_all, 0, depth)
}

} // verus!
