//! What a search reports in a directory tree.
//!
//! A directory of the tree is named by its depth under the root and its place
//! in that level. The search meets the directories in the order of these
//! pairs: a smaller depth first, and within one depth the smaller place.

use vstd::prelude::*;
use crate::detect::{activate_of, detect, Probe};
use crate::emit::ScanErrorModel;
use crate::platform::Platform;
use crate::scan::{
    advance,
    directories,
    first_failure,
    pending,
    start,
    step_model,
    ActionModel,
    EntryModel,
    EventModel,
    ScannerModel,
};
use crate::world::{
    breadth_first,
    lemma_run_stable,
    level,
    levels,
    run,
    theorem_scan_walks_breadth_first,
    walk,
    Outcome,
    World,
};

verus! {

/// Whether the tree under `root`, of less than `depth` levels, has a
/// directory at place `index` of level `at`.
pub open spec fn in_tree(w: World, root: Seq<char>, depth: nat, at: nat, index: int) -> bool {
    at < depth && 0 <= index < level(w, root, at).len()
}

/// Whether the search comes to place `i1` of level `k1` before it comes to
/// place `i2` of level `k2`.
pub open spec fn comes_before(k1: nat, i1: int, k2: nat, i2: int) -> bool {
    k1 < k2 || (k1 == k2 && i1 < i2)
}

/// The number of directories above level `at`.
pub open spec fn offset(w: World, root: Seq<char>, at: nat) -> nat {
    levels(w, root, 0, at).len()
}

/// The levels from `from` to `to` are those up to `mid` and those from it.
proof fn lemma_levels_split(w: World, root: Seq<char>, from: nat, mid: nat, to: nat)
    requires
        from <= mid <= to,
    ensures
        levels(w, root, from, to) == levels(w, root, from, mid) + levels(w, root, mid, to),
    decreases mid - from,
{
    if from < mid {
        lemma_levels_split(w, root, from + 1, mid, to);
    }
}

/// Level `at` begins at `offset(at)` in the order of the search.
proof fn lemma_level_in_order(w: World, root: Seq<char>, depth: nat, at: nat)
    requires
        at < depth,
    ensures
        breadth_first(w, root, depth) == levels(w, root, 0, at) + level(w, root, at) + levels(
            w,
            root,
            at + 1,
            depth,
        ),
{
    lemma_levels_split(w, root, 0, at, depth);
}

/// The directory at a place of the tree, found in the order of the search.
proof fn lemma_place(w: World, root: Seq<char>, depth: nat, at: nat, index: int)
    requires
        in_tree(w, root, depth, at, index),
    ensures
        0 <= offset(w, root, at) + index < breadth_first(w, root, depth).len(),
        breadth_first(w, root, depth)[offset(w, root, at) + index] == level(w, root, at)[index],
{
    lemma_level_in_order(w, root, depth, at);
}

/// Every directory in the order of the search has a place in the tree.
proof fn lemma_member(w: World, root: Seq<char>, depth: nat, j: int) -> (place: (nat, int))
    requires
        0 <= j < breadth_first(w, root, depth).len(),
    ensures
        in_tree(w, root, depth, place.0, place.1),
        j == offset(w, root, place.0) + place.1,
        breadth_first(w, root, depth)[j] == level(w, root, place.0)[place.1],
    decreases depth,
{
    let above: nat = (depth - 1) as nat;
    lemma_level_in_order(w, root, depth, above);
    if j < offset(w, root, above) {
        lemma_member(w, root, above, j)
    } else {
        (above, j - offset(w, root, above))
    }
}

/// An earlier place comes earlier in the order of the search.
proof fn lemma_order(w: World, root: Seq<char>, k1: nat, i1: int, k2: nat, i2: int)
    requires
        comes_before(k1, i1, k2, i2),
        0 <= i1 < level(w, root, k1).len(),
        0 <= i2,
    ensures
        offset(w, root, k1) + i1 < offset(w, root, k2) + i2,
{
    if k1 < k2 {
        lemma_levels_split(w, root, 0, k1 + 1, k2);
        lemma_levels_split(w, root, 0, k1, k1 + 1);
        assert(levels(w, root, k1 + 1, k1 + 1) =~= Seq::empty());
    }
}

/// Two places are the same, or one comes before the other.
proof fn lemma_places_apart(w: World, root: Seq<char>, k1: nat, i1: int, k2: nat, i2: int)
    requires
        0 <= i1 < level(w, root, k1).len(),
        0 <= i2 < level(w, root, k2).len(),
    ensures
        offset(w, root, k1) + i1 == offset(w, root, k2) + i2 <==> k1 == k2 && i1 == i2,
        offset(w, root, k1) + i1 < offset(w, root, k2) + i2 <==> comes_before(k1, i1, k2, i2),
{
    if comes_before(k1, i1, k2, i2) {
        lemma_order(w, root, k1, i1, k2, i2);
    } else if comes_before(k2, i2, k1, i1) {
        lemma_order(w, root, k2, i2, k1, i1);
    }
}

/// Directories without an environment among them leave nothing printed.
proof fn lemma_walk_prints_nothing(
    w: World,
    platform: Platform,
    find_all: bool,
    dirs: Seq<Seq<char>>,
)
    requires
        forall|j: int| 0 <= j < dirs.len() ==> !w.is_environment(platform, #[trigger] dirs[j]),
    ensures
        walk(w, platform, find_all, dirs).lines == Seq::<Seq<char>>::empty(),
    decreases dirs.len(),
{
    if dirs.len() > 0 {
        let rest = dirs.drop_first();
        assert forall|j: int| 0 <= j < rest.len() implies !w.is_environment(
            platform,
            #[trigger] rest[j],
        ) by {}
        lemma_walk_prints_nothing(w, platform, find_all, rest);
    }
}

/// One environment among the directories, and every read before it goes
/// well: its line is the only one.
proof fn lemma_walk_single(
    w: World,
    platform: Platform,
    find_all: bool,
    dirs: Seq<Seq<char>>,
    p: int,
    canonical: Seq<char>,
)
    requires
        0 <= p < dirs.len(),
        forall|j: int| 0 <= j < dirs.len() ==> (w.is_environment(platform, #[trigger] dirs[j]) <==> j == p),
        forall|j: int| 0 <= j < p ==> w.read_failure(#[trigger] dirs[j]) is None,
        (w.resolve)(activate_of(platform, dirs[p])) == Ok::<Seq<char>, Seq<char>>(canonical),
    ensures
        walk(w, platform, find_all, dirs).lines == seq![canonical],
        !find_all ==> walk(w, platform, find_all, dirs).result == Some(Ok::<(), ScanErrorModel>(())),
    decreases dirs.len(),
{
    let rest = dirs.drop_first();
    if p == 0 {
        assert forall|j: int| 0 <= j < rest.len() implies !w.is_environment(
            platform,
            #[trigger] rest[j],
        ) by {}
        lemma_walk_prints_nothing(w, platform, find_all, rest);
    } else {
        assert forall|j: int| 0 <= j < rest.len() implies (w.is_environment(
            platform,
            #[trigger] rest[j],
        ) <==> j == p - 1) by {}
        assert forall|j: int| 0 <= j < p - 1 implies w.read_failure(#[trigger] rest[j]) is None by {}
        lemma_walk_single(w, platform, find_all, rest, p - 1, canonical);
    }
}

/// The first environment among the directories, and every read before it
/// goes well: a search for one environment prints its line and ends.
proof fn lemma_walk_first(
    w: World,
    platform: Platform,
    dirs: Seq<Seq<char>>,
    p: int,
    canonical: Seq<char>,
)
    requires
        0 <= p < dirs.len(),
        w.is_environment(platform, dirs[p]),
        forall|j: int| 0 <= j < p ==> !w.is_environment(platform, #[trigger] dirs[j]),
        forall|j: int| 0 <= j < p ==> w.read_failure(#[trigger] dirs[j]) is None,
        (w.resolve)(activate_of(platform, dirs[p])) == Ok::<Seq<char>, Seq<char>>(canonical),
    ensures
        walk(w, platform, false, dirs) == (Outcome {
            lines: seq![canonical],
            result: Some(Ok(())),
        }),
    decreases dirs.len(),
{
    let rest = dirs.drop_first();
    if p > 0 {
        assert forall|j: int| 0 <= j < p - 1 implies !w.is_environment(
            platform,
            #[trigger] rest[j],
        ) by {}
        assert forall|j: int| 0 <= j < p - 1 implies w.read_failure(#[trigger] rest[j]) is None by {}
        lemma_walk_first(w, platform, rest, p - 1, canonical);
    }
}

/// Two environments among the directories, and every read before the
/// second goes well: a search for all prints both lines, in that order.
proof fn lemma_walk_pair(
    w: World,
    platform: Platform,
    dirs: Seq<Seq<char>>,
    sooner: int,
    later: int,
    first: Seq<char>,
    second: Seq<char>,
)
    requires
        0 <= sooner < later < dirs.len(),
        forall|j: int| 0 <= j < dirs.len() ==> (w.is_environment(platform, #[trigger] dirs[j]) <==> j == sooner || j == later),
        forall|j: int| 0 <= j < later ==> w.read_failure(#[trigger] dirs[j]) is None,
        (w.resolve)(activate_of(platform, dirs[sooner])) == Ok::<Seq<char>, Seq<char>>(first),
        (w.resolve)(activate_of(platform, dirs[later])) == Ok::<Seq<char>, Seq<char>>(second),
    ensures
        walk(w, platform, true, dirs).lines == seq![first, second],
    decreases dirs.len(),
{
    let rest = dirs.drop_first();
    assert forall|j: int| 0 <= j < later - 1 implies w.read_failure(#[trigger] rest[j]) is None by {}
    if sooner == 0 {
        assert forall|j: int| 0 <= j < rest.len() implies (w.is_environment(
            platform,
            #[trigger] rest[j],
        ) <==> j == later - 1) by {}
        lemma_walk_single(w, platform, true, rest, later - 1, second);
    } else {
        assert forall|j: int| 0 <= j < rest.len() implies (w.is_environment(
            platform,
            #[trigger] rest[j],
        ) <==> j == sooner - 1 || j == later - 1) by {}
        lemma_walk_pair(w, platform, rest, sooner - 1, later - 1, first, second);
    }
}

/// A tree with one environment: the search prints one line, the canonical
/// path of that environment's activation script, whether it looks for one
/// environment or for all.
///
/// The tree under `root` has less than `depth` levels. Its one environment is
/// the directory at place `index` of level `at`, and `canonical` is the
/// canonical path of its activation script. No read fails in a directory that
/// the search comes to before it. A search for one environment then ends
/// well; a search for all ends, and it ends well unless a later read fails.
pub proof fn law_single_environment(
    w: World,
    platform: Platform,
    root: Seq<char>,
    find_all: bool,
    depth: nat,
    at: nat,
    index: int,
    canonical: Seq<char>,
) -> (fuel: nat)
    requires
        level(w, root, depth).len() == 0,
        in_tree(w, root, depth, at, index),
        forall|k: nat, i: int|
            in_tree(w, root, depth, k, i) ==> (w.is_environment(
                platform,
                #[trigger] level(w, root, k)[i],
            ) <==> k == at && i == index),
        forall|k: nat, i: int|
            in_tree(w, root, depth, k, i) && comes_before(k, i, at, index) ==> w.read_failure(
                #[trigger] level(w, root, k)[i],
            ) is None,
        (w.resolve)(activate_of(platform, level(w, root, at)[index])) == Ok::<
            Seq<char>,
            Seq<char>,
        >(canonical),
    ensures
        run(w, start(platform, root, find_all), fuel).result is Some,
        run(w, start(platform, root, find_all), fuel).lines == seq![canonical],
        !find_all ==> run(w, start(platform, root, find_all), fuel).result == Some(
            Ok::<(), ScanErrorModel>(()),
        ),
{
    let dirs = breadth_first(w, root, depth);
    let p = offset(w, root, at) + index;
    let fuel = theorem_scan_walks_breadth_first(w, platform, root, find_all, depth);
    lemma_place(w, root, depth, at, index);
    assert forall|j: int| 0 <= j < dirs.len() implies (w.is_environment(
        platform,
        #[trigger] dirs[j],
    ) <==> j == p) by {
        let place = lemma_member(w, root, depth, j);
        lemma_places_apart(w, root, place.0, place.1, at, index);
    }
    assert forall|j: int| 0 <= j < p implies w.read_failure(#[trigger] dirs[j]) is None by {
        let place = lemma_member(w, root, depth, j);
        lemma_places_apart(w, root, place.0, place.1, at, index);
    }
    lemma_walk_single(w, platform, find_all, dirs, p, canonical);
    fuel
}

/// Two environments, searched for one: the search prints the line of the
/// environment that it comes to first, which is the one nearer to the root,
/// or the earlier of two that are equally near; then it ends well.
///
/// Among the first `depth` levels under `root`, the environments are the
/// directories at place `i1` of level `k1` and at place `i2` of level `k2`;
/// the search comes to the first of these before the second, and `canonical`
/// is the canonical path of its activation script. No read fails in a
/// directory that the search comes to before it. What lies behind it, and
/// whether the tree ends at all, does not matter.
pub proof fn law_first_match_is_nearest(
    w: World,
    platform: Platform,
    root: Seq<char>,
    depth: nat,
    k1: nat,
    i1: int,
    k2: nat,
    i2: int,
    canonical: Seq<char>,
) -> (fuel: nat)
    requires
        in_tree(w, root, depth, k1, i1),
        in_tree(w, root, depth, k2, i2),
        comes_before(k1, i1, k2, i2),
        forall|k: nat, i: int|
            in_tree(w, root, depth, k, i) ==> (w.is_environment(
                platform,
                #[trigger] level(w, root, k)[i],
            ) <==> (k == k1 && i == i1) || (k == k2 && i == i2)),
        forall|k: nat, i: int|
            in_tree(w, root, depth, k, i) && comes_before(k, i, k1, i1) ==> w.read_failure(
                #[trigger] level(w, root, k)[i],
            ) is None,
        (w.resolve)(activate_of(platform, level(w, root, k1)[i1])) == Ok::<Seq<char>, Seq<char>>(
            canonical,
        ),
    ensures
        run(w, start(platform, root, false), fuel) == (Outcome {
            lines: seq![canonical],
            result: Some(Ok(())),
        }),
{
    let dirs = breadth_first(w, root, depth);
    let p = offset(w, root, k1) + i1;
    lemma_place(w, root, depth, k1, i1);
    assert forall|j: int| 0 <= j < p implies !w.is_environment(platform, #[trigger] dirs[j])
        && w.read_failure(dirs[j]) is None by {
        let place = lemma_member(w, root, depth, j);
        lemma_places_apart(w, root, place.0, place.1, k1, i1);
        lemma_places_apart(w, root, place.0, place.1, k2, i2);
        lemma_places_apart(w, root, k1, i1, k2, i2);
    }
    lemma_walk_first(w, platform, dirs, p, canonical);
    theorem_scan_walks_breadth_first(w, platform, root, false, depth)
}

/// A tree with two environments, searched for all: the search prints both
/// lines, first that of the environment that it comes to first.
///
/// The tree under `root` has less than `depth` levels. Its environments are
/// the directories at place `i1` of level `k1` and at place `i2` of level
/// `k2`; the search comes to the first of these before the second, and
/// `first` and `second` are the canonical paths of their activation scripts.
/// No read fails in a directory that the search comes to before the second.
pub proof fn law_all_matches_in_order(
    w: World,
    platform: Platform,
    root: Seq<char>,
    depth: nat,
    k1: nat,
    i1: int,
    k2: nat,
    i2: int,
    first: Seq<char>,
    second: Seq<char>,
) -> (fuel: nat)
    requires
        level(w, root, depth).len() == 0,
        in_tree(w, root, depth, k1, i1),
        in_tree(w, root, depth, k2, i2),
        comes_before(k1, i1, k2, i2),
        forall|k: nat, i: int|
            in_tree(w, root, depth, k, i) ==> (w.is_environment(
                platform,
                #[trigger] level(w, root, k)[i],
            ) <==> (k == k1 && i == i1) || (k == k2 && i == i2)),
        forall|k: nat, i: int|
            in_tree(w, root, depth, k, i) && comes_before(k, i, k2, i2) ==> w.read_failure(
                #[trigger] level(w, root, k)[i],
            ) is None,
        (w.resolve)(activate_of(platform, level(w, root, k1)[i1])) == Ok::<Seq<char>, Seq<char>>(
            first,
        ),
        (w.resolve)(activate_of(platform, level(w, root, k2)[i2])) == Ok::<Seq<char>, Seq<char>>(
            second,
        ),
    ensures
        run(w, start(platform, root, true), fuel).result is Some,
        run(w, start(platform, root, true), fuel).lines == seq![first, second],
{
    let dirs = breadth_first(w, root, depth);
    let sooner = offset(w, root, k1) + i1;
    let later = offset(w, root, k2) + i2;
    let fuel = theorem_scan_walks_breadth_first(w, platform, root, true, depth);
    lemma_place(w, root, depth, k1, i1);
    lemma_place(w, root, depth, k2, i2);
    lemma_places_apart(w, root, k1, i1, k2, i2);
    assert forall|j: int| 0 <= j < dirs.len() implies (w.is_environment(
        platform,
        #[trigger] dirs[j],
    ) <==> j == sooner || j == later) by {
        let place = lemma_member(w, root, depth, j);
        lemma_places_apart(w, root, place.0, place.1, k1, i1);
        lemma_places_apart(w, root, place.0, place.1, k2, i2);
    }
    assert forall|j: int| 0 <= j < later implies w.read_failure(#[trigger] dirs[j]) is None by {
        let place = lemma_member(w, root, depth, j);
        lemma_places_apart(w, root, place.0, place.1, k2, i2);
    }
    lemma_walk_pair(w, platform, dirs, sooner, later, first, second);
    fuel
}

/// A directory with the program directory and without the interpreter in it
/// is no environment, and the search goes down into it all the same: it asks
/// for its entries, and the directories among them join the queue.
pub proof fn law_descends_without_interpreter(
    s: ScannerModel,
    probe: Probe,
    entries: Seq<EntryModel>,
)
    requires
        s.phase is Probing,
        probe.has_bin_dir,
        !probe.has_interpreter,
    ensures
        detect(s.platform, s.phase->Probing_dir, probe) is None,
        pending(step_model(s, EventModel::Probed(probe))) == (ActionModel::List {
            dir: s.phase->Probing_dir,
        }),
        first_failure(entries) is None ==> step_model(
            step_model(s, EventModel::Probed(probe)),
            EventModel::Listed(entries),
        ) == advance(s.platform, s.find_all, s.queue + directories(entries)),
{
}

/// A root that is no directory and cannot be opened: the search ends well
/// after two steps and prints nothing.
pub proof fn law_missing_root(w: World, platform: Platform, root: Seq<char>, find_all: bool)
    requires
        !(w.is_dir)(root),
        (w.list)(root) is None,
    ensures
        run(w, start(platform, root, find_all), 2) == Outcome::over(Ok(())),
{
    reveal_with_fuel(run, 3);
    let s = start(platform, root, find_all);
}

/// A directory that cannot be opened is passed over: the queue stays as it
/// is, the search goes on with the next directory that waits, and it does not
/// fail.
pub proof fn law_unreadable_is_skipped(s: ScannerModel)
    requires
        s.phase is Listing,
    ensures
        step_model(s, EventModel::Unreadable) == advance(s.platform, s.find_all, s.queue),
        !(step_model(s, EventModel::Unreadable).phase is Failed),
{
}

/// A search that is run twice against the same disk prints the same lines
/// and ends the same way, however many steps each run was given beyond those
/// it needed.
pub proof fn law_scan_repeats(w: World, s: ScannerModel, once: nat, again: nat)
    requires
        run(w, s, once).result is Some,
        run(w, s, again).result is Some,
    ensures
        run(w, s, once) == run(w, s, again),
{
    if once <= again {
        lemma_run_stable(w, s, once, again);
    } else {
        lemma_run_stable(w, s, again, once);
    }
}

} // verus!
