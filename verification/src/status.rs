//! What the library knows of a managed process: its lifecycle state and a
//! snapshot of the daemon's record of it.
use vstd::prelude::*;
use crate::times::UtcInstant;

verus! {

/// Lifecycle state of a managed process, as the daemon reports it.
#[derive(Clone, Copy, Debug, PartialEq, Eq, Structural)]
pub enum ProcessState {
    /// Starting up.
    Starting,
    /// Running normally.
    Online,
    /// Being stopped.
    Stopping,
    /// Stopped.
    Stopped,
    /// Failed.
    Errored,
    /// Being restarted.
    Restarting,
}

/// The daemon's record of one process at one moment.
pub struct ProcessSnapshot {
    /// The process name.
    pub name: String,
    /// Its lifecycle state.
    pub state: ProcessState,
    /// Its system PID, while it has one.
    pub pid: Option<u32>,
    /// How many times it was restarted.
    pub restarts: u32,
    /// Its memory use, in bytes.
    pub memory_bytes: u64,
    /// The exit code of its last termination, if it terminated.
    pub exit_code: Option<i32>,
    /// When it started, if it is up.
    pub start: Option<UtcInstant>,
}

/// The position of the first snapshot named `name` in `list`, or -1 when none is.
pub open spec fn first_named(list: Seq<ProcessSnapshot>, name: Seq<char>) -> int
    decreases list.len(),
{
    if list.len() == 0 {
        -1
    } else {
        let prev = first_named(list.drop_last(), name);
        if prev >= 0 {
            prev
        } else if list.last().name@ == name {
            list.len() - 1
        } else {
            -1
        }
    }
}

/// `first_named` is -1 or a position holding `name`, before which `name` does not occur.
pub proof fn lemma_first_named(list: Seq<ProcessSnapshot>, name: Seq<char>)
    ensures
        -1 <= first_named(list, name) < list.len(),
        first_named(list, name) >= 0 ==> list[first_named(list, name)].name@ == name,
        forall|j: int|
            0 <= j < list.len() && (first_named(list, name) < 0 || j < first_named(list, name))
                ==> #[trigger] list[j].name@ != name,
    decreases list.len(),
{
    if list.len() > 0 {
        lemma_first_named(list.drop_last(), name);
        assert forall|j: int|
            0 <= j < list.len() && (first_named(list, name) < 0 || j < first_named(list, name))
            implies #[trigger] list[j].name@ != name by {
            if j < list.len() - 1 {
                assert(list[j] == list.drop_last()[j]);
            }
        }
    }
}

/// Finds the first snapshot in `list` named `name`.
pub fn find_process(list: &Vec<ProcessSnapshot>, name: &str) -> (r: Option<usize>)
    ensures
        r matches Some(i) ==> i as int == first_named(list@, name@),
        r is None ==> first_named(list@, name@) == -1,
{
    let wanted = String::from_str(name);
    let mut i: usize = 0;
    while i < list.len()
        invariant
            i <= list.len(),
            wanted@ == name@,
            first_named(list@.take(i as int), name@) == -1,
        decreases list.len() - i,
    {
        let ghost next = list@.take(i + 1);
        assert(next.drop_last() =~= list@.take(i as int));
        assert(next.last() == list@[i as int]);
        if list[i].name == wanted {
            proof {
                lemma_first_named_prefix(list@, name@, i as int + 1);
            }
            return Some(i);
        }
        i = i + 1;
    }
    assert(list@.take(list.len() as int) =~= list@);
    None
}

/// Once the first occurrence is inside a prefix, the whole list agrees with it.
proof fn lemma_first_named_prefix(list: Seq<ProcessSnapshot>, name: Seq<char>, k: int)
    requires
        0 <= k <= list.len(),
        first_named(list.take(k), name) >= 0,
    ensures
        first_named(list, name) == first_named(list.take(k), name),
    decreases list.len() - k,
{
    if k < list.len() {
        assert(list.take(k + 1).drop_last() =~= list.take(k));
        lemma_first_named_prefix(list, name, k + 1);
    } else {
        assert(list.take(k) =~= list);
    }
}

/// The PID of the first process named `name` in `list`, if it is listed and has one.
pub open spec fn pid_named(list: Seq<ProcessSnapshot>, name: Seq<char>) -> Option<u32> {
    let i = first_named(list, name);
    if i >= 0 {
        list[i].pid
    } else {
        None
    }
}

/// The PID to stop before deleting the process named `name`: that of the first
/// listed process of that name, if it has one.
pub fn pid_of(list: &Vec<ProcessSnapshot>, name: &str) -> (r: Option<u32>)
    ensures
        r == pid_named(list@, name@),
{
    proof {
        lemma_first_named(list@, name@);
    }
    match find_process(list, name) {
        Some(i) => list[i].pid,
        None => None,
    }
}

/// Law: a process name is looked up at its first occurrence in the list,
/// wherever that stands (the last position included): the PID to stop is that
/// process's PID; a name that is not listed gives no position and no PID.
pub proof fn law_lookup_by_first_occurrence(list: Seq<ProcessSnapshot>, name: Seq<char>, i: int)
    ensures
        0 <= i < list.len() && list[i].name@ == name && (forall|j: int|
            0 <= j < i ==> #[trigger] list[j].name@ != name) ==> first_named(list, name) == i
            && pid_named(list, name) == list[i].pid,
        (forall|j: int| 0 <= j < list.len() ==> #[trigger] list[j].name@ != name) ==> first_named(
            list,
            name,
        ) == -1 && pid_named(list, name) is None,
{
    lemma_first_named(list, name);
    if 0 <= i < list.len() && list[i].name@ == name && (forall|j: int|
        0 <= j < i ==> #[trigger] list[j].name@ != name) {
        let f = first_named(list, name);
        if f < 0 {
            assert(list[i].name@ != name);
        } else if f < i {
            assert(list[f].name@ != name);
        } else if f > i {
            assert(list[i].name@ != name);
        }
    }
    if forall|j: int| 0 <= j < list.len() ==> #[trigger] list[j].name@ != name {
        let f = first_named(list, name);
        if f >= 0 {
            assert(list[f].name@ == name);
        }
    }
}

/// The processes to stop before everything is deleted: the name and PID of every
/// listed process that has a PID, in list order.
pub open spec fn kill_targets_of(list: Seq<ProcessSnapshot>) -> Seq<(Seq<char>, u32)>
    decreases list.len(),
{
    if list.len() == 0 {
        seq![]
    } else {
        let prev = kill_targets_of(list.drop_last());
        match list.last().pid {
            Some(pid) => prev.push((list.last().name@, pid)),
            None => prev,
        }
    }
}

/// Collects the name and PID of every listed process that has a PID.
pub fn kill_targets(list: &Vec<ProcessSnapshot>) -> (r: Vec<(String, u32)>)
    ensures
        r@.map_values(|t: (String, u32)| (t.0@, t.1)) == kill_targets_of(list@),
{
    let mut r: Vec<(String, u32)> = Vec::new();
    let mut i: usize = 0;
    while i < list.len()
        invariant
            i <= list.len(),
            r@.map_values(|t: (String, u32)| (t.0@, t.1)) == kill_targets_of(list@.take(i as int)),
        decreases list.len() - i,
    {
        let ghost prev = r@.map_values(|t: (String, u32)| (t.0@, t.1));
        assert(list@.take(i + 1).drop_last() =~= list@.take(i as int));
        assert(list@.take(i + 1).last() == list@[i as int]);
        match list[i].pid {
            Some(pid) => {
                let name = list[i].name.clone();
                r.push((name, pid));
                assert(r@.map_values(|t: (String, u32)| (t.0@, t.1)) =~= prev.push(
                    (list@[i as int].name@, pid),
                ));
            },
            None => {},
        }
        i = i + 1;
    }
    assert(list@.take(list.len() as int) =~= list@);
    r
}

/// Law: the processes stopped before a deletion of everything are exactly the
/// listed processes that have a PID, each with its name and PID: every such
/// process is among them, and each of them is such a process.
pub proof fn law_kill_targets_complete_and_sound(list: Seq<ProcessSnapshot>)
    ensures
        forall|i: int|
            0 <= i < list.len() && (#[trigger] list[i]).pid is Some ==> kill_targets_of(
                list,
            ).contains((list[i].name@, list[i].pid->0)),
        forall|j: int|
            #![trigger kill_targets_of(list)[j]]
            0 <= j < kill_targets_of(list).len() ==> exists|i: int|
                0 <= i < list.len() && (#[trigger] list[i]).pid == Some(kill_targets_of(list)[j].1)
                    && list[i].name@ == kill_targets_of(list)[j].0,
    decreases list.len(),
{
    if list.len() > 0 {
        let prev_list = list.drop_last();
        law_kill_targets_complete_and_sound(prev_list);
        let prev = kill_targets_of(prev_list);
        let all = kill_targets_of(list);
        let last = list.len() - 1;
        assert forall|i: int| 0 <= i < list.len() && (#[trigger] list[i]).pid is Some implies all.contains(
            (list[i].name@, list[i].pid->0),
        ) by {
            if i < last {
                assert(list[i] == prev_list[i]);
                let k = choose|k: int| 0 <= k < prev.len() && prev[k] == (list[i].name@, list[i].pid->0);
                assert(all[k] == prev[k]);
            } else {
                assert(all[all.len() - 1] == (list[i].name@, list[i].pid->0));
            }
        }
        assert forall|j: int| #![trigger all[j]] 0 <= j < all.len() implies exists|i: int|
            0 <= i < list.len() && (#[trigger] list[i]).pid == Some(all[j].1) && list[i].name@
                == all[j].0 by {
            if j < prev.len() {
                assert(all[j] == prev[j]);
                let i = choose|i: int|
                    0 <= i < prev_list.len() && (#[trigger] prev_list[i]).pid == Some(prev[j].1)
                        && prev_list[i].name@ == prev[j].0;
                assert(list[i] == prev_list[i]);
            } else {
                assert(list[last].pid == Some(all[j].1));
            }
        }
    }
}

/// Law: each listed process that has a PID is stopped once: there are as many
/// targets as such processes.
pub proof fn law_kill_targets_counted_once(list: Seq<ProcessSnapshot>)
    ensures
        kill_targets_of(list).len() == list.filter(|s: ProcessSnapshot| s.pid is Some).len(),
    decreases list.len(),
{
    reveal(Seq::filter);
    if list.len() > 0 {
        law_kill_targets_counted_once(list.drop_last());
    }
}

/// Law: at start-up a stopped or failed process is a leftover, and so is one
/// without a PID or whose PID is dead; a process in any other state with a live
/// PID is kept.
pub proof fn law_stale_cases(s: ProcessSnapshot, pid_alive: bool)
    ensures
        s.state == ProcessState::Stopped ==> is_stale_spec(s, pid_alive),
        s.state == ProcessState::Errored ==> is_stale_spec(s, pid_alive),
        s.pid is None ==> is_stale_spec(s, pid_alive),
        !pid_alive ==> is_stale_spec(s, pid_alive),
        s.state != ProcessState::Stopped && s.state != ProcessState::Errored && s.pid is Some
            && pid_alive ==> !is_stale_spec(s, pid_alive),
{
}

/// A leftover process found at start-up: stopped or failed, without a PID, or whose
/// PID is no longer alive.
pub open spec fn is_stale_spec(snapshot: ProcessSnapshot, pid_alive: bool) -> bool {
    ||| snapshot.state == ProcessState::Stopped
    ||| snapshot.state == ProcessState::Errored
    ||| snapshot.pid is None
    ||| (snapshot.pid is Some && !pid_alive)
}

/// Decides whether a process found at start-up is a leftover to delete, given
/// whether its PID (when it has one) is alive.
pub fn is_stale(snapshot: &ProcessSnapshot, pid_alive: bool) -> (r: bool)
    ensures
        r == is_stale_spec(*snapshot, pid_alive),
{
    snapshot.state == ProcessState::Stopped || snapshot.state == ProcessState::Errored
        || snapshot.pid.is_none() || (snapshot.pid.is_some() && !pid_alive)
}

} // verus!
