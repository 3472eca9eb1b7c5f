//! The commands the manager launched, kept by process name, so that listings can
//! show each process with the command line that started it.
use vstd::prelude::*;
use crate::naming::{generate_process_id, process_id_of};

verus! {

/// The map held by a sequence of (name, command) entries; a later entry for a name
/// replaces an earlier one.
pub open spec fn map_of(entries: Seq<(String, String)>) -> Map<Seq<char>, Seq<char>>
    decreases entries.len(),
{
    if entries.len() == 0 {
        Map::empty()
    } else {
        map_of(entries.drop_last()).insert(entries.last().0@, entries.last().1@)
    }
}

/// No name occurs in two entries.
pub open spec fn names_distinct(entries: Seq<(String, String)>) -> bool {
    forall|i: int, j: int|
        0 <= i < entries.len() && 0 <= j < entries.len() && i != j ==> #[trigger] entries[i].0@
            != #[trigger] entries[j].0@
}

/// With distinct names, the map holds exactly the entries' names, each with its command.
proof fn lemma_map_of(entries: Seq<(String, String)>)
    requires
        names_distinct(entries),
    ensures
        forall|k: Seq<char>|
            #[trigger] map_of(entries).contains_key(k) <==> exists|i: int|
                0 <= i < entries.len() && entries[i].0@ == k,
        forall|i: int|
            0 <= i < entries.len() ==> #[trigger] map_of(entries)[entries[i].0@] == entries[i].1@,
    decreases entries.len(),
{
    if entries.len() > 0 {
        let prev = entries.drop_last();
        assert(names_distinct(prev)) by {
            assert forall|i: int, j: int|
                0 <= i < prev.len() && 0 <= j < prev.len() && i != j implies #[trigger] prev[i].0@
                != #[trigger] prev[j].0@ by {
                assert(prev[i] == entries[i]);
                assert(prev[j] == entries[j]);
            }
        }
        lemma_map_of(prev);
        let last = entries.len() - 1;
        assert forall|k: Seq<char>|
            #[trigger] map_of(entries).contains_key(k) <==> exists|i: int|
                0 <= i < entries.len() && entries[i].0@ == k by {
            if k == entries[last].0@ {
                assert(0 <= last < entries.len() && entries[last].0@ == k);
            } else {
                if map_of(entries).contains_key(k) {
                    assert(map_of(prev).contains_key(k));
                    let i = choose|i: int| 0 <= i < prev.len() && prev[i].0@ == k;
                    assert(entries[i] == prev[i]);
                    assert(0 <= i < entries.len() && entries[i].0@ == k);
                }
                if exists|i: int| 0 <= i < entries.len() && entries[i].0@ == k {
                    let i = choose|i: int| 0 <= i < entries.len() && entries[i].0@ == k;
                    assert(i < last);
                    assert(entries[i] == prev[i]);
                    assert(0 <= i < prev.len() && prev[i].0@ == k);
                    assert(map_of(prev).contains_key(k));
                }
            }
        }
        assert forall|i: int| 0 <= i < entries.len() implies #[trigger] map_of(
            entries,
        )[entries[i].0@] == entries[i].1@ by {
            if i < last {
                assert(entries[i] == prev[i]);
                assert(entries[i].0@ != entries[last].0@);
                assert(map_of(prev)[prev[i].0@] == prev[i].1@);
            }
        }
    }
}

/// Replacing the command of an entry replaces it in the map.
proof fn lemma_map_of_update(entries: Seq<(String, String)>, j: int, entry: (String, String))
    requires
        names_distinct(entries),
        0 <= j < entries.len(),
        entry.0@ == entries[j].0@,
    ensures
        names_distinct(entries.update(j, entry)),
        map_of(entries.update(j, entry)) == map_of(entries).insert(entry.0@, entry.1@),
{
    let new_entries = entries.update(j, entry);
    assert(names_distinct(new_entries)) by {
        assert forall|a: int, b: int|
            0 <= a < new_entries.len() && 0 <= b < new_entries.len() && a != b implies #[trigger] new_entries[a].0@
            != #[trigger] new_entries[b].0@ by {
            assert(entries[a].0@ != entries[b].0@);
        }
    }
    lemma_map_of(entries);
    lemma_map_of(new_entries);
    let lhs = map_of(new_entries);
    let rhs = map_of(entries).insert(entry.0@, entry.1@);
    assert forall|k: Seq<char>| lhs.contains_key(k) <==> rhs.contains_key(k) by {
        if lhs.contains_key(k) {
            let i = choose|i: int| 0 <= i < new_entries.len() && new_entries[i].0@ == k;
            assert(entries[i].0@ == k);
            assert(map_of(entries).contains_key(k));
        }
        if rhs.contains_key(k) {
            if k == entry.0@ {
                assert(new_entries[j].0@ == k);
            } else {
                assert(map_of(entries).contains_key(k));
                let i = choose|i: int| 0 <= i < entries.len() && entries[i].0@ == k;
                assert(new_entries[i].0@ == k);
            }
        }
    }
    assert forall|k: Seq<char>| lhs.contains_key(k) implies lhs[k] == rhs[k] by {
        let i = choose|i: int| 0 <= i < new_entries.len() && new_entries[i].0@ == k;
        assert(lhs[new_entries[i].0@] == new_entries[i].1@);
        if i != j {
            assert(entries[i] == new_entries[i]);
            assert(map_of(entries)[entries[i].0@] == entries[i].1@);
        }
    }
    assert(lhs =~= rhs);
}

/// Removing an entry removes its name from the map.
proof fn lemma_map_of_remove(entries: Seq<(String, String)>, j: int)
    requires
        names_distinct(entries),
        0 <= j < entries.len(),
    ensures
        names_distinct(entries.remove(j)),
        map_of(entries.remove(j)) == map_of(entries).remove(entries[j].0@),
{
    let new_entries = entries.remove(j);
    let gone = entries[j].0@;
    assert forall|i: int| 0 <= i < new_entries.len() implies #[trigger] new_entries[i] == entries[
        if i < j {
            i
        } else {
            i + 1
        }
    ] by {}
    assert(names_distinct(new_entries)) by {
        assert forall|a: int, b: int|
            0 <= a < new_entries.len() && 0 <= b < new_entries.len() && a != b implies #[trigger] new_entries[a].0@
            != #[trigger] new_entries[b].0@ by {
            let ea = if a < j { a } else { a + 1 };
            let eb = if b < j { b } else { b + 1 };
            assert(new_entries[a] == entries[ea]);
            assert(new_entries[b] == entries[eb]);
        }
    }
    lemma_map_of(entries);
    lemma_map_of(new_entries);
    let lhs = map_of(new_entries);
    let rhs = map_of(entries).remove(gone);
    assert forall|k: Seq<char>| lhs.contains_key(k) <==> rhs.contains_key(k) by {
        if lhs.contains_key(k) {
            let i = choose|i: int| 0 <= i < new_entries.len() && new_entries[i].0@ == k;
            let ei = if i < j { i } else { i + 1 };
            assert(new_entries[i] == entries[ei]);
            assert(entries[ei].0@ != gone);
            assert(map_of(entries).contains_key(k));
        }
        if rhs.contains_key(k) {
            assert(map_of(entries).contains_key(k));
            let i = choose|i: int| 0 <= i < entries.len() && entries[i].0@ == k;
            assert(i != j);
            let ni = if i < j { i } else { i - 1 };
            assert(new_entries[ni] == entries[i]);
            assert(0 <= ni < new_entries.len() && new_entries[ni].0@ == k);
        }
    }
    assert forall|k: Seq<char>| lhs.contains_key(k) implies lhs[k] == rhs[k] by {
        let i = choose|i: int| 0 <= i < new_entries.len() && new_entries[i].0@ == k;
        let ei = if i < j { i } else { i + 1 };
        assert(new_entries[i] == entries[ei]);
        assert(lhs[new_entries[i].0@] == new_entries[i].1@);
        assert(map_of(entries)[entries[ei].0@] == entries[ei].1@);
    }
    assert(lhs =~= rhs);
}

/// What a listing shows as the command of process `name`: the recorded command, or
/// `<unknown>` for a process the manager did not launch.
pub open spec fn shown_command(commands: Map<Seq<char>, Seq<char>>, name: Seq<char>) -> Seq<char> {
    if commands.contains_key(name) {
        commands[name]
    } else {
        "<unknown>"@
    }
}

/// Every recorded name is the name generated from its command.
pub open spec fn names_generated(commands: Map<Seq<char>, Seq<char>>) -> bool {
    forall|k: Seq<char>| #[trigger] commands.contains_key(k) ==> k == process_id_of(commands[k])
}

/// The commands launched, by process name.
pub struct CommandRegistry {
    entries: Vec<(String, String)>,
}

impl View for CommandRegistry {
    type V = Map<Seq<char>, Seq<char>>;

    closed spec fn view(&self) -> Map<Seq<char>, Seq<char>> {
        map_of(self.entries@)
    }
}

impl CommandRegistry {
    /// The registry's invariant: no name is recorded twice, and every name is the
    /// one generated from its command.
    pub closed spec fn wf(&self) -> bool {
        names_distinct(self.entries@) && names_generated(map_of(self.entries@))
    }

    /// Law: every name in a registry is the name generated from its command.
    pub proof fn lemma_names_generated(&self)
        requires
            self.wf(),
        ensures
            names_generated(self@),
    {
    }

    /// An empty registry.
    pub fn new() -> (r: CommandRegistry)
        ensures
            r.wf(),
            r@ == Map::<Seq<char>, Seq<char>>::empty(),
    {
        CommandRegistry { entries: Vec::new() }
    }

    /// The position of the entry named `name`.
    fn position(&self, name: &String) -> (r: Option<usize>)
        requires
            self.wf(),
        ensures
            r matches Some(j) ==> j < self.entries@.len() && self.entries@[j as int].0@ == name@,
            r is None ==> !self@.contains_key(name@),
    {
        proof {
            lemma_map_of(self.entries@);
        }
        let mut j: usize = 0;
        while j < self.entries.len()
            invariant
                j <= self.entries@.len(),
                forall|i: int| 0 <= i < j ==> self.entries@[i].0@ != name@,
            decreases self.entries@.len() - j,
        {
            if self.entries[j].0 == *name {
                return Some(j);
            }
            j = j + 1;
        }
        None
    }

    /// The command recorded for `name`, if any.
    pub fn get(&self, name: &str) -> (r: Option<String>)
        requires
            self.wf(),
        ensures
            r matches Some(c) ==> self@.contains_key(name@) && c@ == self@[name@],
            r is None ==> !self@.contains_key(name@),
    {
        proof {
            lemma_map_of(self.entries@);
        }
        let key = String::from_str(name);
        match self.position(&key) {
            Some(j) => Some(self.entries[j].1.clone()),
            None => None,
        }
    }

    /// The command a listing shows for `name`: the recorded one, or `<unknown>`.
    pub fn command_or_unknown(&self, name: &str) -> (r: String)
        requires
            self.wf(),
        ensures
            r@ == shown_command(self@, name@),
    {
        match self.get(name) {
            Some(c) => c,
            None => String::from_str("<unknown>"),
        }
    }

    /// Records that `command` was launched: under the name generated from it,
    /// replacing any earlier record of that name.
    pub fn record_launch(&mut self, command: &str)
        requires
            old(self).wf(),
        ensures
            final(self).wf(),
            final(self)@ == old(self)@.insert(process_id_of(command@), command@),
    {
        let name = generate_process_id(command);
        self.insert(name, String::from_str(command));
    }

    /// Records `command` as the command of `name`, replacing any earlier record.
    fn insert(&mut self, name: String, command: String)
        requires
            old(self).wf(),
            name@ == process_id_of(command@),
        ensures
            final(self).wf(),
            final(self)@ == old(self)@.insert(name@, command@),
    {
        match self.position(&name) {
            Some(j) => {
                proof {
                    lemma_map_of_update(self.entries@, j as int, (name, command));
                }
                self.entries.set(j, (name, command));
            },
            None => {
                proof {
                    lemma_map_of(self.entries@);
                }
                let ghost before = self.entries@;
                self.entries.push((name, command));
                proof {
                    assert(self.entries@.drop_last() =~= before);
                    assert forall|a: int, b: int|
                        0 <= a < self.entries@.len() && 0 <= b < self.entries@.len() && a != b implies #[trigger] self.entries@[a].0@
                        != #[trigger] self.entries@[b].0@ by {
                        if a < before.len() && b < before.len() {
                            assert(self.entries@[a] == before[a]);
                            assert(self.entries@[b] == before[b]);
                        } else if a < before.len() {
                            assert(self.entries@[a] == before[a]);
                            assert(map_of(before).contains_key(before[a].0@));
                        } else {
                            assert(self.entries@[b] == before[b]);
                            assert(map_of(before).contains_key(before[b].0@));
                        }
                    }
                }
            },
        }
    }

    /// Forgets the command of `name`.
    pub fn remove(&mut self, name: &str)
        requires
            old(self).wf(),
        ensures
            final(self).wf(),
            final(self)@ == old(self)@.remove(name@),
    {
        let key = String::from_str(name);
        match self.position(&key) {
            Some(j) => {
                proof {
                    lemma_map_of_remove(self.entries@, j as int);
                }
                self.entries.remove(j);
            },
            None => {
                assert(self@.remove(name@) =~= self@);
            },
        }
    }

    /// Forgets every command.
    pub fn clear(&mut self)
        requires
            old(self).wf(),
        ensures
            final(self).wf(),
            final(self)@ == Map::<Seq<char>, Seq<char>>::empty(),
    {
        self.entries.clear();
    }
}

/// Law: forgetting a launched process undoes recording its launch, when no process
/// of that name was recorded before (`kill` after `run`, on the registry's side).
pub proof fn law_forget_undoes_record(commands: Map<Seq<char>, Seq<char>>, command: Seq<char>)
    requires
        !commands.contains_key(process_id_of(command)),
    ensures
        commands.insert(process_id_of(command), command).remove(process_id_of(command))
            == commands,
{
    assert(commands.insert(process_id_of(command), command).remove(process_id_of(command))
        =~= commands);
}

/// Law: a listing shows, for a process, the command last recorded for it; a
/// recording for another name does not change it; once the process is forgotten,
/// or every command is cleared, it shows `<unknown>`.
pub proof fn law_command_read_after_write(
    commands: Map<Seq<char>, Seq<char>>,
    name: Seq<char>,
    command: Seq<char>,
    other: Seq<char>,
)
    requires
        other != name,
    ensures
        shown_command(commands.insert(name, command), name) == command,
        shown_command(commands.insert(other, command), name) == shown_command(commands, name),
        shown_command(commands.remove(name), name) == "<unknown>"@,
        shown_command(commands.remove(other), name) == shown_command(commands, name),
        shown_command(Map::<Seq<char>, Seq<char>>::empty(), name) == "<unknown>"@,
{
}

} // verus!
