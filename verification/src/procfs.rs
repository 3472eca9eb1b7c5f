//! Reading the process table of `/proc`: parent PIDs, process states, and the
//! liveness of a PID, from the text of `/proc/<pid>/stat` files.
use vstd::prelude::*;
use crate::text::{
    blanks_of, chars_after, chars_of, find_last, last_index_of, lemma_last_index_of, lemma_words_shape,
    seqs_of, split_words, string_of, words_of,
};

verus! {

/// An ASCII decimal digit.
pub open spec fn is_decimal_digit(c: char) -> bool {
    '0' <= c && c <= '9'
}

/// The number written by the decimal digits `d`.
pub open spec fn decimal_value(d: Seq<char>) -> nat
    decreases d.len(),
{
    if d.len() == 0 {
        0
    } else {
        decimal_value(d.drop_last()) * 10 + ((d.last() as int) - ('0' as int)) as nat
    }
}

/// Whether every character of `d` is an ASCII decimal digit.
pub open spec fn all_decimal_digits(d: Seq<char>) -> bool {
    forall|i: int| 0 <= i < d.len() ==> is_decimal_digit(#[trigger] d[i])
}

/// The digits part of a number's text: the text without a leading `+`.
pub open spec fn unsigned_digits(s: Seq<char>) -> Seq<char> {
    if s.len() > 0 && s[0] == '+' {
        s.drop_first()
    } else {
        s
    }
}

/// What `str::parse::<u32>` accepts: an optional `+` followed by one or more ASCII
/// digits whose value fits in a `u32`; anything else (signs alone, `-`, spaces,
/// other characters, the empty text, overflow) is refused.
pub open spec fn parse_u32_spec(s: Seq<char>) -> Option<u32> {
    let d = unsigned_digits(s);
    if d.len() > 0 && all_decimal_digits(d) && decimal_value(d) <= u32::MAX {
        Some(decimal_value(d) as u32)
    } else {
        None
    }
}

/// Law: decimal digits are read in base ten, most significant first: one digit is
/// its own value, and two digits `a`, `b` are worth ten times `a` plus `b`.
pub proof fn law_decimal_digits(a: char, b: char)
    requires
        is_decimal_digit(a),
        is_decimal_digit(b),
    ensures
        decimal_value(seq![a]) == (a as int) - ('0' as int),
        decimal_value(seq![a, b]) == 10 * ((a as int) - ('0' as int)) + ((b as int) - ('0' as int)),
{
    let da: int = (a as int) - ('0' as int);
    let db: int = (b as int) - ('0' as int);
    assert(0 <= da && 0 <= db);
    assert(seq![a].drop_last() =~= Seq::<char>::empty());
    assert(seq![a].last() == a);
    assert(decimal_value(Seq::<char>::empty()) == 0);
    assert(decimal_value(seq![a]) == da);
    assert(seq![a, b].drop_last() =~= seq![a]);
    assert(seq![a, b].last() == b);
    assert(decimal_value(seq![a, b]) == decimal_value(seq![a]) * 10 + db);
}

/// Law: what `str::parse::<u32>` accepts. Decimal digits whose value fits in a
/// `u32` read as that value, with or without a leading `+`; a leading `-` or
/// space, a lone `+` and the empty text are refused, and so are digits whose value
/// does not fit.
pub proof fn law_parse_u32(d: Seq<char>)
    ensures
        d.len() > 0 && all_decimal_digits(d) && decimal_value(d) <= u32::MAX ==> parse_u32_spec(d)
            == Some(decimal_value(d) as u32) && parse_u32_spec(seq!['+'] + d) == Some(
            decimal_value(d) as u32,
        ),
        d.len() > 0 && all_decimal_digits(d) && decimal_value(d) > u32::MAX ==> parse_u32_spec(d)
            is None,
        parse_u32_spec(seq!['-'] + d) is None,
        parse_u32_spec(seq![' '] + d) is None,
        parse_u32_spec(Seq::<char>::empty()) is None,
        parse_u32_spec(seq!['+']) is None,
{
    assert((seq!['+'] + d).drop_first() =~= d);
    assert((seq!['-'] + d)[0] == '-');
    assert(!is_decimal_digit('-'));
    assert(!is_decimal_digit(' '));
    assert((seq![' '] + d)[0] == ' ');
    assert(seq!['+'].drop_first() =~= Seq::<char>::empty());
}

/// Adding digits after a run of decimal digits never lowers its value.
proof fn lemma_decimal_value_grows(d: Seq<char>, k: int, j: int)
    requires
        0 <= k <= j <= d.len(),
        all_decimal_digits(d),
    ensures
        decimal_value(d.take(j)) >= decimal_value(d.take(k)),
    decreases j - k,
{
    if j > k {
        lemma_decimal_value_grows(d, k, j - 1);
        assert(d.take(j).drop_last() =~= d.take(j - 1));
        assert(d.take(j).last() == d[j - 1]);
    }
}

/// Reads a decimal `u32` the way `str::parse::<u32>` does (`parse_u32_spec`): an
/// optional `+`, then one or more ASCII digits whose value fits in a `u32`.
pub fn parse_u32(s: &str) -> (r: Option<u32>)
    ensures
        r == parse_u32_spec(s@),
{
    let cs = chars_of(s);
    let start: usize = if cs.len() > 0 && cs[0] == '+' {
        1
    } else {
        0
    };
    let ghost d = unsigned_digits(s@);
    assert(d =~= cs@.skip(start as int));
    if start >= cs.len() {
        return None;
    }
    let mut value: u64 = 0;
    let mut i: usize = start;
    while i < cs.len()
        invariant
            start <= i <= cs.len(),
            cs@ == s@,
            d == cs@.skip(start as int),
            d == unsigned_digits(s@),
            d.len() > 0,
            value as nat == decimal_value(d.take(i - start)),
            value <= u32::MAX,
            forall|k: int| 0 <= k < i - start ==> is_decimal_digit(#[trigger] d[k]),
        decreases cs.len() - i,
    {
        let c = cs[i];
        let ghost k = i - start;
        assert(0 <= k < d.len());
        assert(d[k] == c);
        if !('0' <= c && c <= '9') {
            assert(!is_decimal_digit(d[k]));
            assert(!all_decimal_digits(d));
            return None;
        }
        assert(d.take(k + 1).drop_last() =~= d.take(k));
        assert(d.take(k + 1).last() == c);
        let digit = (c as u32 - '0' as u32) as u64;
        value = value * 10 + digit;
        assert(value as nat == decimal_value(d.take(k + 1)));
        if value > 4294967295u64 {
            proof {
                if all_decimal_digits(d) {
                    lemma_decimal_value_grows(d, k + 1, d.len() as int);
                    assert(d.take(d.len() as int) =~= d);
                }
            }
            return None;
        }
        i = i + 1;
    }
    assert(d.take(d.len() as int) =~= d);
    Some(value as u32)
}

/// The fields of a `/proc/<pid>/stat` text that follow the command name: the
/// whitespace-separated words after its last `)`, or `None` when it has no `)`.
pub open spec fn stat_fields(stat: Seq<char>) -> Option<Seq<Seq<char>>> {
    let p = last_index_of(stat, ')');
    if p < 0 {
        None
    } else {
        Some(words_of(stat.skip(p + 1)))
    }
}

/// The parent PID recorded in a stat text: the second field after the command name
/// (the first is the state), read as a decimal `u32`.
pub open spec fn ppid_of_stat(stat: Seq<char>) -> Option<u32> {
    match stat_fields(stat) {
        Some(fields) => if fields.len() > 1 {
            parse_u32_spec(fields[1])
        } else {
            None
        },
        None => None,
    }
}

/// The state letter recorded in a stat text: the first character after the command
/// name that is not whitespace.
pub open spec fn state_of_stat(stat: Seq<char>) -> Option<char> {
    match stat_fields(stat) {
        Some(fields) => if fields.len() > 0 {
            Some(fields[0][0])
        } else {
            None
        },
        None => None,
    }
}

/// The fields after the command name of `stat`, as character vectors.
fn fields_after_name(stat: &str) -> (r: Option<Vec<Vec<char>>>)
    ensures
        match r {
            Some(f) => stat_fields(stat@) == Some(seqs_of(f@)),
            None => stat_fields(stat@) is None,
        },
{
    let cs = chars_of(stat);
    proof {
        lemma_last_index_of(cs@, ')');
    }
    match find_last(&cs, ')') {
        Some(p) => {
            let rest = chars_after(&cs, p + 1);
            Some(split_words(&rest))
        },
        None => None,
    }
}

/// Reads the parent PID from the text of a `/proc/<pid>/stat` file, whose form is
/// `pid (comm) state ppid …`. The command name may itself hold parentheses and
/// spaces, so the fields are counted from the last `)`.
pub fn parse_ppid_from_stat(stat: &str) -> (r: Option<u32>)
    ensures
        r == ppid_of_stat(stat@),
{
    match fields_after_name(stat) {
        Some(fields) => {
            if fields.len() > 1 {
                assert(seqs_of(fields@)[1] == fields@[1]@);
                let field = string_of(&fields[1]);
                parse_u32(field.as_str())
            } else {
                None
            }
        },
        None => None,
    }
}

/// Reads the state letter from the text of a `/proc/<pid>/stat` file.
pub fn parse_state_from_stat(stat: &str) -> (r: Option<char>)
    ensures
        r == state_of_stat(stat@),
{
    match fields_after_name(stat) {
        Some(fields) => {
            if fields.len() > 0 {
                proof {
                    let rest_fields = seqs_of(fields@);
                    assert(rest_fields[0] == fields@[0]@);
                    lemma_fields_nonempty(stat@);
                }
                Some(fields[0][0])
            } else {
                None
            }
        },
        None => None,
    }
}

/// Every field of a stat text is non-empty.
proof fn lemma_fields_nonempty(stat: Seq<char>)
    ensures
        stat_fields(stat) matches Some(f) ==> forall|k: int| 0 <= k < f.len() ==> #[trigger] f[k].len() > 0,
{
    let p = last_index_of(stat, ')');
    if p >= 0 {
        lemma_words_shape(stat.skip(p + 1), blanks_of(stat.skip(p + 1)));
    }
}

/// A PID counts as alive when `/proc/<pid>` exists and its stat text, if it could be
/// read, does not record the zombie state `Z`.
pub open spec fn pid_alive_spec(entry_exists: bool, stat: Option<Seq<char>>) -> bool {
    entry_exists && !(stat matches Some(s) && state_of_stat(s) == Some('Z'))
}

/// Decides whether a PID is alive, given whether `/proc/<pid>` exists and the text of
/// `/proc/<pid>/stat` when it could be read: a zombie counts as gone.
pub fn pid_alive(entry_exists: bool, stat: &Option<String>) -> (alive: bool)
    ensures
        alive == pid_alive_spec(
            entry_exists,
            match stat {
                Some(s) => Some(s@),
                None => None,
            },
        ),
{
    if !entry_exists {
        return false;
    }
    match stat {
        Some(s) => {
            let state = parse_state_from_stat(s.as_str());
            !(state == Some('Z'))
        },
        None => true,
    }
}

/// The PIDs named by the entries of a `/proc` listing, in order: the names that read
/// as a decimal `u32`; other entries are skipped.
pub open spec fn listed_pids(names: Seq<Seq<char>>) -> Seq<u32>
    decreases names.len(),
{
    if names.len() == 0 {
        seq![]
    } else {
        let prev = listed_pids(names.drop_last());
        match parse_u32_spec(names.last()) {
            Some(pid) => prev.push(pid),
            None => prev,
        }
    }
}

/// Picks the PIDs out of the entry names of a `/proc` listing.
pub fn pids_in_listing(names: &Vec<String>) -> (pids: Vec<u32>)
    ensures
        pids@ == listed_pids(names@.map_values(|n: String| n@)),
{
    let ghost all = names@.map_values(|n: String| n@);
    let mut pids: Vec<u32> = Vec::new();
    let mut i: usize = 0;
    while i < names.len()
        invariant
            i <= names.len(),
            all == names@.map_values(|n: String| n@),
            pids@ == listed_pids(all.take(i as int)),
        decreases names.len() - i,
    {
        assert(all.take(i + 1).drop_last() =~= all.take(i as int));
        assert(all.take(i + 1).last() == names@[i as int]@);
        match parse_u32(names[i].as_str()) {
            Some(pid) => pids.push(pid),
            None => {},
        }
        i = i + 1;
    }
    assert(all.take(names.len() as int) =~= all);
    pids
}

/// Whether a table row is a child of `parent`: its stat text could be read and
/// records `parent` as parent PID.
pub open spec fn is_child_row(parent: u32, stat: Option<String>) -> bool {
    match stat {
        Some(s) => ppid_of_stat(s@) == Some(parent),
        None => false,
    }
}

/// The PIDs of the rows of `table` (PID and stat text, if readable) that are
/// children of `parent`, in table order.
pub open spec fn children_in(parent: u32, table: Seq<(u32, Option<String>)>) -> Seq<u32>
    decreases table.len(),
{
    if table.len() == 0 {
        seq![]
    } else {
        let prev = children_in(parent, table.drop_last());
        if is_child_row(parent, table.last().1) {
            prev.push(table.last().0)
        } else {
            prev
        }
    }
}

/// Selects, from a snapshot of the process table, the direct children of `parent`.
pub fn children_of(parent: u32, table: &Vec<(u32, Option<String>)>) -> (children: Vec<u32>)
    ensures
        children@ == children_in(parent, table@),
{
    let mut children: Vec<u32> = Vec::new();
    let mut i: usize = 0;
    while i < table.len()
        invariant
            i <= table.len(),
            children@ == children_in(parent, table@.take(i as int)),
        decreases table.len() - i,
    {
        assert(table@.take(i + 1).drop_last() =~= table@.take(i as int));
        let row = &table[i];
        let is_child = match &row.1 {
            Some(stat) => parse_ppid_from_stat(stat.as_str()) == Some(parent),
            None => false,
        };
        if is_child {
            children.push(row.0);
        }
        i = i + 1;
    }
    assert(table@.take(table.len() as int) =~= table@);
    children
}

/// Law: the children of `parent` in a table are exactly the rows whose stat text
/// could be read and records `parent` as parent PID: every such row's PID is
/// selected, and every selected PID is that of such a row.
pub proof fn law_children_complete_and_sound(parent: u32, table: Seq<(u32, Option<String>)>)
    ensures
        forall|i: int|
            0 <= i < table.len() && (#[trigger] table[i]).1 is Some && ppid_of_stat(
                table[i].1->0@,
            ) == Some(parent) ==> children_in(parent, table).contains(table[i].0),
        forall|j: int|
            #![trigger children_in(parent, table)[j]]
            0 <= j < children_in(parent, table).len() ==> exists|i: int|
                0 <= i < table.len() && (#[trigger] table[i]).1 is Some && ppid_of_stat(
                    table[i].1->0@,
                ) == Some(parent) && table[i].0 == children_in(parent, table)[j],
    decreases table.len(),
{
    if table.len() > 0 {
        let prev_table = table.drop_last();
        law_children_complete_and_sound(parent, prev_table);
        let prev = children_in(parent, prev_table);
        let all = children_in(parent, table);
        let last = table.len() - 1;
        assert forall|i: int|
            0 <= i < table.len() && (#[trigger] table[i]).1 is Some && ppid_of_stat(
                table[i].1->0@,
            ) == Some(parent) implies all.contains(table[i].0) by {
            if i < last {
                assert(table[i] == prev_table[i]);
                assert(prev.contains(table[i].0));
                let k = choose|k: int| 0 <= k < prev.len() && prev[k] == table[i].0;
                assert(all[k] == prev[k]);
            } else {
                assert(all[all.len() - 1] == table[i].0);
            }
        }
        assert forall|j: int| #![trigger all[j]] 0 <= j < all.len() implies exists|i: int|
            0 <= i < table.len() && (#[trigger] table[i]).1 is Some && ppid_of_stat(
                table[i].1->0@,
            ) == Some(parent) && table[i].0 == all[j] by {
            if j < prev.len() {
                assert(all[j] == prev[j]);
                let i = choose|i: int|
                    0 <= i < prev_table.len() && (#[trigger] prev_table[i]).1 is Some
                        && ppid_of_stat(prev_table[i].1->0@) == Some(parent) && prev_table[i].0 == prev[j];
                assert(table[i] == prev_table[i]);
            } else {
                assert(table[last].0 == all[j]);
            }
        }
    }
}

/// Law: each child row of the table is selected once: there are as many children
/// as rows whose stat text records `parent` as parent PID.
pub proof fn law_children_counted_once(parent: u32, table: Seq<(u32, Option<String>)>)
    ensures
        children_in(parent, table).len() == table.filter(
            |r: (u32, Option<String>)| r.1 is Some && ppid_of_stat(r.1->0@) == Some(parent),
        ).len(),
    decreases table.len(),
{
    reveal(Seq::filter);
    if table.len() > 0 {
        law_children_counted_once(parent, table.drop_last());
    }
}

/// Law: an existing PID counts as dead only when its stat text records the zombie
/// state `Z`. A running (`R`), sleeping (`S`) or otherwise busy process is alive, as
/// is one whose stat text could not be read or has no state; a PID without a
/// `/proc` entry is dead.
pub proof fn law_alive_unless_gone_or_zombie(entry_exists: bool, stat: Option<Seq<char>>)
    ensures
        !entry_exists ==> !pid_alive_spec(entry_exists, stat),
        entry_exists && stat is None ==> pid_alive_spec(entry_exists, stat),
        entry_exists && stat is Some && state_of_stat(stat->0) != Some('Z') ==> pid_alive_spec(
            entry_exists,
            stat,
        ),
        stat is Some && state_of_stat(stat->0) == Some('Z') ==> !pid_alive_spec(
            entry_exists,
            stat,
        ),
{
}

/// Law: a listing's PIDs are exactly the entry names that read as a decimal `u32`,
/// in order: every such name yields its number, and every PID comes from one.
pub proof fn law_listed_pids_complete_and_sound(names: Seq<Seq<char>>)
    ensures
        forall|i: int|
            0 <= i < names.len() && parse_u32_spec(#[trigger] names[i]) is Some ==> listed_pids(
                names,
            ).contains(parse_u32_spec(names[i])->0),
        forall|j: int|
            #![trigger listed_pids(names)[j]]
            0 <= j < listed_pids(names).len() ==> exists|i: int|
                0 <= i < names.len() && parse_u32_spec(#[trigger] names[i]) == Some(
                    listed_pids(names)[j],
                ),
        listed_pids(names).len() <= names.len(),
    decreases names.len(),
{
    if names.len() > 0 {
        let prev_names = names.drop_last();
        law_listed_pids_complete_and_sound(prev_names);
        let prev = listed_pids(prev_names);
        let all = listed_pids(names);
        let last = names.len() - 1;
        assert forall|i: int|
            0 <= i < names.len() && parse_u32_spec(#[trigger] names[i]) is Some implies all.contains(
                parse_u32_spec(names[i])->0,
            ) by {
            if i < last {
                assert(names[i] == prev_names[i]);
                let k = choose|k: int| 0 <= k < prev.len() && prev[k] == parse_u32_spec(names[i])->0;
                assert(all[k] == prev[k]);
            } else {
                assert(all[all.len() - 1] == parse_u32_spec(names[i])->0);
            }
        }
        assert forall|j: int| #![trigger all[j]] 0 <= j < all.len() implies exists|i: int|
            0 <= i < names.len() && parse_u32_spec(#[trigger] names[i]) == Some(all[j]) by {
            if j < prev.len() {
                assert(all[j] == prev[j]);
                let i = choose|i: int|
                    0 <= i < prev_names.len() && parse_u32_spec(#[trigger] prev_names[i]) == Some(
                        prev[j],
                    );
                assert(names[i] == prev_names[i]);
            } else {
                assert(parse_u32_spec(names[last]) == Some(all[j]));
            }
        }
    }
}

/// `last_index_of` over a text that ends in `c` followed by a tail without `c`.
proof fn lemma_last_index_after(head: Seq<char>, c: char, tail: Seq<char>)
    requires
        forall|j: int| 0 <= j < tail.len() ==> tail[j] != c,
    ensures
        last_index_of(head + seq![c] + tail, c) == head.len(),
    decreases tail.len(),
{
    let s = head + seq![c] + tail;
    if tail.len() == 0 {
        assert(s.last() == c);
    } else {
        assert(s.last() == tail.last());
        assert(s.drop_last() =~= head + seq![c] + tail.drop_last());
        lemma_last_index_after(head, c, tail.drop_last());
    }
}

/// Law: the fields of a stat text are read after the last `)`, so whatever the
/// command name holds (parentheses, spaces, digits), the parent PID is the second
/// whitespace-separated field of the text after the `)` that closes it.
pub proof fn law_ppid_ignores_command_name(head: Seq<char>, tail: Seq<char>)
    requires
        forall|j: int| 0 <= j < tail.len() ==> tail[j] != ')',
    ensures
        ppid_of_stat(head + seq![')'] + tail) == (if words_of(tail).len() > 1 {
            parse_u32_spec(words_of(tail)[1])
        } else {
            None
        }),
        state_of_stat(head + seq![')'] + tail) == (if words_of(tail).len() > 0 {
            Some(words_of(tail)[0][0])
        } else {
            None
        }),
{
    let s = head + seq![')'] + tail;
    lemma_last_index_after(head, ')', tail);
    assert(s.skip(head.len() as int + 1) =~= tail);
}

} // verus!
