//! How a command line is turned into a process name and a launch plan.
use vstd::prelude::*;
use crate::errors::ManagerError;
use pmdaemon::ProcessConfig;
use crate::text::{
    append_chars, ascii_lower_char, ascii_lowercase, blanks_of, char_is_alphanumeric,
    char_is_whitespace, chars_of, is_alphanumeric, is_ascii_alphanumeric, is_ascii_char,
    is_ascii_text, keep_marked, kept_where, lemma_kept_satisfy, lemma_words_ascii,
    lemma_words_leading_whitespace, lemma_words_shape, lemma_words_trailing_whitespace, seqs_of,
    split_words, str_to_lowercase, string_of, strings_from, texts_of, to_lowercase, words_of,
};

verus! {

/// A word that the process name leaves out: one that starts with `-`, an option.
pub open spec fn is_option_word(w: Seq<char>) -> bool {
    w.len() > 0 && w[0] == '-'
}

/// Of the first two of the words `ws`, those that are not options, in order.
pub open spec fn name_words(ws: Seq<Seq<char>>) -> Seq<Seq<char>> {
    let first = if ws.len() > 0 && !is_option_word(ws[0]) {
        seq![ws[0]]
    } else {
        Seq::<Seq<char>>::empty()
    };
    let second = if ws.len() > 1 && !is_option_word(ws[1]) {
        seq![ws[1]]
    } else {
        Seq::<Seq<char>>::empty()
    };
    first + second
}

/// `parts` joined with `sep` between neighbours.
pub open spec fn join_with(parts: Seq<Seq<char>>, sep: char) -> Seq<char>
    decreases parts.len(),
{
    if parts.len() == 0 {
        seq![]
    } else if parts.len() == 1 {
        parts[0]
    } else {
        join_with(parts.drop_last(), sep) + seq![sep] + parts.last()
    }
}

/// The name before clean-up, from the words of a command line: the name words
/// joined by `_`, or `proc` when there are none.
pub open spec fn raw_name_of(ws: Seq<Seq<char>>) -> Seq<char> {
    if name_words(ws).len() == 0 {
        "proc"@
    } else {
        join_with(name_words(ws), '_')
    }
}

/// A character that may stand in a process name: alphanumeric, or `_`.
pub open spec fn is_name_char(c: char) -> bool {
    char_is_alphanumeric(c) || c == '_'
}

/// For each character of `s`, whether it may stand in a process name.
pub open spec fn name_marks(s: Seq<char>) -> Seq<bool> {
    s.map_values(|c: char| is_name_char(c))
}

/// The characters of `s` that may stand in a process name, in order.
pub open spec fn name_chars(s: Seq<char>) -> Seq<char> {
    kept_where(s, name_marks(s))
}

/// An ASCII character that may stand in a process name: an ASCII letter or digit,
/// or `_`.
pub open spec fn is_ascii_name_char(c: char) -> bool {
    is_ascii_alphanumeric(c) || c == '_'
}

/// A character of a process name generated from an ASCII command line: `a`–`z`,
/// `0`–`9` or `_`.
pub open spec fn is_ascii_id_char(c: char) -> bool {
    ('a' <= c && c <= 'z') || ('0' <= c && c <= '9') || c == '_'
}

/// The process name of an ASCII command line: the ASCII letters, digits and `_` of
/// its raw name, with `A`–`Z` mapped to `a`–`z`.
pub open spec fn ascii_process_id_of(cmd: Seq<char>) -> Seq<char> {
    let raw = raw_name_of(words_of(cmd));
    ascii_lowercase(kept_where(raw, raw.map_values(|c: char| is_ascii_name_char(c))))
}

/// The process name given to `cmd`: the lower-cased name characters of its raw name.
pub open spec fn process_id_of(cmd: Seq<char>) -> Seq<char> {
    str_to_lowercase(name_chars(raw_name_of(words_of(cmd))))
}

/// Marks the characters of `s` that may stand in a process name.
pub fn name_char_marks(s: &Vec<char>) -> (m: Vec<bool>)
    ensures
        m@ == name_marks(s@),
        forall|i: int|
            0 <= i < s@.len() && is_ascii_char(s@[i]) ==> #[trigger] m@[i] == is_ascii_name_char(
                s@[i],
            ),
{
    let mut m: Vec<bool> = Vec::new();
    let mut i: usize = 0;
    while i < s.len()
        invariant
            i <= s.len(),
            m@ == name_marks(s@.take(i as int)),
            forall|k: int|
                0 <= k < i && is_ascii_char(s@[k]) ==> #[trigger] m@[k] == is_ascii_name_char(s@[k]),
        decreases s.len() - i,
    {
        let c = s[i];
        m.push(c == '_' || is_alphanumeric(c));
        i = i + 1;
        assert(m@ =~= name_marks(s@.take(i as int)));
    }
    assert(s@.take(s.len() as int) =~= s@);
    m
}

/// The raw process name for a command line split into `words`: its first two
/// words that are not options, joined by `_`, or `proc` when there are none.
pub fn raw_name_from_words(words: &Vec<Vec<char>>) -> (raw: Vec<char>)
    ensures
        raw@ == raw_name_of(seqs_of(words@)),
{
    let ghost ws = seqs_of(words@);
    let mut parts: Vec<Vec<char>> = Vec::new();
    if words.len() > 0 && !(words[0].len() > 0 && words[0][0] == '-') {
        let mut w: Vec<char> = Vec::new();
        append_chars(&mut w, &words[0]);
        parts.push(w);
    }
    if words.len() > 1 && !(words[1].len() > 0 && words[1][0] == '-') {
        let mut w: Vec<char> = Vec::new();
        append_chars(&mut w, &words[1]);
        parts.push(w);
    }
    assert(seqs_of(parts@) =~= name_words(ws)) by {
        if ws.len() > 0 {
            assert(ws[0] == words@[0]@);
        }
        if ws.len() > 1 {
            assert(ws[1] == words@[1]@);
        }
    }
    let mut raw: Vec<char> = Vec::new();
    if parts.len() == 0 {
        let p = chars_of("proc");
        append_chars(&mut raw, &p);
    } else {
        append_chars(&mut raw, &parts[0]);
        if parts.len() == 2 {
            raw.push('_');
            append_chars(&mut raw, &parts[1]);
        }
    }
    assert(raw@ =~= raw_name_of(ws)) by {
        let nw = name_words(ws);
        if nw.len() == 2 {
            assert(nw.drop_last().drop_last() =~= Seq::<Seq<char>>::empty());
            assert(join_with(nw.drop_last(), '_') == nw[0]);
        }
    }
    raw
}

/// Derives a process name from a command line: the first two words that are not
/// options (`-…`), joined by `_` (or `proc` if there are none), stripped of every
/// character that is neither alphanumeric nor `_`, and lower-cased.
pub fn generate_process_id(command: &str) -> (id: String)
    ensures
        id@ == process_id_of(command@),
        is_ascii_text(command@) ==> id@ == ascii_process_id_of(command@),
        is_ascii_text(command@) ==> forall|i: int|
            0 <= i < id@.len() ==> is_ascii_id_char(#[trigger] id@[i]),
{
    let cs = chars_of(command);
    let words = split_words(&cs);
    let raw = raw_name_from_words(&words);
    let marks = name_char_marks(&raw);
    let kept = keep_marked(&raw, &marks);
    let base = string_of(&kept);
    proof {
        if is_ascii_text(command@) {
            lemma_raw_name_ascii(command@);
            let ascii_marks = raw@.map_values(|c: char| is_ascii_name_char(c));
            assert(marks@ =~= ascii_marks) by {
                assert forall|i: int| 0 <= i < raw@.len() implies marks@[i] == ascii_marks[i] by {
                    assert(is_ascii_char(raw@[i]));
                }
            }
            lemma_kept_satisfy(raw@, marks@, |c: char| is_ascii_name_char(c));
            assert(is_ascii_text(base@)) by {
                assert forall|i: int| 0 <= i < base@.len() implies is_ascii_char(#[trigger] base@[i]) by {
                    assert(is_ascii_name_char(kept@[i]));
                }
            }
        }
    }
    let id = to_lowercase(base.as_str());
    proof {
        if is_ascii_text(command@) {
            assert forall|i: int| 0 <= i < id@.len() implies is_ascii_id_char(#[trigger] id@[i]) by {
                assert(is_ascii_name_char(kept@[i]));
                assert(id@[i] == ascii_lower_char(kept@[i]));
            }
        }
    }
    id
}

/// The raw name of an ASCII command line is ASCII.
proof fn lemma_raw_name_ascii(cmd: Seq<char>)
    requires
        is_ascii_text(cmd),
    ensures
        is_ascii_text(raw_name_of(words_of(cmd))),
{
    let ws = words_of(cmd);
    lemma_words_ascii(cmd, blanks_of(cmd));
    let nw = name_words(ws);
    assert forall|k: int| 0 <= k < nw.len() implies is_ascii_text(#[trigger] nw[k]) by {
        if ws.len() > 0 && !is_option_word(ws[0]) {
            assert(is_ascii_text(ws[0]));
        }
        if ws.len() > 1 {
            assert(is_ascii_text(ws[1]));
        }
    }
    let raw = raw_name_of(ws);
    if nw.len() == 0 {
        reveal_strlit("proc");
        assert(is_ascii_char('p') && is_ascii_char('r') && is_ascii_char('o') && is_ascii_char('c'));
    } else if nw.len() == 1 {
        assert(raw == nw[0]);
    } else {
        assert(nw.drop_last().len() == 1);
        assert(join_with(nw.drop_last(), '_') == nw[0]);
        assert(raw == nw[0] + seq!['_'] + nw[1]);
        assert forall|i: int| 0 <= i < raw.len() implies is_ascii_char(#[trigger] raw[i]) by {
            if i < nw[0].len() {
                assert(raw[i] == nw[0][i]);
            } else if i > nw[0].len() {
                assert(raw[i] == nw[1][i - nw[0].len() - 1]);
            }
        }
    }
}

/// Law: the name of a process depends on the first two words of its command line
/// only; what follows them never changes it.
pub proof fn law_name_from_first_two_words(cmd1: Seq<char>, cmd2: Seq<char>)
    requires
        words_of(cmd1).len() >= 2,
        words_of(cmd2).len() >= 2,
        words_of(cmd1)[0] == words_of(cmd2)[0],
        words_of(cmd1)[1] == words_of(cmd2)[1],
    ensures
        process_id_of(cmd1) == process_id_of(cmd2),
{
    assert(name_words(words_of(cmd1)) =~= name_words(words_of(cmd2)));
}

/// Law: whitespace around a command line does not change the name of its process.
pub proof fn law_name_ignores_surrounding_whitespace(c: char, cmd: Seq<char>)
    requires
        char_is_whitespace(c),
    ensures
        process_id_of(seq![c] + cmd) == process_id_of(cmd),
        process_id_of(cmd.push(c)) == process_id_of(cmd),
{
    lemma_words_leading_whitespace(c, cmd);
    lemma_words_trailing_whitespace(c, cmd);
}

/// Law: options among the first two words are left out of the name, and a command
/// line whose first two words are both options (or that has no word) is named from
/// `proc`.
pub proof fn law_name_skips_options(ws: Seq<Seq<char>>)
    ensures
        ws.len() == 0 ==> raw_name_of(ws) == "proc"@,
        ws.len() >= 2 && is_option_word(ws[0]) && is_option_word(ws[1]) ==> raw_name_of(ws)
            == "proc"@,
        ws.len() >= 2 && is_option_word(ws[0]) && !is_option_word(ws[1]) ==> raw_name_of(ws)
            == ws[1],
        ws.len() >= 2 && !is_option_word(ws[0]) && is_option_word(ws[1]) ==> raw_name_of(ws)
            == ws[0],
        ws.len() >= 2 && !is_option_word(ws[0]) && !is_option_word(ws[1]) ==> raw_name_of(ws)
            == ws[0] + seq!['_'] + ws[1],
{
    if ws.len() >= 2 {
        if is_option_word(ws[0]) && !is_option_word(ws[1]) {
            assert(name_words(ws) =~= seq![ws[1]]);
        }
        if !is_option_word(ws[0]) && is_option_word(ws[1]) {
            assert(name_words(ws) =~= seq![ws[0]]);
        }
        if is_option_word(ws[0]) && is_option_word(ws[1]) {
            assert(name_words(ws) =~= Seq::<Seq<char>>::empty());
        }
        if !is_option_word(ws[0]) && !is_option_word(ws[1]) {
            let nw = name_words(ws);
            assert(nw =~= seq![ws[0], ws[1]]);
            assert(nw.drop_last() =~= seq![ws[0]]);
            assert(join_with(nw.drop_last(), '_') == ws[0]);
            assert(nw.last() == ws[1]);
        }
    } else if ws.len() == 0 {
        assert(name_words(ws) =~= Seq::<Seq<char>>::empty());
    }
}

/// The launch configuration type of the process daemon.
#[verifier::external_type_specification]
#[verifier::external_body]
pub struct ExProcessConfig(pmdaemon::ProcessConfig);

/// The error type of the process daemon.
#[verifier::external_type_specification]
#[verifier::external_body]
pub struct ExDaemonError(pmdaemon::Error);

/// The plain values a process is launched with by the daemon.
pub struct LaunchSpec {
    /// The process name.
    pub name: String,
    /// The program to execute.
    pub script: String,
    /// Its arguments.
    pub args: Vec<String>,
    /// Whether the daemon restarts the process when it exits.
    pub autorestart: bool,
    /// How many restarts the daemon may make.
    pub max_restarts: u32,
}

/// What a daemon configuration holds of a launch: its `name`, `script`, `args`,
/// `autorestart` and `max_restarts` fields, as plain values.
pub uninterp spec fn config_values(config: ProcessConfig) -> (
    Seq<char>,
    Seq<char>,
    Seq<Seq<char>>,
    bool,
    u32,
);

/// The values of a launch record, in the order of `config_values`.
pub open spec fn launch_values(launch: LaunchSpec) -> (
    Seq<char>,
    Seq<char>,
    Seq<Seq<char>>,
    bool,
    u32,
) {
    (launch.name@, launch.script@, texts_of(launch.args@), launch.autorestart, launch.max_restarts)
}

/// Converts `launch` into the daemon's configuration, one field for one: calls
/// `ProcessConfig::builder()` with its name, script and arguments, then `build()`
/// (which refuses exactly when the name or the script is empty, and otherwise
/// copies them into `name`, `script` and `args`), and sets the built
/// configuration's `autorestart` and `max_restarts` from it. The configuration's
/// other fields keep the builder's defaults and are not stated.
#[verifier::external_body]
fn launch_config(launch: &LaunchSpec) -> (r: Result<ProcessConfig, pmdaemon::Error>)
    ensures
        r is Ok <==> (launch.name@.len() > 0 && launch.script@.len() > 0),
        r matches Ok(c) ==> config_values(c) == launch_values(*launch),
{
    let built = ProcessConfig::builder().name(launch.name.clone()).script(
        launch.script.clone(),
    ).args(launch.args.clone()).build();
    match built {
        Ok(mut config) => {
            config.autorestart = launch.autorestart;
            config.max_restarts = launch.max_restarts;
            Ok(config)
        },
        Err(e) => Err(e),
    }
}

/// What a `run` request is launched with.
pub struct RunPlan {
    /// The process name.
    pub process_id: String,
    /// The command line, as given.
    pub command: String,
    /// What the daemon is asked to launch.
    pub launch: LaunchSpec,
}

/// What `command` is launched with: the generated name, its first word as the
/// program, the other words as arguments, and no automatic restart, so that a
/// failing start is seen at once.
pub open spec fn launches_command(launch: LaunchSpec, command: Seq<char>) -> bool {
    &&& launch.name@ == process_id_of(command)
    &&& launch.script@ == words_of(command)[0]
    &&& texts_of(launch.args@) == words_of(command).skip(1)
    &&& !launch.autorestart
    &&& launch.max_restarts == 0
}

/// Law: a launch of a command runs its words: the program followed by the
/// arguments gives back every word of the command line, in order, and the daemon
/// never restarts it; the process is named from the same command line.
pub proof fn law_launch_runs_the_words(launch: LaunchSpec, command: Seq<char>)
    requires
        words_of(command).len() > 0,
        launches_command(launch, command),
    ensures
        seq![launch.script@] + texts_of(launch.args@) == words_of(command),
        texts_of(launch.args@).len() + 1 == words_of(command).len(),
        !launch.autorestart,
        launch.max_restarts == 0,
        launch.name@ == process_id_of(command),
{
    let ws = words_of(command);
    assert(seq![launch.script@] + texts_of(launch.args@) =~= ws);
}

/// Prepares the launch of `command`: its first word is the program, the other
/// words its arguments, the process is named by `generate_process_id`, and
/// automatic restarts are off. Fails with `EmptyCommand` exactly when the command
/// holds no word.
pub fn prepare_run(command: &str) -> (r: Result<RunPlan, ManagerError>)
    ensures
        r is Err <==> words_of(command@).len() == 0,
        r is Err ==> r matches Err(ManagerError::EmptyCommand),
        r matches Ok(plan) ==> {
            &&& plan.process_id@ == process_id_of(command@)
            &&& plan.command@ == command@
            &&& launches_command(plan.launch, command@)
            &&& plan.launch.script@.len() > 0
        },
{
    let cs = chars_of(command);
    let words = split_words(&cs);
    if words.len() == 0 {
        return Err(ManagerError::EmptyCommand);
    }
    proof {
        lemma_words_shape(cs@, blanks_of(cs@));
        assert(seqs_of(words@)[0] == words@[0]@);
    }
    let process_id = generate_process_id(command);
    let launch = LaunchSpec {
        name: process_id.clone(),
        script: string_of(&words[0]),
        args: strings_from(&words, 1),
        autorestart: false,
        max_restarts: 0,
    };
    Ok(RunPlan { process_id, command: String::from_str(command), launch })
}

impl RunPlan {
    /// The daemon configuration this plan launches, converted from `launch` by the
    /// daemon's configuration builder. Fails with `InvalidConfig` exactly when the
    /// builder refuses it: when the name or the program is empty.
    pub fn daemon_config(&self) -> (r: Result<ProcessConfig, ManagerError>)
        ensures
            r is Ok <==> (self.launch.name@.len() > 0 && self.launch.script@.len() > 0),
            r matches Ok(c) ==> config_values(c) == launch_values(self.launch),
            r is Err ==> r matches Err(ManagerError::InvalidConfig),
    {
        match launch_config(&self.launch) {
            Ok(config) => Ok(config),
            Err(_) => Err(ManagerError::InvalidConfig),
        }
    }
}

/// Law: the launch of a command that holds a word is refused exactly when the
/// name generated from it is empty (the program, a word, never is).
pub proof fn law_launch_refused_iff_name_empty(launch: LaunchSpec, command: Seq<char>)
    requires
        words_of(command).len() > 0,
        launches_command(launch, command),
    ensures
        (launch.name@.len() > 0 && launch.script@.len() > 0) <==> process_id_of(command).len()
            > 0,
{
    lemma_words_shape(command, blanks_of(command));
}

} // verus!
