//! What an interrupt has to clean up.
//!
//! While a build runs, its container and the directory with the unpacked
//! source would outlive an interrupted program. They are kept on record here,
//! for the handler of the interrupt to kill the one and remove the other.

use vstd::prelude::*;

use crate::text::{opt_text, push_all, texts};

verus! {

/// What is there to clean up. `Text` and `Words` are `String` and
/// `Vec<String>` at run time; in contracts they are the sequences that these
/// hold.
#[verifier::ext_equal]
#[derive(Debug, Clone)]
pub struct State<Text = String, Words = Vec<String>> {
    /// The command that kills the running container.
    pub container_kill: Option<Words>,
    /// The directory with the unpacked source.
    pub tempdir: Option<Text>,
    /// Whether the directory is to be kept.
    pub keep: bool,
}

/// The contents of an optional command.
pub open spec fn opt_words(argv: Option<Vec<String>>) -> Option<Seq<Seq<char>>> {
    match argv {
        Some(argv) => Some(texts(argv@)),
        None => None,
    }
}

impl View for State {
    type V = State<Seq<char>, Seq<Seq<char>>>;

    open spec fn view(&self) -> State<Seq<char>, Seq<Seq<char>>> {
        State {
            container_kill: opt_words(self.container_kill),
            tempdir: opt_text(self.tempdir),
            keep: self.keep,
        }
    }
}

/// The state in which there is nothing to clean up.
pub open spec fn clean() -> State<Seq<char>, Seq<Seq<char>>> {
    State { container_kill: None, tempdir: None, keep: false }
}

impl Default for State {
    fn default() -> (state: State)
        ensures
            state@ == clean(),
    {
        State { container_kill: None, tempdir: None, keep: false }
    }
}

impl State<Seq<char>, Seq<Seq<char>>> {
    /// The state after a directory was recorded.
    pub open spec fn with_tempdir(self, path: Seq<char>, keep: bool) -> Self {
        State { tempdir: Some(path), keep, ..self }
    }

    /// The state after a container was recorded.
    pub open spec fn with_container(self, argv: Seq<Seq<char>>) -> Self {
        State { container_kill: Some(argv), ..self }
    }

    /// The state after the container has ended.
    pub open spec fn without_container(self) -> Self {
        State { container_kill: None, ..self }
    }
}

/// Records the directory with the unpacked source, and whether to keep it.
pub fn set_tempdir(state: &mut State, path: String, keep: bool)
    ensures
        final(state)@ == old(state)@.with_tempdir(path@, keep),
{
    state.tempdir = Some(path);
    state.keep = keep;
}

/// Records the command that kills the container that is about to run.
pub fn set_container(state: &mut State, kill_argv: Vec<String>)
    ensures
        final(state)@ == old(state)@.with_container(texts(kill_argv@)),
{
    state.container_kill = Some(kill_argv);
}

/// Forgets the container, which has ended.
pub fn clear_container(state: &mut State)
    ensures
        final(state)@ == old(state)@.without_container(),
{
    state.container_kill = None;
}

/// What to do on an interrupt: the command to run, and the directory to
/// remove.
pub struct Cleanup {
    pub kill: Option<Vec<String>>,
    pub remove: Option<String>,
}

/// The command to run on an interrupt.
pub open spec fn kill_of(state: State<Seq<char>, Seq<Seq<char>>>) -> Option<Seq<Seq<char>>> {
    match state.container_kill {
        Some(argv) if argv.len() > 0 => Some(argv),
        _ => None,
    }
}

/// The directory to remove on an interrupt.
pub open spec fn removal_of(state: State<Seq<char>, Seq<Seq<char>>>) -> Option<Seq<char>> {
    if state.keep {
        None
    } else {
        state.tempdir
    }
}

/// Decides what to do on an interrupt: the running container is killed, and
/// the directory with the unpacked source is removed unless it is to be kept.
pub fn run(state: &State) -> (r: Cleanup)
    ensures
        opt_words(r.kill) == kill_of(state@),
        opt_text(r.remove) == removal_of(state@),
{
    let kill: Option<Vec<String>> = match &state.container_kill {
        Some(argv) => {
            if argv.len() > 0 {
                let mut copy: Vec<String> = Vec::new();
                push_all(&mut copy, argv);
                assert(texts(copy@) =~= texts(argv@));
                Some(copy)
            } else {
                None
            }
        },
        None => None,
    };
    let remove: Option<String> = if state.keep {
        None
    } else {
        match &state.tempdir {
            Some(path) => Some(path.clone()),
            None => None,
        }
    };
    Cleanup { kill, remove }
}

/// A container that has ended is not killed, whatever was recorded before.
pub proof fn law_ended_container_is_left_alone(state: State<Seq<char>, Seq<Seq<char>>>)
    ensures
        kill_of(state.without_container()) is None,
        removal_of(state.without_container()) == removal_of(state),
{
}

/// A container that is recorded is killed by its own command, and recording it
/// does not change which directory is removed.
pub proof fn law_recorded_container_is_killed(
    state: State<Seq<char>, Seq<Seq<char>>>,
    argv: Seq<Seq<char>>,
)
    requires
        argv.len() > 0,
    ensures
        kill_of(state.with_container(argv)) == Some(argv),
        removal_of(state.with_container(argv)) == removal_of(state),
{
}

/// A directory that is recorded is removed, unless it is to be kept.
pub proof fn law_recorded_directory_is_removed(
    state: State<Seq<char>, Seq<Seq<char>>>,
    path: Seq<char>,
    keep: bool,
)
    ensures
        removal_of(state.with_tempdir(path, keep)) == if keep {
            None
        } else {
            Some(path)
        },
        kill_of(state.with_tempdir(path, keep)) == kill_of(state),
{
}

/// Once the container has ended, an interrupt kills nothing, and what was recorded
/// of the directory stays, whether it was recorded before the container or after
/// it. That the container ends a second time changes nothing, and another
/// container is recorded anew.
pub proof fn law_ended_container_is_forgotten(
    state: State<Seq<char>, Seq<Seq<char>>>,
    path: Seq<char>,
    keep: bool,
    argv: Seq<Seq<char>>,
    other: Seq<Seq<char>>,
)
    requires
        other.len() > 0,
    ensures
        state.with_tempdir(path, keep).with_container(argv) == state.with_container(
            argv,
        ).with_tempdir(path, keep),
        ({
            let ended = state.with_tempdir(path, keep).with_container(argv).without_container();
            &&& kill_of(ended) is None
            &&& removal_of(ended) == if keep {
                None
            } else {
                Some(path)
            }
            &&& ended.tempdir == Some(path)
            &&& ended.keep == keep
            &&& ended.without_container() == ended
            &&& kill_of(ended.with_container(other)) == Some(other)
            &&& removal_of(ended.with_container(other)) == removal_of(ended)
        }),
{
}

/// Where nothing is on record, and where the command to kill a container has no
/// words, there is nothing to do on an interrupt.
pub proof fn law_nothing_to_clean_up(state: State<Seq<char>, Seq<Seq<char>>>, keep: bool)
    ensures
        kill_of(clean()) is None,
        removal_of(clean()) is None,
        kill_of(state.with_container(Seq::empty())) is None,
        state.tempdir is None ==> removal_of(state) is None,
        state.with_container(Seq::empty()).tempdir == state.tempdir,
        state.with_tempdir(Seq::empty(), keep).container_kill == state.container_kill,
{
}

/// The contents of a state are those of its command and its directory, each where
/// there is one.
pub proof fn law_contents_of_a_state(state: State, argv: Vec<String>)
    ensures
        opt_words(Some(argv)) == Some(texts(argv@)),
        opt_words(None) is None,
        state@.container_kill == opt_words(state.container_kill),
        state@.tempdir == opt_text(state.tempdir),
        state@.keep == state.keep,
{
}

} // verus!
