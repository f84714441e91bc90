//! Which upstream channel a command works on.
//!
//! A flag on the command line decides; without one the channel that was
//! recorded for the component does; without either the user is asked, and
//! the answer is recorded, so that it holds for the commands that follow.

use vstd::prelude::*;

use crate::config::{with_source, CliConfig, ComponentRecord, SourceKind};

verus! {

/// What the flags and the recorded state come to.
#[derive(Clone, Copy, Debug, PartialEq, Eq, Structural)]
pub enum SourceDecision {
    /// Both flags were given: the command is refused and nothing happens.
    Conflict,
    /// The command works on this channel.
    Resolved(SourceKind),
    /// Nothing decides: the user is to be asked.
    Ask,
}

/// What the flags `git` and `release` and the recorded channel come to:
/// both flags are a conflict; one flag decides, whatever is recorded; without
/// a flag the recorded channel decides; without either the user is asked.
pub open spec fn resolved(git: bool, release: bool, saved: Option<SourceKind>) -> SourceDecision {
    if git && release {
        SourceDecision::Conflict
    } else if git {
        SourceDecision::Resolved(SourceKind::Git)
    } else if release {
        SourceDecision::Resolved(SourceKind::Release)
    } else {
        match saved {
            Some(kind) => SourceDecision::Resolved(kind),
            None => SourceDecision::Ask,
        }
    }
}

/// The channel recorded for `component` in `m`, if anything is recorded
/// about the component.
pub open spec fn saved_source(m: Map<Seq<char>, ComponentRecord>, component: Seq<char>) -> Option<
    SourceKind,
> {
    if m.contains_key(component) {
        Some(m[component].source)
    } else {
        None
    }
}

/// A single flag wins over whatever is recorded, and both flags together are
/// refused whatever is recorded.
pub proof fn lemma_flags_take_precedence(saved: Option<SourceKind>)
    ensures
        resolved(true, false, saved) == SourceDecision::Resolved(SourceKind::Git),
        resolved(false, true, saved) == SourceDecision::Resolved(SourceKind::Release),
        resolved(true, true, saved) == SourceDecision::Conflict,
{
}

/// Once a channel is recorded for a component, commands without a flag work
/// on it.
pub proof fn lemma_choice_is_sticky(
    m: Map<Seq<char>, ComponentRecord>,
    component: Seq<char>,
    chosen: SourceKind,
)
    ensures
        resolved(false, false, saved_source(with_source(m, component, chosen), component))
            == SourceDecision::Resolved(chosen),
{
}

/// The exit status of a command that was refused for conflicting flags.
pub open spec fn conflict_exit_code() -> int {
    2
}

/// The channel for a command on `component`, from the flags and the
/// recorded state. The state is only read.
pub fn resolve_source(component: &str, git: bool, release: bool, cfg: &CliConfig) -> (r:
    SourceDecision)
    ensures
        r == resolved(git, release, saved_source(cfg@, component@)),
{
    if git && release {
        return SourceDecision::Conflict;
    }
    if git {
        return SourceDecision::Resolved(SourceKind::Git);
    }
    if release {
        return SourceDecision::Resolved(SourceKind::Release);
    }
    match cfg.get_component_source(component) {
        Some(saved) => SourceDecision::Resolved(saved),
        None => SourceDecision::Ask,
    }
}

/// The channel that an answer of the user stands for. The choices are
/// offered in the order release, git; `None` means that the user could not
/// be asked or gave no answer, which counts as release.
pub open spec fn chosen_source(selection: Option<usize>) -> SourceKind {
    if selection == Some(1usize) {
        SourceKind::Git
    } else {
        SourceKind::Release
    }
}

/// The names of the choices, in the order in which they are offered; the
/// first is the default.
pub fn source_choices() -> (r: [&'static str; 2])
    ensures
        r@.len() == 2,
        r@[0]@ == SourceKind::Release.spec_name(),
        r@[1]@ == SourceKind::Git.spec_name(),
{
    [SourceKind::Release.name(), SourceKind::Git.name()]
}

/// Records the channel that the user's answer stands for as the channel of
/// `component`, and returns it.
pub fn prompt_and_persist_choice(
    component: &str,
    selection: Option<usize>,
    cfg: &mut CliConfig,
) -> (r: SourceKind)
    ensures
        r == chosen_source(selection),
        final(cfg)@ == with_source(old(cfg)@, component@, chosen_source(selection)),
{
    let chosen = match selection {
        Some(index) => if index == 1 {
            SourceKind::Git
        } else {
            SourceKind::Release
        },
        None => SourceKind::Release,
    };
    cfg.set_component_source(component, chosen);
    chosen
}

/// The exit status of a command that was refused for conflicting flags.
pub fn conflict_exit_status() -> (r: i32)
    ensures
        r == conflict_exit_code(),
{
    2
}

} // verus!
