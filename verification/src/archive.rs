//! Putting an unpacked archive in place.
//!
//! A downloaded archive wraps its content in one top-level directory. The
//! archive is never unpacked in the target itself: it is unpacked in a
//! staging directory, where the content is hoisted out of the wrapper, and
//! only then does the staged content take the target's place. A target of
//! the caller's own is swapped by renaming, with what it held set aside until
//! the new content is in place; a target of the system is replaced by one
//! command that the privilege helper runs. Unpacking, listing, moving and
//! renaming are the caller's part; this module decides what the wrapper is,
//! which steps are gone through in which order, which of them are taken
//! after a failure, and what the helper is told.

use vstd::prelude::*;
use vstd::string::StringExecFns;

use crate::paths::{needs_elevation, path_join, path_joined, under_system_root};
use crate::shell::{quoted, shell_quote};
use crate::text::{
    chars_of, copy_of, lemma_trim_end_char, str_eq, texts, trim_end_char, trim_end_char_len,
};

verus! {

/// One entry at the top level of the directory that an archive was unpacked in.
#[derive(Debug)]
pub struct TopEntry {
    pub name: String,
    pub is_dir: bool,
}

/// The mathematical value of a `TopEntry`.
pub struct Entry {
    pub name: Seq<char>,
    pub is_dir: bool,
}

impl View for TopEntry {
    type V = Entry;

    open spec fn view(&self) -> Entry {
        Entry { name: self.name@, is_dir: self.is_dir }
    }
}

/// The mathematical value of a directory listing.
pub open spec fn listing(entries: Seq<TopEntry>) -> Seq<Entry> {
    entries.map_values(|e: TopEntry| e@)
}

/// The name of the wrapper in an archive of the main branch.
pub open spec fn main_wrapper_name() -> Seq<char> {
    "noctalia-shell-main"@
}

/// Whether `entry` is a directory with the wrapper name of the main branch.
pub open spec fn is_main_wrapper(entry: Entry) -> bool {
    entry.is_dir && entry.name == main_wrapper_name()
}

/// Index of the first directory with the wrapper name of the main branch, or
/// the number of entries where there is none.
pub open spec fn named_wrapper(entries: Seq<Entry>) -> nat
    decreases entries.len(),
{
    if entries.len() == 0 || is_main_wrapper(entries[0]) {
        0
    } else {
        1 + named_wrapper(entries.drop_first())
    }
}

/// The wrapper among the top-level entries: the directory with the wrapper
/// name of the main branch where there is one; else the only entry, where
/// there is exactly one and it is a directory, whatever its name; else none.
/// A wrapper is always a directory.
pub open spec fn wrapper_index(entries: Seq<Entry>) -> Option<int> {
    if named_wrapper(entries) < entries.len() {
        Some(named_wrapper(entries) as int)
    } else if entries.len() == 1 && entries[0].is_dir {
        Some(0)
    } else {
        None
    }
}

/// `named_wrapper` is the least index whose entry is a directory with the
/// wrapper name.
pub proof fn lemma_named_wrapper(entries: Seq<Entry>)
    ensures
        named_wrapper(entries) <= entries.len(),
        named_wrapper(entries) < entries.len() ==> is_main_wrapper(
            entries[named_wrapper(entries) as int],
        ),
        forall|j: int| 0 <= j < named_wrapper(entries) ==> !is_main_wrapper(entries[j]),
    decreases entries.len(),
{
    if entries.len() == 0 || is_main_wrapper(entries[0]) {
    } else {
        let t = entries.drop_first();
        lemma_named_wrapper(t);
        assert forall|j: int| 0 <= j < named_wrapper(entries) implies !is_main_wrapper(
            entries[j],
        ) by {
            if j > 0 {
                assert(t[j - 1] == entries[j]);
            }
        }
    }
}

/// Whatever is found to be the wrapper is a directory.
pub proof fn lemma_wrapper_is_a_directory(entries: Seq<Entry>)
    ensures
        wrapper_index(entries) is Some ==> 0 <= wrapper_index(entries)->0 < entries.len()
            && entries[wrapper_index(entries)->0].is_dir,
{
    lemma_named_wrapper(entries);
}

/// The names directly in the target once the content of the wrapper is
/// hoisted: the entries besides the wrapper, then the wrapper's children.
/// Without a wrapper the names stay as they are.
pub open spec fn top_level_after(entries: Seq<Entry>, children: Seq<Seq<char>>) -> Seq<Seq<char>> {
    let names = entries.map_values(|e: Entry| e.name);
    match wrapper_index(entries) {
        Some(i) => names.remove(i) + children,
        None => names,
    }
}

/// A single top-level directory is the wrapper whatever its name. Hoisting
/// takes each of its children from below the wrapper to directly below the
/// target, under the child's own name, so that afterwards the children are
/// what lies directly in the target.
pub proof fn lemma_sole_directory_is_flattened(
    target: Seq<char>,
    name: Seq<char>,
    children: Seq<Seq<char>>,
)
    ensures
        wrapper_index(seq![Entry { name, is_dir: true }]) == Some(0int),
        top_level_after(seq![Entry { name, is_dir: true }], children) == children,
        hoisted(path_joined(target, name), target, children).len() == children.len(),
        forall|i: int|
            0 <= i < children.len() ==> (#[trigger] hoisted(
                path_joined(target, name),
                target,
                children,
            )[i]) == (
                path_joined(path_joined(target, name), children[i]),
                path_joined(target, children[i]),
            ),
{
    let entries = seq![Entry { name, is_dir: true }];
    lemma_named_wrapper(entries);
    let names = entries.map_values(|e: Entry| e.name);
    assert(names.remove(0) + children =~= children);
}

/// With several top-level entries, none of which is a directory with the
/// wrapper name of the main branch, there is no wrapper and the tree stays as
/// it was unpacked.
pub proof fn lemma_several_entries_are_left(entries: Seq<Entry>, children: Seq<Seq<char>>)
    requires
        entries.len() != 1,
        forall|i: int| 0 <= i < entries.len() ==> !is_main_wrapper(entries[i]),
    ensures
        wrapper_index(entries) is None,
        top_level_after(entries, children) == entries.map_values(|e: Entry| e.name),
{
    lemma_named_wrapper(entries);
}

/// A single top-level entry that is no directory is left as it is, whatever
/// its name.
pub proof fn lemma_sole_file_is_left(name: Seq<char>, children: Seq<Seq<char>>)
    ensures
        wrapper_index(seq![Entry { name, is_dir: false }]) is None,
        top_level_after(seq![Entry { name, is_dir: false }], children) == seq![name],
{
    let entries = seq![Entry { name, is_dir: false }];
    lemma_named_wrapper(entries);
    assert(entries.map_values(|e: Entry| e.name) =~= seq![name]);
}

/// The wrapper among the top-level entries, if there is one.
pub fn find_wrapper(entries: &Vec<TopEntry>) -> (r: Option<usize>)
    ensures
        r is Some <==> wrapper_index(listing(entries@)) is Some,
        r is Some ==> r->0 as int == wrapper_index(listing(entries@))->0,
        r is Some ==> r->0 < entries@.len(),
{
    let mut i: usize = 0;
    proof {
        assert(listing(entries@).subrange(0, entries@.len() as int) =~= listing(entries@));
    }
    while i < entries.len()
        invariant
            i <= entries@.len(),
            named_wrapper(listing(entries@)) == i + named_wrapper(
                listing(entries@).subrange(i as int, entries@.len() as int),
            ),
        decreases entries@.len() - i,
    {
        let ghost rest = listing(entries@).subrange(i as int, entries@.len() as int);
        proof {
            assert(rest[0] == entries@[i as int]@);
            assert(rest.drop_first() =~= listing(entries@).subrange(i + 1, entries@.len() as int));
        }
        if entries[i].is_dir && str_eq(entries[i].name.as_str(), "noctalia-shell-main") {
            return Some(i);
        }
        i += 1;
    }
    if entries.len() == 1 && entries[0].is_dir {
        Some(0)
    } else {
        None
    }
}

/// One renaming: what lies at `from` comes to lie at `to`.
#[derive(Debug)]
pub struct Move {
    pub from: String,
    pub to: String,
}

/// The mathematical value of a list of moves.
pub open spec fn moves_view(moves: Seq<Move>) -> Seq<(Seq<char>, Seq<char>)> {
    moves.map_values(|m: Move| (m.from@, m.to@))
}

/// The moves that hoist `children` out of the directory `from_dir` into the
/// directory `to_dir`: one for each child, in order, under its own name.
pub open spec fn hoisted(from_dir: Seq<char>, to_dir: Seq<char>, children: Seq<Seq<char>>) -> Seq<
    (Seq<char>, Seq<char>),
> {
    children.map_values(|c: Seq<char>| (path_joined(from_dir, c), path_joined(to_dir, c)))
}

/// The moves that hoist `children` out of the directory `from_dir` into the
/// directory `to_dir`. Once they are made, `from_dir` is empty and can be
/// removed.
pub fn hoist_moves(from_dir: &str, to_dir: &str, children: &Vec<String>) -> (r: Vec<Move>)
    ensures
        moves_view(r@) == hoisted(from_dir@, to_dir@, texts(children@)),
{
    let mut r: Vec<Move> = Vec::new();
    let mut i: usize = 0;
    while i < children.len()
        invariant
            i <= children@.len(),
            moves_view(r@) == hoisted(from_dir@, to_dir@, texts(children@)).subrange(0, i as int),
        decreases children@.len() - i,
    {
        let ghost before = r@;
        let child = children[i].as_str();
        let m = Move { from: path_join(from_dir, child), to: path_join(to_dir, child) };
        r.push(m);
        proof {
            let moved = children@[i as int]@;
            assert(moves_view(r@) =~= moves_view(before).push(
                (path_joined(from_dir@, moved), path_joined(to_dir@, moved)),
            ));
            assert(moves_view(r@) =~= hoisted(from_dir@, to_dir@, texts(children@)).subrange(
                0,
                i + 1,
            ));
        }
        i += 1;
    }
    proof {
        assert(hoisted(from_dir@, to_dir@, texts(children@)).subrange(0, i as int) =~= hoisted(
            from_dir@,
            to_dir@,
            texts(children@),
        ));
    }
    r
}

/// How an archive gets into a target. Either way it is unpacked in a staging
/// directory first, so that a failure before the last moment leaves the
/// target as it was.
#[derive(Debug)]
pub enum ExtractionMode {
    /// The target is the caller's own. The archive is staged in `stage`, a
    /// directory beside the target; then the old target is set aside as
    /// `backup` and the staged content takes its place.
    Swapped { stage: String, backup: String },
    /// The target belongs to the system. The archive is staged in this
    /// directory, and the privilege helper replaces the target with what was
    /// staged.
    Staged(String),
}

/// The name of the staging directory of one run for a target of the system,
/// which `run_id` tells from the others.
pub open spec fn stage_name(run_id: Seq<char>) -> Seq<char> {
    "noctalia-shell-update-"@ + run_id
}

/// The staging directory of one run beside `target`: the target's path
/// without trailing slashes, followed by `.incoming-` and `run_id`.
pub open spec fn incoming_path(target: Seq<char>, run_id: Seq<char>) -> Seq<char> {
    trim_end_char(target, '/') + ".incoming-"@ + run_id
}

/// The place beside `target` where its old content is set aside during one
/// run: the target's path without trailing slashes, followed by `.previous-`
/// and `run_id`.
pub open spec fn previous_path(target: Seq<char>, run_id: Seq<char>) -> Seq<char> {
    trim_end_char(target, '/') + ".previous-"@ + run_id
}

/// The target, its staging directory and the place for its old content are
/// three different paths.
pub proof fn lemma_staging_paths_differ(target: Seq<char>, run_id: Seq<char>)
    ensures
        incoming_path(target, run_id) != target,
        previous_path(target, run_id) != target,
        incoming_path(target, run_id) != previous_path(target, run_id),
{
    reveal_strlit(".incoming-");
    reveal_strlit(".previous-");
    lemma_trim_end_char(target, '/');
    let base = trim_end_char(target, '/');
    let n = base.len() as int;
    let incoming = incoming_path(target, run_id);
    let previous = previous_path(target, run_id);
    assert(incoming[n] == '.');
    assert(previous[n] == '.');
    assert(incoming[n + 1] == 'i');
    assert(previous[n + 1] == 'p');
    if target.len() > n {
        assert(target[n] == '/');
    }
}

/// How an archive gets into `target`, and through which directories.
/// `temp_dir` is where a staging directory may be made for a target of the
/// system, and `run_id` tells this run from others.
pub fn extraction_mode(target: &str, temp_dir: &str, run_id: &str) -> (r: ExtractionMode)
    ensures
        !under_system_root(target@) ==> r is Swapped && r->stage@ == incoming_path(
            target@,
            run_id@,
        ) && r->backup@ == previous_path(target@, run_id@),
        under_system_root(target@) ==> r is Staged && r->Staged_0@ == path_joined(
            temp_dir@,
            stage_name(run_id@),
        ),
{
    if needs_elevation(target) {
        let mut name = "noctalia-shell-update-".to_owned();
        name.append(run_id);
        ExtractionMode::Staged(path_join(temp_dir, name.as_str()))
    } else {
        let chars = chars_of(target);
        let kept = trim_end_char_len(&chars, '/');
        let mut stage = copy_of(target, 0, kept);
        stage.append(".incoming-");
        stage.append(run_id);
        let mut backup = copy_of(target, 0, kept);
        backup.append(".previous-");
        backup.append(run_id);
        ExtractionMode::Swapped { stage, backup }
    }
}

/// The directory below the staging directory that takes the content of the
/// wrapper.
pub open spec fn staged_content_name() -> Seq<char> {
    "noctalia-shell"@
}

/// The directory that holds the staged content: a directory of its own below
/// the staging directory where a wrapper was found, else the staging
/// directory itself.
pub fn staged_source(stage: &str, wrapper_found: bool) -> (r: String)
    ensures
        r@ == (if wrapper_found {
            path_joined(stage@, staged_content_name())
        } else {
            stage@
        }),
{
    if wrapper_found {
        path_join(stage, "noctalia-shell")
    } else {
        stage.to_owned()
    }
}

/// The command that replaces `target` with the content of `staged`: the old
/// target goes, the target is made anew with its parents, the staged content
/// is copied in, and the staged copy goes. Each step runs only if the one
/// before it succeeded, and each path is one quoted word.
pub open spec fn replace_command(staged: Seq<char>, target: Seq<char>) -> Seq<char> {
    "rm -rf "@ + quoted(target) + " && mkdir -p "@ + quoted(target) + " && cp -r "@ + quoted(staged)
        + "/* "@ + quoted(target) + "/ && rm -rf "@ + quoted(staged)
}

/// The command that unpacks `archive` in place of `target`: the old target
/// goes, the target is made anew with its parents, and the archive is
/// unpacked in it without the wrapper. Each step runs only if the one before
/// it succeeded, and each path is one quoted word.
pub open spec fn unpack_command(archive: Seq<char>, target: Seq<char>) -> Seq<char> {
    "rm -rf "@ + quoted(target) + " && mkdir -p "@ + quoted(target) + " && tar -xzf "@ + quoted(
        archive,
    ) + " -C "@ + quoted(target) + " --strip-components=1"@
}

/// The command that replaces `target` with the content of `staged`, for the
/// privilege helper.
pub fn elevated_replace_command(staged: &str, target: &str) -> (r: String)
    ensures
        r@ == replace_command(staged@, target@),
{
    let s = shell_quote(staged);
    let t = shell_quote(target);
    let mut r = "rm -rf ".to_owned();
    r.append(t.as_str());
    r.append(" && mkdir -p ");
    r.append(t.as_str());
    r.append(" && cp -r ");
    r.append(s.as_str());
    r.append("/* ");
    r.append(t.as_str());
    r.append("/ && rm -rf ");
    r.append(s.as_str());
    r
}

/// The command that unpacks `archive` in place of `target`, for the
/// privilege helper.
pub fn elevated_unpack_command(archive: &str, target: &str) -> (r: String)
    ensures
        r@ == unpack_command(archive@, target@),
{
    let a = shell_quote(archive);
    let t = shell_quote(target);
    let mut r = "rm -rf ".to_owned();
    r.append(t.as_str());
    r.append(" && mkdir -p ");
    r.append(t.as_str());
    r.append(" && tar -xzf ");
    r.append(a.as_str());
    r.append(" -C ");
    r.append(t.as_str());
    r.append(" --strip-components=1");
    r
}

/// The words that hand `command` to the privilege helper, which runs it in a
/// shell.
pub fn elevation_words(command: &str) -> (r: Vec<String>)
    ensures
        texts(r@) == seq!["sudo"@, "sh"@, "-c"@, command@],
{
    let r = vec!["sudo".to_owned(), "sh".to_owned(), "-c".to_owned(), command.to_owned()];
    assert(texts(r@) =~= seq!["sudo"@, "sh"@, "-c"@, command@]);
    r
}

/// One step of putting an archive in place.
#[derive(Debug)]
pub enum ExtractStep {
    /// Make this directory, with the directories above it.
    CreateDir(String),
    /// Unpack the archive in this directory.
    Unpack(String),
    /// Look for the wrapper in `dir` and hoist its content into `into`.
    Hoist { dir: String, into: String },
    /// Set the old target aside by renaming it to `backup`.
    SetAside { target: String, backup: String },
    /// Put the staged content in place by renaming `from` to `target`.
    PutInPlace { from: String, target: String },
    /// Bring the old target back by renaming `backup` to `target`, where the
    /// old target was set aside and nothing has taken its place.
    Restore { backup: String, target: String },
    /// Remove what was set aside.
    Discard(String),
    /// Let the privilege helper replace `target` with what was staged in
    /// `stage`.
    ReplaceElevated { stage: String, target: String },
    /// Remove the staging directory with what is left in it.
    CleanUp(String),
}

/// The mathematical value of an `ExtractStep`.
pub enum Step {
    CreateDir(Seq<char>),
    Unpack(Seq<char>),
    Hoist { dir: Seq<char>, into: Seq<char> },
    SetAside { target: Seq<char>, backup: Seq<char> },
    PutInPlace { from: Seq<char>, target: Seq<char> },
    Restore { backup: Seq<char>, target: Seq<char> },
    Discard(Seq<char>),
    ReplaceElevated { stage: Seq<char>, target: Seq<char> },
    CleanUp(Seq<char>),
}

impl View for ExtractStep {
    type V = Step;

    open spec fn view(&self) -> Step {
        match self {
            ExtractStep::CreateDir(d) => Step::CreateDir(d@),
            ExtractStep::Unpack(d) => Step::Unpack(d@),
            ExtractStep::Hoist { dir, into } => Step::Hoist { dir: dir@, into: into@ },
            ExtractStep::SetAside { target, backup } => Step::SetAside {
                target: target@,
                backup: backup@,
            },
            ExtractStep::PutInPlace { from, target } => Step::PutInPlace {
                from: from@,
                target: target@,
            },
            ExtractStep::Restore { backup, target } => Step::Restore {
                backup: backup@,
                target: target@,
            },
            ExtractStep::Discard(d) => Step::Discard(d@),
            ExtractStep::ReplaceElevated { stage, target } => Step::ReplaceElevated {
                stage: stage@,
                target: target@,
            },
            ExtractStep::CleanUp(d) => Step::CleanUp(d@),
        }
    }
}

/// The mathematical value of a list of steps.
pub open spec fn steps_view(steps: Seq<ExtractStep>) -> Seq<Step> {
    steps.map_values(|s: ExtractStep| s@)
}

/// Whether `step` is to be taken, given whether a step before it has failed.
/// The staging directory is cleaned up in any case; the old target is
/// brought back only after a failure; every other step is taken only while
/// nothing has failed.
pub open spec fn is_due(step: Step, failed: bool) -> bool {
    match step {
        Step::CleanUp(_) => true,
        Step::Restore { .. } => failed,
        _ => !failed,
    }
}

/// Whether a failure of `step` fails the whole. Bringing back, discarding
/// and cleaning up are done as well as can be; their failure changes nothing
/// in what the target holds.
pub open spec fn failure_counts(step: Step) -> bool {
    !(step is CleanUp || step is Restore || step is Discard)
}

/// Whether `step` is to be taken, given whether a step before it has failed.
pub fn step_is_due(step: &ExtractStep, failed: bool) -> (r: bool)
    ensures
        r == is_due(step@, failed),
{
    match step {
        ExtractStep::CleanUp(_) => true,
        ExtractStep::Restore { .. } => failed,
        _ => !failed,
    }
}

/// Whether a failure of `step` fails the whole.
pub fn step_failure_counts(step: &ExtractStep) -> (r: bool)
    ensures
        r == failure_counts(step@),
{
    match step {
        ExtractStep::CleanUp(_) => false,
        ExtractStep::Restore { .. } => false,
        ExtractStep::Discard(_) => false,
        _ => true,
    }
}

/// The steps that put an archive in place of a target of the caller's own.
/// The archive is unpacked and its wrapper hoisted in the staging directory.
/// Only then is the target touched: what it held is set aside, the staged
/// content takes its place, and what was set aside is discarded. After a
/// failure what was set aside is brought back instead.
pub open spec fn swapped_steps(
    target: Seq<char>,
    target_exists: bool,
    stage: Seq<char>,
    backup: Seq<char>,
) -> Seq<Step> {
    let staging = seq![
        Step::CreateDir(stage),
        Step::Unpack(stage),
        Step::Hoist { dir: stage, into: stage },
    ];
    if target_exists {
        staging + seq![
            Step::SetAside { target, backup },
            Step::PutInPlace { from: stage, target },
            Step::Restore { backup, target },
            Step::Discard(backup),
            Step::CleanUp(stage),
        ]
    } else {
        staging + seq![Step::PutInPlace { from: stage, target }, Step::CleanUp(stage)]
    }
}

/// The steps that put an archive in place of a target that belongs to the
/// system: the staging directory is made; the archive is unpacked in it; the
/// content of the wrapper is hoisted into a directory of its own; the
/// privilege helper replaces the target; the staging directory is removed.
pub open spec fn staged_steps(stage: Seq<char>, target: Seq<char>) -> Seq<Step> {
    seq![
        Step::CreateDir(stage),
        Step::Unpack(stage),
        Step::Hoist { dir: stage, into: path_joined(stage, staged_content_name()) },
        Step::ReplaceElevated { stage, target },
        Step::CleanUp(stage),
    ]
}

/// The steps that put an archive in place of `target`.
pub open spec fn planned_steps(
    target: Seq<char>,
    target_exists: bool,
    temp_dir: Seq<char>,
    run_id: Seq<char>,
) -> Seq<Step> {
    if under_system_root(target) {
        staged_steps(path_joined(temp_dir, stage_name(run_id)), target)
    } else {
        swapped_steps(
            target,
            target_exists,
            incoming_path(target, run_id),
            previous_path(target, run_id),
        )
    }
}

/// Whether `step` changes what lies at `dir` with the caller's own rights.
pub open spec fn touches(step: Step, dir: Seq<char>) -> bool {
    match step {
        Step::CreateDir(d) => d == dir,
        Step::Unpack(d) => d == dir,
        Step::Hoist { dir: from, into } => from == dir || into == dir,
        Step::SetAside { target, backup } => target == dir || backup == dir,
        Step::PutInPlace { from, target } => from == dir || target == dir,
        Step::Restore { backup, target } => backup == dir || target == dir,
        Step::Discard(d) => d == dir,
        Step::ReplaceElevated { .. } => false,
        Step::CleanUp(d) => d == dir,
    }
}

/// A target that belongs to the system is changed by the privilege helper
/// alone: every step with the caller's own rights works on the staging
/// directory or on the directory for the staged content, and exactly one
/// step hands the target to the helper.
pub proof fn lemma_system_target_is_left_to_the_helper(
    target: Seq<char>,
    target_exists: bool,
    temp_dir: Seq<char>,
    run_id: Seq<char>,
)
    requires
        under_system_root(target),
    ensures
        ({
            let stage = path_joined(temp_dir, stage_name(run_id));
            let content = path_joined(stage, staged_content_name());
            let steps = planned_steps(target, target_exists, temp_dir, run_id);
            &&& forall|i: int, dir: Seq<char>|
                0 <= i < steps.len() && #[trigger] touches(steps[i], dir) ==> dir == stage || dir
                    == content
            &&& steps[3] == (Step::ReplaceElevated { stage, target })
            &&& forall|i: int|
                0 <= i < steps.len() && (#[trigger] steps[i]) is ReplaceElevated ==> i == 3
        }),
{
}

/// A target of the caller's own is never handed to the privilege helper, and
/// it is not touched before the archive is unpacked and hoisted in full: the
/// first three steps work on the staging directory alone.
pub proof fn lemma_own_target_is_touched_last(
    target: Seq<char>,
    target_exists: bool,
    temp_dir: Seq<char>,
    run_id: Seq<char>,
)
    requires
        !under_system_root(target),
    ensures
        ({
            let stage = incoming_path(target, run_id);
            let steps = planned_steps(target, target_exists, temp_dir, run_id);
            &&& stage != target
            &&& steps.len() >= 5
            &&& steps[0] == Step::CreateDir(stage)
            &&& steps[1] == Step::Unpack(stage)
            &&& steps[2] == (Step::Hoist { dir: stage, into: stage })
            &&& forall|i: int| 0 <= i < 3 ==> !touches(#[trigger] steps[i], target)
            &&& forall|i: int| 0 <= i < steps.len() ==> !((#[trigger] steps[i]) is ReplaceElevated)
            &&& forall|i: int|
                0 <= i < steps.len() && ((#[trigger] steps[i]) is Unpack || steps[i] is Hoist) ==> i
                    < 3
        }),
{
    lemma_staging_paths_differ(target, run_id);
}

/// What lies at a path, as far as replacing a target goes.
pub enum Content {
    /// Nothing.
    Absent,
    /// What the target held before.
    Old,
    /// The content of the archive, in full.
    New,
    /// Something half done.
    Broken,
}

/// What lies at `path` in `files`; nothing where `files` has no entry.
pub open spec fn content_at(files: Map<Seq<char>, Content>, path: Seq<char>) -> Content {
    if files.contains_key(path) {
        files[path]
    } else {
        Content::Absent
    }
}

/// What one step makes of the files. A step that works does what it is for.
/// A renaming that fails changes nothing. Unpacking, hoisting or the
/// privilege helper, where they fail, leave something half done where they
/// were at work. Bringing back renames only where there is something to
/// bring back and nothing in its way.
pub open spec fn effect(step: Step, works: bool, files: Map<Seq<char>, Content>) -> Map<
    Seq<char>,
    Content,
> {
    match step {
        Step::CreateDir(d) => files,
        Step::Unpack(d) => files.insert(
            d,
            if works {
                Content::New
            } else {
                Content::Broken
            },
        ),
        Step::Hoist { dir, into } => if works {
            files.insert(into, content_at(files, dir))
        } else {
            files.insert(dir, Content::Broken).insert(into, Content::Broken)
        },
        Step::SetAside { target, backup } => if works {
            files.insert(backup, content_at(files, target)).insert(target, Content::Absent)
        } else {
            files
        },
        Step::PutInPlace { from, target } => if works {
            files.insert(target, content_at(files, from)).insert(from, Content::Absent)
        } else {
            files
        },
        Step::Restore { backup, target } => if works && content_at(files, backup)
            != Content::Absent && content_at(files, target) == Content::Absent {
            files.insert(target, content_at(files, backup)).insert(backup, Content::Absent)
        } else {
            files
        },
        Step::Discard(d) => if works {
            files.insert(d, Content::Absent)
        } else {
            files
        },
        Step::ReplaceElevated { stage, target } => files.insert(
            target,
            if works {
                Content::New
            } else {
                Content::Broken
            },
        ),
        Step::CleanUp(d) => if works {
            files.insert(d, Content::Absent)
        } else {
            files
        },
    }
}

/// The files after the steps from index `from` on were gone through, where
/// the step at index `fails_at`, if it is taken, does not work and every
/// other step does. `failed` says whether a step before `from` has failed.
pub open spec fn carried_out(
    steps: Seq<Step>,
    from: int,
    fails_at: int,
    failed: bool,
    files: Map<Seq<char>, Content>,
) -> Map<Seq<char>, Content>
    decreases steps.len() - from,
{
    if from < 0 || from >= steps.len() {
        files
    } else if is_due(steps[from], failed) {
        let works = from != fails_at;
        carried_out(
            steps,
            from + 1,
            fails_at,
            failed || (!works && failure_counts(steps[from])),
            effect(steps[from], works, files),
        )
    } else {
        carried_out(steps, from + 1, fails_at, failed, files)
    }
}

/// A target of the caller's own is either replaced in full or left as it
/// was. Whichever single step fails, or none, the target in the end holds
/// the whole content of the archive or exactly what it held before, and it
/// holds the new content exactly where no step failed whose failure counts.
pub proof fn lemma_own_target_is_replaced_or_left(
    target: Seq<char>,
    target_exists: bool,
    temp_dir: Seq<char>,
    run_id: Seq<char>,
    fails_at: int,
    files: Map<Seq<char>, Content>,
)
    requires
        !under_system_root(target),
        content_at(files, target) == (if target_exists {
            Content::Old
        } else {
            Content::Absent
        }),
        content_at(files, incoming_path(target, run_id)) == Content::Absent,
        content_at(files, previous_path(target, run_id)) == Content::Absent,
    ensures
        ({
            let steps = planned_steps(target, target_exists, temp_dir, run_id);
            let end = carried_out(steps, 0, fails_at, false, files);
            let counted = 0 <= fails_at < steps.len() && failure_counts(steps[fails_at]);
            &&& !counted ==> content_at(end, target) == Content::New
            &&& counted ==> content_at(end, target) == content_at(files, target)
        }),
{
    lemma_staging_paths_differ(target, run_id);
    reveal_with_fuel(carried_out, 10);
    let stage = incoming_path(target, run_id);
    let backup = previous_path(target, run_id);
    let steps = planned_steps(target, target_exists, temp_dir, run_id);
    assert(steps == swapped_steps(target, target_exists, stage, backup));
    if target_exists {
        assert(steps.len() == 8);
    } else {
        assert(steps.len() == 5);
    }
    if fails_at == 0 {
    } else if fails_at == 1 {
    } else if fails_at == 2 {
    } else if fails_at == 3 {
    } else if fails_at == 4 {
    } else if fails_at == 5 {
    } else if fails_at == 6 {
    } else if fails_at == 7 {
    } else {
    }
}

/// A target of the system is left as it was where staging fails: where
/// making the staging directory, unpacking or hoisting fails, the privilege
/// helper is not called and the target holds what it held. It holds the new
/// content where every step works. This is said of a target that is neither
/// the staging directory nor the directory for the staged content.
pub proof fn lemma_system_target_survives_failed_staging(
    target: Seq<char>,
    target_exists: bool,
    temp_dir: Seq<char>,
    run_id: Seq<char>,
    fails_at: int,
    files: Map<Seq<char>, Content>,
)
    requires
        under_system_root(target),
        target != path_joined(temp_dir, stage_name(run_id)),
        target != path_joined(path_joined(temp_dir, stage_name(run_id)), staged_content_name()),
    ensures
        ({
            let steps = planned_steps(target, target_exists, temp_dir, run_id);
            let end = carried_out(steps, 0, fails_at, false, files);
            &&& 0 <= fails_at < 3 ==> content_at(end, target) == content_at(files, target)
            &&& !(0 <= fails_at < 4) ==> content_at(end, target) == Content::New
        }),
{
    reveal_with_fuel(carried_out, 7);
    let steps = planned_steps(target, target_exists, temp_dir, run_id);
    assert(steps.len() == 5);
    if fails_at == 0 {
    } else if fails_at == 1 {
    } else if fails_at == 2 {
    } else if fails_at == 4 {
    } else {
    }
}

/// The steps that put an archive in place of `target`, in the order in which
/// they are gone through; `step_is_due` says which of them are taken.
/// `target_exists` says whether the target is there now; `temp_dir` is where
/// a staging directory may be made for a target of the system, and `run_id`
/// tells this run from others.
pub fn extraction_steps(target: &str, target_exists: bool, temp_dir: &str, run_id: &str) -> (r: Vec<
    ExtractStep,
>)
    ensures
        steps_view(r@) == planned_steps(target@, target_exists, temp_dir@, run_id@),
{
    match extraction_mode(target, temp_dir, run_id) {
        ExtractionMode::Swapped { stage, backup } => {
            let mut r: Vec<ExtractStep> = vec![
                ExtractStep::CreateDir(stage.clone()),
                ExtractStep::Unpack(stage.clone()),
                ExtractStep::Hoist { dir: stage.clone(), into: stage.clone() },
            ];
            if target_exists {
                r.push(ExtractStep::SetAside { target: target.to_owned(), backup: backup.clone() });
            }
            r.push(ExtractStep::PutInPlace { from: stage.clone(), target: target.to_owned() });
            if target_exists {
                r.push(ExtractStep::Restore { backup: backup.clone(), target: target.to_owned() });
                r.push(ExtractStep::Discard(backup));
            }
            r.push(ExtractStep::CleanUp(stage));
            proof {
                assert(steps_view(r@) =~= swapped_steps(
                    target@,
                    target_exists,
                    incoming_path(target@, run_id@),
                    previous_path(target@, run_id@),
                ));
            }
            r
        },
        ExtractionMode::Staged(stage) => {
            let content = staged_source(stage.as_str(), true);
            let r = vec![
                ExtractStep::CreateDir(stage.clone()),
                ExtractStep::Unpack(stage.clone()),
                ExtractStep::Hoist { dir: stage.clone(), into: content },
                ExtractStep::ReplaceElevated { stage: stage.clone(), target: target.to_owned() },
                ExtractStep::CleanUp(stage),
            ];
            proof {
                assert(steps_view(r@) =~= staged_steps(stage@, target@));
            }
            r
        },
    }
}

} // verus!
