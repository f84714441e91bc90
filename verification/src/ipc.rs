//! The control surface of the running shell.
//!
//! The shell is started and driven through one control program. This module
//! holds the words it is called with, the reading of its listing of targets
//! and functions, and the check whether the shell is running at all.

use vstd::prelude::*;
use vstd::string::StringExecFns;

use crate::text::{
    chars_of, contains, copy_of, find_in, first_index, has_substring, join, joined, lines,
    next_line, range_starts_with, skip_prefix_repeated, split, starts_with, strip_prefix_repeated,
    texts, trim_range, trimmed,
};

verus! {

/// The name of a parameter: the declaration up to its first colon, without
/// surrounding white space.
pub open spec fn param_name(declaration: Seq<char>) -> Seq<char> {
    let t = trimmed(declaration);
    let colon = first_index(t, ':') as int;
    if colon < t.len() {
        trimmed(t.subrange(0, colon))
    } else {
        t
    }
}

/// The names of the parameters among `declarations`, without the empty ones.
pub open spec fn param_names(declarations: Seq<Seq<char>>) -> Seq<Seq<char>>
    decreases declarations.len(),
{
    if declarations.len() == 0 {
        Seq::empty()
    } else {
        let front = param_names(declarations.drop_last());
        let name = param_name(declarations.last());
        if name.len() == 0 {
            front
        } else {
            front.push(name)
        }
    }
}

/// The short form of a function signature such as
/// `set(path: string, screen: string): void`: the name, and in parentheses
/// the names of the parameters, as in `set(path, screen)`. Without
/// parameters, and where the parentheses do not close, only the name is
/// left; a text without an opening parenthesis stays as it is.
pub open spec fn signature_shown(signature: Seq<char>) -> Seq<char> {
    let open = first_index(signature, '(') as int;
    if open >= signature.len() {
        signature
    } else {
        let name = signature.subrange(0, open);
        let rest = signature.subrange(open + 1, signature.len() as int);
        let close = first_index(rest, ')') as int;
        if close >= rest.len() {
            name
        } else {
            let names = param_names(split(rest.subrange(0, close), ','));
            if names.len() == 0 {
                name
            } else {
                name + "("@ + joined(names, ", "@) + ")"@
            }
        }
    }
}

/// The names of the parameters that are declared in `s[lo..hi]`, a list with
/// commas between the declarations.
fn parameter_names(text: &str, s: &Vec<char>, lo: usize, hi: usize) -> (r: Vec<String>)
    requires
        s@ == text@,
        lo <= hi <= s.len(),
    ensures
        texts(r@) == param_names(split(s@.subrange(lo as int, hi as int), ',')),
{
    let mut names: Vec<String> = Vec::new();
    let mut pos: usize = lo;
    let mut finished = false;
    let ghost params = s@.subrange(lo as int, hi as int);
    let ghost mut done: Seq<Seq<char>> = Seq::empty();
    proof {
        assert(done + split(params, ',') =~= split(params, ','));
        assert(texts(names@) =~= param_names(done));
    }
    while !finished
        invariant
            s@ == text@,
            lo <= pos <= hi <= s.len(),
            params == s@.subrange(lo as int, hi as int),
            texts(names@) == param_names(done),
            !finished ==> split(params, ',') == done + split(
                s@.subrange(pos as int, hi as int),
                ',',
            ),
            finished ==> split(params, ',') == done,
        decreases
                hi - pos + (if finished {
                    0int
                } else {
                    1int
                }),
    {
        let comma = find_in(s, pos, hi, ',');
        let ghost rest = s@.subrange(pos as int, hi as int);
        let ghost part = s@.subrange(pos as int, comma as int);
        let ghost before = names@;
        proof {
            if comma < hi {
                assert(rest.subrange(0, comma - pos) =~= part);
                assert(rest.subrange(comma - pos + 1, rest.len() as int) =~= s@.subrange(
                    comma + 1,
                    hi as int,
                ));
                assert(done.push(part) + split(s@.subrange(comma + 1, hi as int), ',') =~= done + (
                seq![part] + split(s@.subrange(comma + 1, hi as int), ',')));
            } else {
                assert(part =~= rest);
                assert(done.push(part) =~= done + seq![rest]);
            }
            assert(done.push(part).drop_last() =~= done);
        }
        let outer = trim_range(s, pos, comma);
        let colon = find_in(s, outer.0, outer.1, ':');
        let inner = if colon < outer.1 {
            proof {
                let t = s@.subrange(outer.0 as int, outer.1 as int);
                assert(t.subrange(0, colon - outer.0) =~= s@.subrange(
                    outer.0 as int,
                    colon as int,
                ));
            }
            trim_range(s, outer.0, colon)
        } else {
            outer
        };
        if inner.1 > inner.0 {
            names.push(copy_of(text, inner.0, inner.1));
            proof {
                assert(texts(names@) =~= texts(before).push(param_name(part)));
            }
        }
        proof {
            done = done.push(part);
        }
        if comma < hi {
            pos = comma + 1;
        } else {
            finished = true;
        }
    }
    names
}

/// The short form of the function signature `func_sig`: its name, and in
/// parentheses the names of its parameters without their types.
pub fn format_function_signature(func_sig: &str) -> (r: String)
    ensures
        r@ == signature_shown(func_sig@),
{
    let s = chars_of(func_sig);
    let n = s.len();
    proof {
        assert(s@.subrange(0, n as int) =~= s@);
    }
    let open = find_in(&s, 0, n, '(');
    if open >= n {
        return func_sig.to_owned();
    }
    let name = copy_of(func_sig, 0, open);
    let close = find_in(&s, open + 1, n, ')');
    if close >= n {
        return name;
    }
    proof {
        let rest = s@.subrange(open + 1, n as int);
        assert(rest.subrange(0, close - open - 1) =~= s@.subrange(open + 1, close as int));
    }
    let names = parameter_names(func_sig, &s, open + 1, close);
    if names.len() == 0 {
        name
    } else {
        let list = join(&names, ", ");
        let mut r = name;
        r.append("(");
        r.append(list.as_str());
        r.append(")");
        r
    }
}

/// One target of the control surface with the functions it offers.
#[derive(Debug)]
pub struct IpcTarget {
    pub name: String,
    /// The short forms of the signatures of the target's functions.
    pub functions: Vec<String>,
}

/// The mathematical value of an `IpcTarget`.
pub struct Target {
    pub name: Seq<char>,
    pub functions: Seq<Seq<char>>,
}

impl View for IpcTarget {
    type V = Target;

    open spec fn view(&self) -> Target {
        Target { name: self.name@, functions: texts(self.functions@) }
    }
}

/// The mathematical value of a list of targets.
pub open spec fn targets_view(targets: Seq<IpcTarget>) -> Seq<Target> {
    targets.map_values(|t: IpcTarget| t@)
}

/// What has been read of a listing: the targets that are complete, the name
/// of the target that is being read, and the functions that were read since
/// the last target was completed.
pub struct Reading {
    pub complete: Seq<Target>,
    pub current: Option<Seq<char>>,
    pub functions: Seq<Seq<char>>,
}

/// The reading with the target that is being read, if any, completed.
pub open spec fn completed(reading: Reading) -> Seq<Target> {
    match reading.current {
        Some(name) => reading.complete.push(Target { name, functions: reading.functions }),
        None => reading.complete,
    }
}

/// The reading after one more line. White space around the line does not
/// count. A line `target NAME` completes the target that was being read and
/// begins the next one; a line `function SIGNATURE` adds the short form of
/// the signature to the functions; any other line changes nothing.
/// Functions that come before the first target go to the first target.
pub open spec fn read_line(reading: Reading, line: Seq<char>) -> Reading {
    let t = trimmed(line);
    if starts_with(t, "target "@) {
        Reading {
            complete: completed(reading),
            current: Some(strip_prefix_repeated(t, "target "@)),
            functions: if reading.current is Some {
                Seq::empty()
            } else {
                reading.functions
            },
        }
    } else if starts_with(t, "function "@) {
        Reading {
            functions: reading.functions.push(
                signature_shown(strip_prefix_repeated(t, "function "@)),
            ),
            ..reading
        }
    } else {
        reading
    }
}

/// The reading after all of `lines`, in order.
pub open spec fn read_lines(lines: Seq<Seq<char>>) -> Reading
    decreases lines.len(),
{
    if lines.len() == 0 {
        Reading { complete: Seq::empty(), current: None, functions: Seq::empty() }
    } else {
        read_line(read_lines(lines.drop_last()), lines.last())
    }
}

/// The targets that the listing `output` shows, each with its functions.
pub open spec fn targets_shown(output: Seq<char>) -> Seq<Target> {
    completed(read_lines(lines(output)))
}

/// The targets that the listing `output` of the control program shows, each
/// with the short forms of its functions, in the order of the listing.
pub fn format_ipc_show_output(output: &str) -> (r: Vec<IpcTarget>)
    ensures
        targets_view(r@) == targets_shown(output@),
{
    let s = chars_of(output);
    let target_key = chars_of("target ");
    let function_key = chars_of("function ");
    let n = s.len();
    let mut complete: Vec<IpcTarget> = Vec::new();
    let mut current: Option<String> = None;
    let mut functions: Vec<String> = Vec::new();
    let mut pos: usize = 0;
    let ghost mut done: Seq<Seq<char>> = Seq::empty();
    proof {
        assert(s@.subrange(0, n as int) =~= s@);
        assert(done + lines(s@) =~= lines(s@));
        assert(targets_view(complete@) =~= read_lines(done).complete);
        assert(texts(functions@) =~= read_lines(done).functions);
    }
    while pos < n
        invariant
            n == s@.len(),
            s@ == output@,
            pos <= n,
            target_key@ == "target "@,
            function_key@ == "function "@,
            lines(s@) == done + lines(s@.subrange(pos as int, n as int)),
            targets_view(complete@) == read_lines(done).complete,
            current is Some <==> read_lines(done).current is Some,
            current is Some ==> Some(current->0@) == read_lines(done).current,
            texts(functions@) == read_lines(done).functions,
        decreases n - pos,
    {
        let (end, next) = next_line(&s, pos);
        let ghost line = s@.subrange(pos as int, end as int);
        let ghost before = read_lines(done);
        let ghost old_complete = complete@;
        let ghost old_functions = functions@;
        proof {
            assert(done.push(line).drop_last() =~= done);
            assert(done.push(line) + lines(s@.subrange(next as int, n as int)) =~= done + (seq![
                line,
            ] + lines(s@.subrange(next as int, n as int))));
        }
        let t = trim_range(&s, pos, end);
        if range_starts_with(&s, t.0, t.1, &target_key) {
            let start = skip_prefix_repeated(&s, t.0, t.1, &target_key);
            let name = copy_of(output, start, t.1);
            match current {
                Some(finished) => {
                    complete.push(IpcTarget { name: finished, functions });
                    functions = Vec::new();
                    proof {
                        assert(targets_view(complete@) =~= targets_view(old_complete).push(
                            Target { name: finished@, functions: texts(old_functions) },
                        ));
                        assert(texts(functions@) =~= Seq::<Seq<char>>::empty());
                    }
                },
                None => {},
            }
            current = Some(name);
        } else if range_starts_with(&s, t.0, t.1, &function_key) {
            let start = skip_prefix_repeated(&s, t.0, t.1, &function_key);
            let signature = copy_of(output, start, t.1);
            let shown = format_function_signature(signature.as_str());
            functions.push(shown);
            proof {
                assert(texts(functions@) =~= texts(old_functions).push(shown@));
            }
        }
        proof {
            done = done.push(line);
        }
        pos = next;
    }
    proof {
        assert(lines(s@.subrange(pos as int, n as int)) =~= Seq::empty());
        assert(done + Seq::<Seq<char>>::empty() =~= done);
    }
    let ghost old_complete = complete@;
    match current {
        Some(name) => {
            complete.push(IpcTarget { name, functions });
            proof {
                assert(targets_view(complete@) =~= targets_view(old_complete).push(
                    Target { name: name@, functions: texts(functions@) },
                ));
            }
        },
        None => {},
    }
    complete
}

/// Whether some line of the process listing `listing` names both the control
/// program and the shell.
pub open spec fn listing_shows_shell(lines: Seq<Seq<char>>) -> bool {
    exists|i: int|
        0 <= i < lines.len() && contains(#[trigger] lines[i], "qs"@) && contains(
            lines[i],
            "noctalia-shell"@,
        )
}

/// Whether some line of the process listing `listing` names both the control
/// program and the shell.
pub fn process_listing_shows_shell(listing: &str) -> (r: bool)
    ensures
        r == listing_shows_shell(lines(listing@)),
{
    let s = chars_of(listing);
    let program = chars_of("qs");
    let shell = chars_of("noctalia-shell");
    let n = s.len();
    let mut pos: usize = 0;
    let ghost mut done: Seq<Seq<char>> = Seq::empty();
    proof {
        assert(s@.subrange(0, n as int) =~= s@);
        assert(done + lines(s@) =~= lines(s@));
    }
    while pos < n
        invariant
            n == s@.len(),
            s@ == listing@,
            pos <= n,
            program@ == "qs"@,
            shell@ == "noctalia-shell"@,
            lines(s@) == done + lines(s@.subrange(pos as int, n as int)),
            !listing_shows_shell(done),
        decreases n - pos,
    {
        let (end, next) = next_line(&s, pos);
        let ghost line = s@.subrange(pos as int, end as int);
        let ghost rest = lines(s@.subrange(next as int, n as int));
        proof {
            assert(done.push(line) + rest =~= done + (seq![line] + rest));
        }
        let mut text: Vec<char> = Vec::new();
        let mut i: usize = pos;
        while i < end
            invariant
                pos <= i <= end <= s@.len(),
                text@ == s@.subrange(pos as int, i as int),
            decreases end - i,
        {
            text.push(s[i]);
            proof {
                assert(text@ =~= s@.subrange(pos as int, i + 1));
            }
            i += 1;
        }
        if has_substring(&text, &program) && has_substring(&text, &shell) {
            proof {
                let all = lines(s@);
                assert(all[done.len() as int] == line);
            }
            return true;
        }
        proof {
            let extended = done.push(line);
            assert forall|k: int| 0 <= k < extended.len() implies !(contains(
                #[trigger] extended[k],
                "qs"@,
            ) && contains(extended[k], "noctalia-shell"@)) by {
                if k < done.len() {
                    assert(extended[k] == done[k]);
                }
            }
            done = extended;
        }
        pos = next;
    }
    proof {
        assert(lines(s@.subrange(pos as int, n as int)) =~= Seq::empty());
        assert(done + Seq::<Seq<char>>::empty() =~= done);
    }
    false
}

/// Whether the shell is running. `probe` is the answer of the process
/// search, `None` where the search could not be run; then `listing`, the
/// full process listing, decides, and without a listing the answer is no.
pub fn is_noctalia_running(probe: Option<bool>, listing: Option<&str>) -> (r: bool)
    ensures
        r == match probe {
            Some(found) => found,
            None => match listing {
                Some(text) => listing_shows_shell(lines(text@)),
                None => false,
            },
        },
{
    match probe {
        Some(found) => found,
        None => match listing {
            Some(text) => process_listing_shows_shell(text),
            None => false,
        },
    }
}

/// The words that start the shell.
pub open spec fn run_words() -> Seq<Seq<char>> {
    seq!["qs"@, "-c"@, "noctalia-shell"@]
}

/// The words that start the shell.
pub fn run_command() -> (r: Vec<String>)
    ensures
        texts(r@) == run_words(),
{
    let r = vec!["qs".to_owned(), "-c".to_owned(), "noctalia-shell".to_owned()];
    assert(texts(r@) =~= run_words());
    r
}

/// The words that call `function` on `target` in the running shell.
pub fn ipc_call_command(target: &str, function: &str) -> (r: Vec<String>)
    ensures
        texts(r@) == run_words() + seq!["ipc"@, "call"@, target@, function@],
{
    let r = vec![
        "qs".to_owned(),
        "-c".to_owned(),
        "noctalia-shell".to_owned(),
        "ipc".to_owned(),
        "call".to_owned(),
        target.to_owned(),
        function.to_owned(),
    ];
    assert(texts(r@) =~= run_words() + seq!["ipc"@, "call"@, target@, function@]);
    r
}

/// The words that ask the running shell for its targets and functions.
pub fn ipc_show_command() -> (r: Vec<String>)
    ensures
        texts(r@) == run_words() + seq!["ipc"@, "show"@],
{
    let r = vec![
        "qs".to_owned(),
        "-c".to_owned(),
        "noctalia-shell".to_owned(),
        "ipc".to_owned(),
        "show".to_owned(),
    ];
    assert(texts(r@) =~= run_words() + seq!["ipc"@, "show"@]);
    r
}

/// The words that search the processes for the running shell.
pub fn process_search_command() -> (r: Vec<String>)
    ensures
        texts(r@) == seq!["pgrep"@, "-f"@, "qs.*noctalia-shell"@],
{
    let r = vec!["pgrep".to_owned(), "-f".to_owned(), "qs.*noctalia-shell".to_owned()];
    assert(texts(r@) =~= seq!["pgrep"@, "-f"@, "qs.*noctalia-shell"@]);
    r
}

/// The words that list the command lines of all processes.
pub fn process_listing_command() -> (r: Vec<String>)
    ensures
        texts(r@) == seq!["ps"@, "-eo"@, "cmd"@],
{
    let r = vec!["ps".to_owned(), "-eo".to_owned(), "cmd".to_owned()];
    assert(texts(r@) =~= seq!["ps"@, "-eo"@, "cmd"@]);
    r
}

/// The variable that switches on the debug mode of the shell, with the
/// value that does so.
pub fn debug_variable() -> (r: (&'static str, &'static str))
    ensures
        r.0@ == "NOCTALIA_DEBUG"@,
        r.1@ == "1"@,
{
    ("NOCTALIA_DEBUG", "1")
}

/// The exit status to pass on when the control program has ended: 0 where
/// it succeeded, else its own status, or 1 where it has none.
pub fn passed_exit_status(succeeded: bool, code: Option<i32>) -> (r: i32)
    ensures
        r == (if succeeded {
            0
        } else {
            match code {
                Some(c) => c,
                None => 1,
            }
        }),
{
    if succeeded {
        0
    } else {
        match code {
            Some(c) => c,
            None => 1,
        }
    }
}

} // verus!
