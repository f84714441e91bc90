use noctalia::archive::{
    elevated_replace_command, elevated_unpack_command, elevation_words, extraction_mode,
    extraction_steps, find_wrapper, hoist_moves, staged_source, step_failure_counts, step_is_due,
    ExtractStep, ExtractionMode, TopEntry,
};

fn entry(name: &str, is_dir: bool) -> TopEntry {
    TopEntry { name: name.to_string(), is_dir }
}

#[test]
fn sole_directory_is_the_wrapper_whatever_its_name() {
    assert_eq!(find_wrapper(&vec![entry("noctalia-dev-noctalia-shell-1a2b3c4", true)]), Some(0));
    assert_eq!(find_wrapper(&vec![entry("x", true)]), Some(0));
    assert_eq!(find_wrapper(&vec![entry("", true)]), Some(0));
}

#[test]
fn several_entries_are_left_as_they_are() {
    assert_eq!(find_wrapper(&vec![entry("a", true), entry("b", true)]), None);
    assert_eq!(find_wrapper(&vec![entry("a", true), entry("README", false)]), None);
    assert_eq!(find_wrapper(&vec![]), None);
}

#[test]
fn sole_file_is_no_wrapper() {
    assert_eq!(find_wrapper(&vec![entry("README", false)]), None);
    assert_eq!(find_wrapper(&vec![entry("noctalia-shell-main", false)]), None);
}

#[test]
fn main_wrapper_is_found_by_name() {
    assert_eq!(find_wrapper(&vec![entry("noctalia-shell-main", true)]), Some(0));
    assert_eq!(
        find_wrapper(&vec![entry("a", true), entry("noctalia-shell-main", true), entry("b", false)]),
        Some(1)
    );
    assert_eq!(find_wrapper(&vec![entry("a", false), entry("noctalia-shell-main", false)]), None);
    assert_eq!(
        find_wrapper(&vec![entry("noctalia-shell-main", false), entry("noctalia-shell-main", true)]),
        Some(1)
    );
    assert_eq!(
        find_wrapper(&vec![entry("noctalia-shell-main2", true), entry("Noctalia-shell-main", true)]),
        None
    );
}

#[test]
fn children_are_hoisted_under_their_own_names() {
    let children = vec!["shell.qml".to_string(), "Assets".to_string(), ".gitignore".to_string()];
    let moves = hoist_moves("/t/wrapper", "/t", &children);
    assert_eq!(moves.len(), 3);
    assert_eq!(moves[0].from, "/t/wrapper/shell.qml");
    assert_eq!(moves[0].to, "/t/shell.qml");
    assert_eq!(moves[1].from, "/t/wrapper/Assets");
    assert_eq!(moves[1].to, "/t/Assets");
    assert_eq!(moves[2].from, "/t/wrapper/.gitignore");
    assert_eq!(moves[2].to, "/t/.gitignore");
    assert!(hoist_moves("/a", "/b", &vec![]).is_empty());
}

#[test]
fn system_targets_are_staged() {
    match extraction_mode("/etc/xdg/quickshell/noctalia-shell", "/tmp", "4242") {
        ExtractionMode::Staged(dir) => assert_eq!(dir, "/tmp/noctalia-shell-update-4242"),
        other => panic!("a system target must be staged below the temporary directory: {:?}", other),
    }
}

#[test]
fn own_targets_are_staged_beside_themselves() {
    match extraction_mode("/home/a/.config/quickshell/noctalia-shell", "/tmp", "1") {
        ExtractionMode::Swapped { stage, backup } => {
            assert_eq!(stage, "/home/a/.config/quickshell/noctalia-shell.incoming-1");
            assert_eq!(backup, "/home/a/.config/quickshell/noctalia-shell.previous-1");
        }
        other => panic!("unexpected mode {:?}", other),
    }
    match extraction_mode("/home/a/x///", "/tmp", "77") {
        ExtractionMode::Swapped { stage, backup } => {
            assert_eq!(stage, "/home/a/x.incoming-77");
            assert_eq!(backup, "/home/a/x.previous-77");
        }
        other => panic!("unexpected mode {:?}", other),
    }
    assert!(matches!(extraction_mode("/etcetera/x", "/tmp", "1"), ExtractionMode::Swapped { .. }));
}

#[test]
fn staged_content_lies_in_its_own_directory() {
    assert_eq!(staged_source("/tmp/stage", true), "/tmp/stage/noctalia-shell");
    assert_eq!(staged_source("/tmp/stage", false), "/tmp/stage");
}

#[test]
fn replace_command_quotes_every_path() {
    assert_eq!(
        elevated_replace_command("/tmp/s/noctalia-shell", "/etc/xdg/quickshell/noctalia-shell"),
        "rm -rf '/etc/xdg/quickshell/noctalia-shell' && mkdir -p '/etc/xdg/quickshell/noctalia-shell' && cp -r '/tmp/s/noctalia-shell'/* '/etc/xdg/quickshell/noctalia-shell'/ && rm -rf '/tmp/s/noctalia-shell'"
    );
    assert_eq!(
        elevated_replace_command("/tmp/o'brien", "/etc/a b"),
        "rm -rf '/etc/a b' && mkdir -p '/etc/a b' && cp -r '/tmp/o'\\''brien'/* '/etc/a b'/ && rm -rf '/tmp/o'\\''brien'"
    );
}

#[test]
fn unpack_command_quotes_every_path() {
    assert_eq!(
        elevated_unpack_command("/home/a/Downloads/x.tar.gz", "/etc/xdg/quickshell/noctalia-shell"),
        "rm -rf '/etc/xdg/quickshell/noctalia-shell' && mkdir -p '/etc/xdg/quickshell/noctalia-shell' && tar -xzf '/home/a/Downloads/x.tar.gz' -C '/etc/xdg/quickshell/noctalia-shell' --strip-components=1"
    );
    assert_eq!(
        elevated_unpack_command("a'; reboot; '", "/etc/t"),
        "rm -rf '/etc/t' && mkdir -p '/etc/t' && tar -xzf 'a'\\''; reboot; '\\''' -C '/etc/t' --strip-components=1"
    );
}

#[test]
fn elevation_runs_the_command_in_a_shell() {
    assert_eq!(elevation_words("echo hi"), vec!["sudo", "sh", "-c", "echo hi"]);
}

#[test]
fn own_target_is_touched_after_unpacking() {
    let t = "/home/a/.config/quickshell/noctalia-shell";
    let stage = "/home/a/.config/quickshell/noctalia-shell.incoming-7";
    let backup = "/home/a/.config/quickshell/noctalia-shell.previous-7";
    let steps = extraction_steps(t, true, "/tmp", "7");
    assert_eq!(steps.len(), 8);
    assert!(matches!(&steps[0], ExtractStep::CreateDir(d) if d == stage));
    assert!(matches!(&steps[1], ExtractStep::Unpack(d) if d == stage));
    assert!(matches!(&steps[2], ExtractStep::Hoist { dir, into } if dir == stage && into == stage));
    assert!(matches!(
        &steps[3],
        ExtractStep::SetAside { target, backup: b } if target == t && b == backup
    ));
    assert!(matches!(
        &steps[4],
        ExtractStep::PutInPlace { from, target } if from == stage && target == t
    ));
    assert!(matches!(
        &steps[5],
        ExtractStep::Restore { backup: b, target } if target == t && b == backup
    ));
    assert!(matches!(&steps[6], ExtractStep::Discard(d) if d == backup));
    assert!(matches!(&steps[7], ExtractStep::CleanUp(d) if d == stage));
}

#[test]
fn absent_target_has_nothing_to_set_aside() {
    let steps = extraction_steps("/home/a/x", false, "/tmp", "7");
    assert_eq!(steps.len(), 5);
    assert!(matches!(&steps[0], ExtractStep::CreateDir(d) if d == "/home/a/x.incoming-7"));
    assert!(matches!(&steps[1], ExtractStep::Unpack(d) if d == "/home/a/x.incoming-7"));
    assert!(matches!(&steps[2], ExtractStep::Hoist { .. }));
    assert!(matches!(
        &steps[3],
        ExtractStep::PutInPlace { from, target } if from == "/home/a/x.incoming-7" && target == "/home/a/x"
    ));
    assert!(matches!(&steps[4], ExtractStep::CleanUp(d) if d == "/home/a/x.incoming-7"));
}

#[derive(Clone, Copy, Debug, PartialEq)]
enum Holds {
    Nothing,
    Old,
    New,
    Broken,
}

/// Goes through the steps on three places, with the step at `fails_at` not
/// working, and tells what the target holds in the end.
fn simulate(steps: &[ExtractStep], target: &str, fails_at: Option<usize>) -> (Holds, bool) {
    let mut places: Vec<(String, Holds)> = vec![(target.to_string(), Holds::Old)];
    fn get(places: &[(String, Holds)], path: &str) -> Holds {
        places.iter().rev().find(|(p, _)| p == path).map(|(_, h)| *h).unwrap_or(Holds::Nothing)
    }
    let mut failed = false;
    for (index, step) in steps.iter().enumerate() {
        if !step_is_due(step, failed) {
            continue;
        }
        let works = Some(index) != fails_at;
        match step {
            ExtractStep::CreateDir(_) => {}
            ExtractStep::Unpack(d) => {
                places.push((d.clone(), if works { Holds::New } else { Holds::Broken }))
            }
            ExtractStep::Hoist { dir, .. } => {
                if !works {
                    places.push((dir.clone(), Holds::Broken))
                }
            }
            ExtractStep::SetAside { target, backup } => {
                if works {
                    let held = get(&places, target);
                    places.push((backup.clone(), held));
                    places.push((target.clone(), Holds::Nothing));
                }
            }
            ExtractStep::PutInPlace { from, target } => {
                if works {
                    let held = get(&places, from);
                    places.push((target.clone(), held));
                    places.push((from.clone(), Holds::Nothing));
                }
            }
            ExtractStep::Restore { backup, target } => {
                if works
                    && get(&places, backup) != Holds::Nothing
                    && get(&places, target) == Holds::Nothing
                {
                    let held = get(&places, backup);
                    places.push((target.clone(), held));
                    places.push((backup.clone(), Holds::Nothing));
                }
            }
            ExtractStep::Discard(d) | ExtractStep::CleanUp(d) => {
                if works {
                    places.push((d.clone(), Holds::Nothing))
                }
            }
            ExtractStep::ReplaceElevated { target, .. } => {
                places.push((target.clone(), if works { Holds::New } else { Holds::Broken }))
            }
        }
        if !works && step_failure_counts(step) {
            failed = true;
        }
    }
    (get(&places, target), failed)
}

#[test]
fn own_target_is_replaced_in_full_or_left_as_it_was() {
    let t = "/home/a/.config/quickshell/noctalia-shell";
    let steps = extraction_steps(t, true, "/tmp", "7");
    assert_eq!(simulate(&steps, t, None), (Holds::New, false));
    for fails_at in 0..steps.len() {
        let (held, failed) = simulate(&steps, t, Some(fails_at));
        if failed {
            assert_eq!(held, Holds::Old, "step {} failed", fails_at);
        } else {
            assert_eq!(held, Holds::New, "step {} failed", fails_at);
        }
        assert_eq!(failed, fails_at < 5, "step {}", fails_at);
    }
}

#[test]
fn steps_after_a_failure() {
    let steps = extraction_steps("/home/a/x", true, "/tmp", "7");
    let due_after_failure: Vec<bool> = steps.iter().map(|s| step_is_due(s, true)).collect();
    assert_eq!(due_after_failure, vec![false, false, false, false, false, true, false, true]);
    let due_without: Vec<bool> = steps.iter().map(|s| step_is_due(s, false)).collect();
    assert_eq!(due_without, vec![true, true, true, true, true, false, true, true]);
    let counts: Vec<bool> = steps.iter().map(step_failure_counts).collect();
    assert_eq!(counts, vec![true, true, true, true, true, false, false, false]);
}

#[test]
fn system_target_is_left_to_the_helper() {
    for exists in [true, false] {
        let steps = extraction_steps("/etc/xdg/quickshell/noctalia-shell", exists, "/tmp", "99");
        let stage = "/tmp/noctalia-shell-update-99";
        assert_eq!(steps.len(), 5);
        assert!(matches!(&steps[0], ExtractStep::CreateDir(d) if d == stage));
        assert!(matches!(&steps[1], ExtractStep::Unpack(d) if d == stage));
        assert!(matches!(
            &steps[2],
            ExtractStep::Hoist { dir, into }
                if dir == stage && into == "/tmp/noctalia-shell-update-99/noctalia-shell"
        ));
        assert!(matches!(
            &steps[3],
            ExtractStep::ReplaceElevated { stage: s, target }
                if s == stage && target == "/etc/xdg/quickshell/noctalia-shell"
        ));
        assert!(matches!(&steps[4], ExtractStep::CleanUp(d) if d == stage));
    }
}
