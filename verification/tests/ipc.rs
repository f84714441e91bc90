use noctalia::ipc::{
    debug_variable, format_function_signature, format_ipc_show_output, ipc_call_command,
    ipc_show_command, is_noctalia_running, passed_exit_status, process_listing_command,
    process_listing_shows_shell, process_search_command, run_command,
};

fn reference_signature(func_sig: &str) -> String {
    if let Some(paren_start) = func_sig.find('(') {
        let func_name = &func_sig[..paren_start];
        let rest = &func_sig[paren_start + 1..];
        if let Some(paren_end) = rest.find(')') {
            let params = &rest[..paren_end];
            let param_names: Vec<String> = params
                .split(',')
                .map(|p| {
                    let p = p.trim();
                    if let Some(colon_pos) = p.find(':') {
                        p[..colon_pos].trim().to_string()
                    } else {
                        p.to_string()
                    }
                })
                .filter(|p| !p.is_empty())
                .collect();
            if param_names.is_empty() {
                func_name.to_string()
            } else {
                format!("{}({})", func_name, param_names.join(", "))
            }
        } else {
            func_name.to_string()
        }
    } else {
        func_sig.to_string()
    }
}

#[test]
fn signature_loses_its_types() {
    assert_eq!(
        format_function_signature("set(path: string, screen: string): void"),
        "set(path, screen)"
    );
    assert_eq!(format_function_signature("toggle(): void"), "toggle");
    assert_eq!(format_function_signature("plain"), "plain");
    assert_eq!(format_function_signature("open(x"), "open");
    assert_eq!(format_function_signature("f(a,b)"), "f(a, b)");
    assert_eq!(format_function_signature("f( , :int, b )"), "f(b)");
    assert_eq!(format_function_signature(""), "");
    assert_eq!(format_function_signature("("), "");
    assert_eq!(format_function_signature("()"), "");
}

#[test]
fn signature_agrees_with_the_text_functions() {
    for sig in [
        "", "a", "a(", "a()", "a(b)", "a(b:c)", "a(b:c,d:e)", "a( b : c , d )", "a(,)", "a(,,x,,)",
        "a(:)", "a(b):c(d)", ")a(b", "a)(b)", "a(b)(c)", "a((b)", " a ( b ) ", "a(b:c:d, e::f)",
        "f(\u{e9}t\u{e9}: string, \u{3000}x\u{a0}: y)", "f(a\t:\tb,\nc)", "set(path: string): void",
        "f(  )", "f( : )", "f(a,)", "f(,a)", "f(a:,b)",
    ] {
        assert_eq!(format_function_signature(sig), reference_signature(sig), "{:?}", sig);
    }
}

fn shown(output: &str) -> Vec<(String, Vec<String>)> {
    format_ipc_show_output(output).into_iter().map(|t| (t.name, t.functions)).collect()
}

fn reference_listing(output: &str) -> Vec<(String, Vec<String>)> {
    let mut out = Vec::new();
    let mut current_target: Option<String> = None;
    let mut functions: Vec<String> = Vec::new();
    for line in output.lines() {
        let line = line.trim();
        if line.is_empty() {
            continue;
        }
        if line.starts_with("target ") {
            if let Some(target) = current_target.take() {
                out.push((target, functions.clone()));
                functions.clear();
            }
            current_target = Some(line.trim_start_matches("target ").to_string());
        } else if line.starts_with("function ") {
            let func_sig = line.trim_start_matches("function ");
            functions.push(reference_signature(func_sig));
        }
    }
    if let Some(target) = current_target {
        out.push((target, functions));
    }
    out
}

#[test]
fn listing_is_grouped_by_target() {
    let output = "target wallpaper\n  function set(path: string, screen: string): void\n  function random(): void\ntarget bar\n  function toggle(): void\n";
    assert_eq!(
        shown(output),
        vec![
            ("wallpaper".to_string(), vec!["set(path, screen)".to_string(), "random".to_string()]),
            ("bar".to_string(), vec!["toggle".to_string()]),
        ]
    );
}

#[test]
fn listing_without_targets_is_empty() {
    assert_eq!(shown(""), vec![]);
    assert_eq!(shown("function f(): void\nnoise\n"), vec![]);
    assert_eq!(shown("target\n"), vec![]);
}

#[test]
fn functions_before_the_first_target_go_to_it() {
    assert_eq!(
        shown("function early()\ntarget a\nfunction late()\ntarget b\n"),
        vec![
            ("a".to_string(), vec!["early".to_string(), "late".to_string()]),
            ("b".to_string(), vec![]),
        ]
    );
}

#[test]
fn listing_agrees_with_the_text_functions() {
    for output in [
        "",
        "\n\n",
        "target a",
        "target a\n",
        "  target  a  \r\n\tfunction f(x: int)\r\n",
        "target target b\nfunction function g()\n",
        "function f()\ntarget a\ntarget b\nfunction h(a: b, c)\nprops\ntarget c",
        "targets\nfunctions\ntarget \nfunction \n",
        "target a\nfunction f(\nfunction )\nfunction (a)\n",
        "target x\u{a0}\n\u{3000}function f(\u{e9}: t)\n",
    ] {
        assert_eq!(shown(output), reference_listing(output), "{:?}", output);
    }
}

#[test]
fn process_listing() {
    assert!(process_listing_shows_shell("bash\nqs -c noctalia-shell\nvim\n"));
    assert!(process_listing_shows_shell("/usr/bin/noctalia-shell --with qs"));
    assert!(!process_listing_shows_shell("qs -c other\nnoctalia-shell\n"));
    assert!(!process_listing_shows_shell(""));
    assert!(!process_listing_shows_shell("\n\n"));
    for listing in ["a\nqs noctalia-shell", "qs\nnoctalia-shell", "xqsnoctalia-shellx\n", "q s noctalia-shell"] {
        let expected =
            listing.lines().any(|line| line.contains("qs") && line.contains("noctalia-shell"));
        assert_eq!(process_listing_shows_shell(listing), expected, "{:?}", listing);
    }
}

#[test]
fn running_check_prefers_the_probe() {
    assert!(is_noctalia_running(Some(true), None));
    assert!(!is_noctalia_running(Some(false), Some("qs -c noctalia-shell")));
    assert!(is_noctalia_running(None, Some("qs -c noctalia-shell")));
    assert!(!is_noctalia_running(None, Some("bash")));
    assert!(!is_noctalia_running(None, None));
}

#[test]
fn control_commands() {
    assert_eq!(run_command(), vec!["qs", "-c", "noctalia-shell"]);
    assert_eq!(
        ipc_call_command("wallpaper", "random"),
        vec!["qs", "-c", "noctalia-shell", "ipc", "call", "wallpaper", "random"]
    );
    assert_eq!(ipc_show_command(), vec!["qs", "-c", "noctalia-shell", "ipc", "show"]);
    assert_eq!(process_search_command(), vec!["pgrep", "-f", "qs.*noctalia-shell"]);
    assert_eq!(process_listing_command(), vec!["ps", "-eo", "cmd"]);
    assert_eq!(debug_variable(), ("NOCTALIA_DEBUG", "1"));
}

#[test]
fn exit_status_is_passed_on() {
    assert_eq!(passed_exit_status(true, Some(0)), 0);
    assert_eq!(passed_exit_status(true, None), 0);
    assert_eq!(passed_exit_status(false, Some(3)), 3);
    assert_eq!(passed_exit_status(false, None), 1);
}
