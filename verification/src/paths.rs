//! Where things are: installation targets, the staging directory for
//! downloads, the state file.
//!
//! Paths are texts with `/` between their components. Whether a path exists
//! is for the caller to find out; this module computes the paths to look at
//! and draws the conclusions.

use vstd::prelude::*;
use vstd::string::StringExecFns;

use crate::text::{chars_of, find_from, first_index, followed_by, matches_at};

verus! {

/// The installation directory that belongs to the system.
pub open spec fn system_install_path() -> Seq<char> {
    "/etc/xdg/quickshell/noctalia-shell"@
}

/// The installation directory of a user, below the home directory.
pub open spec fn user_install_suffix() -> Seq<char> {
    ".config/quickshell/noctalia-shell"@
}

/// `rel` below `base`: an absolute `rel` stands for itself; else it follows
/// `base`, after one `/` unless `base` is empty or ends in one.
pub open spec fn path_joined(base: Seq<char>, rel: Seq<char>) -> Seq<char> {
    if rel.len() > 0 && rel[0] == '/' {
        rel
    } else if base.len() == 0 || base.last() == '/' {
        base + rel
    } else {
        base + seq!['/'] + rel
    }
}

/// The first component of `s` that is neither empty nor `.`; empty where
/// there is none.
pub open spec fn first_component(s: Seq<char>) -> Seq<char>
    decreases s.len(),
{
    if s.len() == 0 {
        Seq::empty()
    } else {
        let n = first_index(s, '/') as int;
        let head = s.subrange(0, n);
        if head.len() == 0 || head == seq!['.'] {
            if n < s.len() {
                first_component(s.subrange(n + 1, s.len() as int))
            } else {
                Seq::empty()
            }
        } else {
            head
        }
    }
}

/// Whether `path` lies in the part of the file system that belongs to the
/// system: it is absolute and its first component is `etc`. Only whole
/// components count, so `/etcetera` does not.
pub open spec fn under_system_root(path: Seq<char>) -> bool {
    path.len() > 0 && path[0] == '/' && first_component(path.drop_first()) == "etc"@
}

/// `rel` below `base`.
pub fn path_join(base: &str, rel: &str) -> (r: String)
    ensures
        r@ == path_joined(base@, rel@),
{
    let b = chars_of(base);
    let l = chars_of(rel);
    if l.len() > 0 && l[0] == '/' {
        rel.to_owned()
    } else if b.len() == 0 || b[b.len() - 1] == '/' {
        followed_by(base, rel)
    } else {
        proof {
            reveal_strlit("/");
            assert("/"@ =~= seq!['/']);
        }
        let mut r = followed_by(base, "/");
        r.append(rel);
        r
    }
}

/// Whether changes below `path` need the privilege helper.
pub fn needs_elevation(path: &str) -> (r: bool)
    ensures
        r == under_system_root(path@),
{
    let p = chars_of(path);
    let etc = chars_of("etc");
    let n = p.len();
    if n == 0 || p[0] != '/' {
        return false;
    }
    let mut pos: usize = 1;
    proof {
        assert(p@.subrange(1, n as int) =~= p@.drop_first());
    }
    while pos < n
        invariant
            n == p@.len(),
            p@ == path@,
            p@[0] == '/',
            1 <= pos <= n,
            etc@ == "etc"@,
            first_component(p@.subrange(pos as int, n as int)) == first_component(p@.drop_first()),
        decreases n - pos,
    {
        let slash = find_from(&p, pos, '/');
        let ghost rest = p@.subrange(pos as int, n as int);
        let ghost head = p@.subrange(pos as int, slash as int);
        proof {
            reveal_strlit("etc");
            assert(rest.subrange(0, slash - pos) =~= head);
            if slash < n {
                assert(rest.subrange(slash - pos + 1, rest.len() as int) =~= p@.subrange(
                    slash + 1,
                    n as int,
                ));
            }
            if head.len() == 1 {
                assert(head =~= seq![p@[pos as int]]);
                assert(seq![p@[pos as int]][0] == p@[pos as int]);
            }
        }
        if slash == pos || (slash == pos + 1 && p[pos] == '.') {
            if slash < n {
                pos = slash + 1;
            } else {
                return false;
            }
        } else {
            proof {
                if slash - pos == etc@.len() {
                    assert(p@.subrange(pos as int, pos + etc@.len()) =~= head);
                }
            }
            return slash - pos == etc.len() && matches_at(&p, &etc, pos);
        }
    }
    proof {
        reveal_strlit("etc");
    }
    false
}

/// The installation directory that belongs to the system.
pub fn system_install_dir() -> (r: &'static str)
    ensures
        r@ == system_install_path(),
{
    "/etc/xdg/quickshell/noctalia-shell"
}

/// The installation directory of the user whose home directory is `home`,
/// which is where a fresh installation goes.
pub fn target_root(home: &str) -> (r: String)
    ensures
        r@ == path_joined(home@, user_install_suffix()),
{
    path_join(home, ".config/quickshell/noctalia-shell")
}

/// Whether an installation of the shell is in evidence: the system's
/// directory exists, or the user's does and the home directory is known
/// and not empty.
pub open spec fn installation_in_evidence(
    home: Option<Seq<char>>,
    system_exists: bool,
    user_exists: bool,
) -> bool {
    system_exists || (home is Some && home->0.len() > 0 && user_exists)
}

/// Whether an installation of the shell is in evidence. `system_exists` and
/// `user_exists` say whether the system's directory and the user's
/// (`target_root` of `home`) exist.
pub fn check_shell_installed(home: Option<&str>, system_exists: bool, user_exists: bool) -> (r:
    bool)
    ensures
        r == installation_in_evidence(
            match home {
                Some(h) => Some(h@),
                None => None,
            },
            system_exists,
            user_exists,
        ),
{
    if system_exists {
        return true;
    }
    match home {
        Some(h) => {
            let known = chars_of(h).len() > 0;
            known && user_exists
        },
        None => false,
    }
}

/// Where the shell is installed: nowhere that could be found while the home
/// directory is unknown; else the system's directory where it exists, else
/// the user's where it exists.
pub open spec fn installation_found(
    home: Option<Seq<char>>,
    system_exists: bool,
    user_exists: bool,
) -> Option<Seq<char>> {
    if home is None {
        None
    } else if system_exists {
        Some(system_install_path())
    } else if user_exists {
        Some(path_joined(home->0, user_install_suffix()))
    } else {
        None
    }
}

/// Where the shell is installed, if anywhere. `system_exists` and
/// `user_exists` say whether the system's directory and the user's exist.
pub fn find_installation_path(home: Option<&str>, system_exists: bool, user_exists: bool) -> (r:
    Option<String>)
    ensures
        r is Some <==> installation_found(
            match home {
                Some(h) => Some(h@),
                None => None,
            },
            system_exists,
            user_exists,
        ) is Some,
        r is Some ==> Some(r->0@) == installation_found(
            match home {
                Some(h) => Some(h@),
                None => None,
            },
            system_exists,
            user_exists,
        ),
{
    match home {
        None => None,
        Some(h) => {
            if system_exists {
                Some(system_install_dir().to_owned())
            } else if user_exists {
                Some(target_root(h))
            } else {
                None
            }
        },
    }
}

/// The directory that an update replaces: the installation that was found,
/// else the user's directory.
pub fn update_target(home: &str, system_exists: bool, user_exists: bool) -> (r: String)
    ensures
        r@ == (if system_exists {
            system_install_path()
        } else {
            path_joined(home@, user_install_suffix())
        }),
{
    if system_exists {
        system_install_dir().to_owned()
    } else {
        target_root(home)
    }
}

/// The directory to try first for downloads: `Downloads` below the home
/// directory, or below `/tmp` where there is no home directory.
pub fn downloads_candidate(home: Option<&str>) -> (r: String)
    ensures
        r@ == path_joined(
            match home {
                Some(h) => h@,
                None => "/tmp"@,
            },
            "Downloads"@,
        ),
{
    match home {
        Some(h) => path_join(h, "Downloads"),
        None => path_join("/tmp", "Downloads"),
    }
}

/// The staging directory for downloads: the candidate where it exists or
/// could be created, else `/tmp`.
pub fn downloads_dir(home: Option<&str>, candidate_usable: bool) -> (r: String)
    ensures
        r@ == (if candidate_usable {
            path_joined(
                match home {
                    Some(h) => h@,
                    None => "/tmp"@,
                },
                "Downloads"@,
            )
        } else {
            "/tmp"@
        }),
{
    if candidate_usable {
        downloads_candidate(home)
    } else {
        "/tmp".to_owned()
    }
}

/// The directories of a program, as the crate `directories` tells them.
#[verifier::external_type_specification]
#[verifier::external_body]
pub struct ExProjectDirs(directories::ProjectDirs);

/// The three names under which this program is known to the platform: a
/// qualifier, the organization and the application.
pub open spec fn program_names() -> (Seq<char>, Seq<char>, Seq<char>) {
    ("dev"@, "noctalia"@, "noctalia"@)
}

/// The three names under which this program is known to the platform. They
/// decide where the platform puts the program's configuration.
pub fn project_names() -> (r: (&'static str, &'static str, &'static str))
    ensures
        (r.0@, r.1@, r.2@) == program_names(),
{
    ("dev", "noctalia", "noctalia")
}

/// Calls `directories::ProjectDirs::from` with the three names of this
/// program, and with no others. The answer depends on the environment, so
/// nothing is claimed of it; it is `None` where no home directory is known.
#[verifier::external_body]
fn project_dirs(qualifier: &str, organization: &str, application: &str) -> Option<
    directories::ProjectDirs,
>
    requires
        (qualifier@, organization@, application@) == program_names(),
{
    directories::ProjectDirs::from(qualifier, organization, application)
}

/// Calls `directories::ProjectDirs::config_dir` and gives the directory as
/// text. What it is was settled by the environment when `dirs` was made, so
/// nothing is claimed of it; it is `None` where the directory's name is not
/// valid text.
#[verifier::external_body]
fn config_dir_of(dirs: &directories::ProjectDirs) -> Option<String> {
    Some(dirs.config_dir().to_str()?.to_owned())
}

/// The name of the state file.
pub open spec fn state_file_name() -> Seq<char> {
    "cli.toml"@
}

/// The state file in the configuration directory `dir`.
pub fn config_file_in(dir: &str) -> (r: String)
    ensures
        r@ == path_joined(dir@, state_file_name()),
{
    path_join(dir, "cli.toml")
}

/// The state file, given the user's configuration directory for this
/// program, or `None` where that directory could not be told: the file lies
/// in the directory, and without a directory there is no file.
pub fn config_path_in(dir: Option<&str>) -> (r: Option<String>)
    ensures
        r is Some <==> dir is Some,
        r is Some ==> r->0@ == path_joined(dir->0@, state_file_name()),
{
    match dir {
        Some(d) => Some(config_file_in(d)),
        None => None,
    }
}

/// The state file in the user's configuration directory for this program;
/// `None` where that directory cannot be told. The directory is asked of the
/// platform under the names that `project_names` gives; what comes of the
/// answer is what `config_path_in` says.
pub fn config_path() -> (r: Option<String>)
    ensures
        r is Some ==> exists|dir: Seq<char>| r->0@ == path_joined(dir, state_file_name()),
{
    let names = project_names();
    let dirs = match project_dirs(names.0, names.1, names.2) {
        Some(dirs) => dirs,
        None => {
            return config_path_in(None);
        },
    };
    match config_dir_of(&dirs) {
        Some(dir) => config_path_in(Some(dir.as_str())),
        None => config_path_in(None),
    }
}

} // verus!
