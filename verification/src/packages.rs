//! System packages that the shell needs, per distribution family.
//!
//! The commands of the native package managers are run by the caller; this
//! module holds what is queried, how an answer is read, which packages are
//! left to install and whether the installation may go on at all.

use vstd::prelude::*;

use crate::distro::Distribution;
use crate::text::{chars_of, contains, followed_by, has_substring, join, joined, str_eq, texts};

verus! {

/// The characters of each string slice of `v`.
pub open spec fn names<'a>(v: Seq<&'a str>) -> Seq<Seq<char>> {
    v.map_values(|s: &'a str| s@)
}

/// The mathematical value of a package mapping.
pub open spec fn mapping_view(m: Seq<(&'static str, Option<&'static str>)>) -> Seq<
    (Seq<char>, Option<Seq<char>>),
> {
    m.map_values(
        |e: (&'static str, Option<&'static str>)|
            (
                e.0@,
                match e.1 {
                    Some(p) => Some(p@),
                    None => None,
                },
            ),
    )
}

/// The generic names of the packages that the shell depends on.
pub open spec fn required_names() -> Seq<Seq<char>> {
    seq!["quickshell"@, "gpu-screen-recorder"@, "brightnessctl"@]
}

/// Whether the default repositories of `dist` carry the windowing shell.
pub open spec fn carries_quickshell(dist: Distribution) -> bool {
    dist == Distribution::Arch || dist == Distribution::Void
}

/// For each required package, its name in the default repositories of `dist`,
/// or `None` where they do not carry it.
pub open spec fn package_mapping(dist: Distribution) -> Seq<(Seq<char>, Option<Seq<char>>)> {
    if dist == Distribution::Unknown {
        seq![
            ("quickshell"@, None),
            ("gpu-screen-recorder"@, None),
            ("brightnessctl"@, None),
        ]
    } else {
        seq![
            (
                "quickshell"@,
                if carries_quickshell(dist) {
                    Some("quickshell"@)
                } else {
                    None
                },
            ),
            ("gpu-screen-recorder"@, Some("gpu-screen-recorder"@)),
            ("brightnessctl"@, Some("brightnessctl"@)),
        ]
    }
}

/// The mapping names the required packages, in their order, whatever the
/// family.
pub proof fn lemma_mapping_covers_required(dist: Distribution)
    ensures
        package_mapping(dist).len() == required_names().len(),
        forall|i: int|
            0 <= i < required_names().len() ==> (#[trigger] package_mapping(dist)[i]).0
                == required_names()[i],
{
}

/// The generic names of the packages that the shell depends on.
pub fn required_packages() -> (r: Vec<&'static str>)
    ensures
        names(r@) == required_names(),
{
    let r = vec!["quickshell", "gpu-screen-recorder", "brightnessctl"];
    assert(names(r@) =~= required_names());
    r
}

/// For each required package, its name in the default repositories of `dist`,
/// or `None` where they do not carry it.
pub fn get_package_mapping(dist: Distribution) -> (r: Vec<(&'static str, Option<&'static str>)>)
    ensures
        mapping_view(r@) == package_mapping(dist),
{
    let quickshell: Option<&'static str> = match dist {
        Distribution::Arch | Distribution::Void => Some("quickshell"),
        _ => None,
    };
    let r = match dist {
        Distribution::Unknown => vec![
            ("quickshell", None),
            ("gpu-screen-recorder", None),
            ("brightnessctl", None),
        ],
        _ => vec![
            ("quickshell", quickshell),
            ("gpu-screen-recorder", Some("gpu-screen-recorder")),
            ("brightnessctl", Some("brightnessctl")),
        ],
    };
    assert(mapping_view(r@) =~= package_mapping(dist));
    r
}

/// A helper that installs packages from the Arch user repository.
#[derive(Clone, Copy, Debug, PartialEq, Eq, Structural)]
pub enum AurHelper {
    Yay,
    Paru,
}

impl AurHelper {
    /// The name of the helper's program.
    pub open spec fn spec_program(self) -> Seq<char> {
        match self {
            AurHelper::Yay => "yay"@,
            AurHelper::Paru => "paru"@,
        }
    }

    /// The name of the helper's program.
    pub fn program(self) -> (r: &'static str)
        ensures
            r@ == self.spec_program(),
    {
        match self {
            AurHelper::Yay => "yay",
            AurHelper::Paru => "paru",
        }
    }
}

/// The helper to use, given which ones answered a probe: `yay` before `paru`.
pub fn choose_aur_helper(yay_found: bool, paru_found: bool) -> (r: Option<AurHelper>)
    ensures
        r == (if yay_found {
            Some(AurHelper::Yay)
        } else if paru_found {
            Some(AurHelper::Paru)
        } else {
            None
        }),
{
    if yay_found {
        Some(AurHelper::Yay)
    } else if paru_found {
        Some(AurHelper::Paru)
    } else {
        None
    }
}

/// The command that probes for `helper`.
pub fn aur_probe_command(helper: AurHelper) -> (r: Vec<String>)
    ensures
        texts(r@) == seq![helper.spec_program(), "--version"@],
{
    let r = vec![helper.program().to_owned(), "--version".to_owned()];
    assert(texts(r@) =~= seq![helper.spec_program(), "--version"@]);
    r
}

/// The words with which the package database of `dist` is asked about a
/// package, before the package's name.
pub open spec fn query_head(dist: Distribution) -> Option<Seq<Seq<char>>> {
    match dist {
        Distribution::Arch => Some(seq!["pacman"@, "-Q"@]),
        Distribution::Fedora => Some(seq!["rpm"@, "-q"@]),
        Distribution::Debian => Some(seq!["dpkg"@, "-l"@]),
        Distribution::Gentoo => Some(seq!["equery"@, "list"@]),
        Distribution::Void => Some(seq!["xbps-query"@]),
        Distribution::Unknown => None,
    }
}

/// The words with which packages are installed on `dist`, before their names.
/// On the Arch family the program is the helper, and there is no command
/// without one.
pub open spec fn install_head(dist: Distribution, helper: Option<AurHelper>) -> Option<
    Seq<Seq<char>>,
> {
    match dist {
        Distribution::Arch => match helper {
            Some(h) => Some(seq![h.spec_program(), "-S"@, "--noconfirm"@]),
            None => None,
        },
        Distribution::Fedora => Some(seq!["sudo"@, "dnf"@, "install"@, "-y"@]),
        Distribution::Debian => Some(seq!["sudo"@, "apt"@, "install"@, "-y"@]),
        Distribution::Gentoo => Some(seq!["sudo"@, "emerge"@, "-av"@]),
        Distribution::Void => Some(seq!["sudo"@, "xbps-install"@, "-S"@, "-y"@]),
        Distribution::Unknown => None,
    }
}

/// The command that enables the third-party repository which carries the
/// windowing shell for Fedora.
pub open spec fn copr_enable_words() -> Seq<Seq<char>> {
    seq!["sudo"@, "dnf"@, "copr"@, "enable"@, "-y"@, "errornointernet/quickshell"@]
}

/// `head` as owned strings, followed by copies of `tail`.
fn command_line(head: Vec<&'static str>, tail: &Vec<String>) -> (r: Vec<String>)
    ensures
        texts(r@) == names(head@) + texts(tail@),
{
    let mut r: Vec<String> = Vec::new();
    let mut i: usize = 0;
    while i < head.len()
        invariant
            i <= head@.len(),
            texts(r@) == names(head@).subrange(0, i as int),
        decreases head@.len() - i,
    {
        let ghost before = r@;
        r.push(head[i].to_owned());
        proof {
            assert(texts(r@) =~= texts(before).push(head@[i as int]@));
            assert(texts(r@) =~= names(head@).subrange(0, i + 1));
        }
        i += 1;
    }
    proof {
        assert(names(head@).subrange(0, i as int) =~= names(head@));
        assert(texts(r@) =~= names(head@) + texts(tail@).subrange(0, 0));
    }
    let mut j: usize = 0;
    while j < tail.len()
        invariant
            j <= tail@.len(),
            texts(r@) == names(head@) + texts(tail@).subrange(0, j as int),
        decreases tail@.len() - j,
    {
        let ghost before = r@;
        r.push(tail[j].clone());
        proof {
            assert(texts(r@) =~= texts(before).push(tail@[j as int]@));
            assert(texts(r@) =~= names(head@) + texts(tail@).subrange(0, j + 1));
        }
        j += 1;
    }
    proof {
        assert(texts(tail@).subrange(0, j as int) =~= texts(tail@));
    }
    r
}

/// The command that asks the package database of `dist` whether `package`
/// is installed; `None` where the family is unknown.
pub fn query_command(dist: Distribution, package: &str) -> (r: Option<Vec<String>>)
    ensures
        r is Some <==> query_head(dist) is Some,
        r is Some ==> texts(r->0@) == query_head(dist)->0.push(package@),
{
    let head: Vec<&'static str> = match dist {
        Distribution::Arch => vec!["pacman", "-Q"],
        Distribution::Fedora => vec!["rpm", "-q"],
        Distribution::Debian => vec!["dpkg", "-l"],
        Distribution::Gentoo => vec!["equery", "list"],
        Distribution::Void => vec!["xbps-query"],
        Distribution::Unknown => {
            return None;
        },
    };
    let tail = vec![package.to_owned()];
    let r = command_line(head, &tail);
    proof {
        assert(names(head@) =~= query_head(dist)->0);
        assert(texts(tail@) =~= seq![package@]);
        assert(texts(r@) =~= query_head(dist)->0.push(package@));
    }
    Some(r)
}

/// Whether the answer to a query means that the package is installed. The
/// query must have succeeded; on the Debian family its output must also show
/// the mark `ii`.
pub open spec fn shows_installed(dist: Distribution, succeeded: bool, output: Seq<char>) -> bool {
    succeeded && (dist == Distribution::Debian ==> contains(output, "ii"@))
}

/// Whether the answer to a query means that the package is installed.
/// `succeeded` is false where the query could not be run or failed.
pub fn query_shows_installed(dist: Distribution, succeeded: bool, output: &str) -> (r: bool)
    ensures
        r == shows_installed(dist, succeeded, output@),
{
    if !succeeded {
        return false;
    }
    match dist {
        Distribution::Debian => has_substring(&chars_of(output), &chars_of("ii")),
        _ => true,
    }
}

/// The command that installs `packages` on `dist`; `None` where there is no
/// such command: on an unknown family, and on the Arch family without a helper.
pub fn install_command(dist: Distribution, helper: Option<AurHelper>, packages: &Vec<String>) -> (r:
    Option<Vec<String>>)
    ensures
        r is Some <==> install_head(dist, helper) is Some,
        r is Some ==> texts(r->0@) == install_head(dist, helper)->0 + texts(packages@),
{
    let head: Vec<&'static str> = match dist {
        Distribution::Arch => match helper {
            Some(h) => vec![h.program(), "-S", "--noconfirm"],
            None => {
                return None;
            },
        },
        Distribution::Fedora => vec!["sudo", "dnf", "install", "-y"],
        Distribution::Debian => vec!["sudo", "apt", "install", "-y"],
        Distribution::Gentoo => vec!["sudo", "emerge", "-av"],
        Distribution::Void => vec!["sudo", "xbps-install", "-S", "-y"],
        Distribution::Unknown => {
            return None;
        },
    };
    let r = command_line(head, packages);
    proof {
        assert(names(head@) =~= install_head(dist, helper)->0);
    }
    Some(r)
}

/// The command that enables the third-party repository which carries the
/// windowing shell for Fedora.
pub fn copr_enable_command() -> (r: Vec<String>)
    ensures
        texts(r@) == copr_enable_words(),
{
    let head = vec!["sudo", "dnf", "copr", "enable", "-y", "errornointernet/quickshell"];
    let r = command_line(head, &Vec::new());
    proof {
        assert(names(head@) =~= copr_enable_words());
        assert(texts(r@) =~= copr_enable_words());
    }
    r
}

/// The required packages, split by what has to happen to each.
#[derive(Debug)]
pub struct PackagePlan {
    /// Generic names of the packages that are installed already.
    pub installed: Vec<String>,
    /// Native names of the packages that are left to install.
    pub to_install: Vec<String>,
    /// Generic names of the packages that the repositories do not carry.
    pub missing: Vec<String>,
}

/// The mathematical value of a `PackagePlan`.
pub struct Plan {
    pub installed: Seq<Seq<char>>,
    pub to_install: Seq<Seq<char>>,
    pub missing: Seq<Seq<char>>,
}

impl View for PackagePlan {
    type V = Plan;

    open spec fn view(&self) -> Plan {
        Plan {
            installed: texts(self.installed@),
            to_install: texts(self.to_install@),
            missing: texts(self.missing@),
        }
    }
}

/// Where one mapping entry goes: without a native name it is missing; found
/// in the package database it is installed; else it is left to install.
pub open spec fn placed(plan: Plan, entry: (Seq<char>, Option<Seq<char>>), found: bool) -> Plan {
    match entry.1 {
        None => Plan { missing: plan.missing.push(entry.0), ..plan },
        Some(native) => if found {
            Plan { installed: plan.installed.push(entry.0), ..plan }
        } else {
            Plan { to_install: plan.to_install.push(native), ..plan }
        },
    }
}

/// The plan for `mapping`, where `found[i]` says whether the package database
/// holds the package of entry `i`. An entry without an answer counts as not
/// found. Each list keeps the order of the mapping.
pub open spec fn partitioned(mapping: Seq<(Seq<char>, Option<Seq<char>>)>, found: Seq<bool>) -> Plan
    decreases mapping.len(),
{
    if mapping.len() == 0 {
        Plan { installed: Seq::empty(), to_install: Seq::empty(), missing: Seq::empty() }
    } else {
        let i = mapping.len() - 1;
        placed(partitioned(mapping.drop_last(), found), mapping.last(), i < found.len() && found[i])
    }
}

/// Every mapping entry goes to exactly one list, and an entry is missing
/// exactly where it has no native name.
pub proof fn lemma_partition_is_total(
    mapping: Seq<(Seq<char>, Option<Seq<char>>)>,
    found: Seq<bool>,
)
    ensures
        partitioned(mapping, found).installed.len() + partitioned(mapping, found).to_install.len()
            + partitioned(mapping, found).missing.len() == mapping.len(),
        partitioned(mapping, found).missing.len() == 0 <==> forall|i: int|
            0 <= i < mapping.len() ==> (#[trigger] mapping[i]).1 is Some,
    decreases mapping.len(),
{
    if mapping.len() > 0 {
        let front = mapping.drop_last();
        lemma_partition_is_total(front, found);
        if partitioned(mapping, found).missing.len() == 0 {
            assert forall|i: int| 0 <= i < mapping.len() implies (#[trigger] mapping[i]).1
                is Some by {
                if i < front.len() {
                    assert(front[i] == mapping[i]);
                }
            }
        } else if mapping.last().1 is Some {
            let i = choose|i: int| 0 <= i < front.len() && !((#[trigger] front[i]).1 is Some);
            assert(mapping[i] == front[i]);
        }
    }
}

/// The required packages of `mapping`, split by what has to happen to each.
/// `found[i]` says whether the package database holds the package of entry
/// `i`; an entry without an answer counts as not found.
pub fn partition_packages(
    mapping: &Vec<(&'static str, Option<&'static str>)>,
    found: &Vec<bool>,
) -> (r: PackagePlan)
    ensures
        r@ == partitioned(mapping_view(mapping@), found@),
{
    let mut plan = PackagePlan {
        installed: Vec::new(),
        to_install: Vec::new(),
        missing: Vec::new(),
    };
    let mut i: usize = 0;
    proof {
        assert(plan@.installed =~= Seq::empty());
        assert(plan@.to_install =~= Seq::empty());
        assert(plan@.missing =~= Seq::empty());
    }
    while i < mapping.len()
        invariant
            i <= mapping@.len(),
            plan@ == partitioned(mapping_view(mapping@).subrange(0, i as int), found@),
        decreases mapping@.len() - i,
    {
        let ghost before = plan@;
        proof {
            let next = mapping_view(mapping@).subrange(0, i + 1);
            assert(next.drop_last() =~= mapping_view(mapping@).subrange(0, i as int));
            assert(next.last() == mapping_view(mapping@)[i as int]);
        }
        let entry = mapping[i];
        match entry.1 {
            None => {
                plan.missing.push(entry.0.to_owned());
                proof {
                    assert(plan@.missing =~= before.missing.push(entry.0@));
                }
            },
            Some(native) => {
                if i < found.len() && found[i] {
                    plan.installed.push(entry.0.to_owned());
                    proof {
                        assert(plan@.installed =~= before.installed.push(entry.0@));
                    }
                } else {
                    plan.to_install.push(native.to_owned());
                    proof {
                        assert(plan@.to_install =~= before.to_install.push(native@));
                    }
                }
            },
        }
        i += 1;
    }
    proof {
        assert(mapping_view(mapping@).subrange(0, i as int) =~= mapping_view(mapping@));
    }
    plan
}

/// `s` without every occurrence of `x`.
pub open spec fn without(s: Seq<Seq<char>>, x: Seq<char>) -> Seq<Seq<char>>
    decreases s.len(),
{
    if s.len() == 0 {
        s
    } else if s.last() == x {
        without(s.drop_last(), x)
    } else {
        without(s.drop_last(), x).push(s.last())
    }
}

/// The generic name of the windowing shell package.
pub open spec fn quickshell() -> Seq<char> {
    "quickshell"@
}

/// Whether the user is offered the third-party repository: on the Fedora
/// family, where the windowing shell is missing.
pub open spec fn copr_offered(dist: Distribution, plan: Plan) -> bool {
    dist == Distribution::Fedora && plan.missing.contains(quickshell())
}

/// The plan once the third-party repository is enabled: the windowing shell
/// is no longer missing and is left to install, after the others.
pub open spec fn with_copr(plan: Plan) -> Plan {
    Plan {
        installed: plan.installed,
        to_install: plan.to_install.push(quickshell()),
        missing: without(plan.missing, quickshell()),
    }
}

/// What came of offering the third-party repository.
#[derive(Clone, Copy, Debug, PartialEq, Eq, Structural)]
pub enum CoprReply {
    /// The offer was not made.
    NotAsked,
    /// The user declined, or could not be asked.
    Declined,
    /// The user accepted and the repository was enabled.
    Enabled,
    /// The user accepted and enabling the repository failed.
    EnableFailed,
}

/// The plan after the offer: it changes only where the offer applied and the
/// repository was enabled.
pub open spec fn after_copr(dist: Distribution, plan: Plan, reply: CoprReply) -> Plan {
    if copr_offered(dist, plan) && reply == CoprReply::Enabled {
        with_copr(plan)
    } else {
        plan
    }
}

/// Why the dependencies could not be installed.
#[derive(Debug)]
pub enum DependencyError {
    /// The distribution family is unknown, so no package manager applies.
    UnknownDistribution,
    /// The repositories do not carry these packages (generic names).
    Unavailable(Vec<String>),
    /// No helper was found to install these packages (native names).
    NoAurHelper(Vec<String>),
    /// The package manager of this family ran and failed.
    InstallFailed(Distribution),
}

/// The mathematical value of a `DependencyError`.
pub enum DependencyFailure {
    UnknownDistribution,
    Unavailable(Seq<Seq<char>>),
    NoAurHelper(Seq<Seq<char>>),
    InstallFailed(Distribution),
}

impl View for DependencyError {
    type V = DependencyFailure;

    open spec fn view(&self) -> DependencyFailure {
        match self {
            DependencyError::UnknownDistribution => DependencyFailure::UnknownDistribution,
            DependencyError::Unavailable(p) => DependencyFailure::Unavailable(texts(p@)),
            DependencyError::NoAurHelper(p) => DependencyFailure::NoAurHelper(texts(p@)),
            DependencyError::InstallFailed(d) => DependencyFailure::InstallFailed(*d),
        }
    }
}

/// What to do about the dependencies once the plan is known.
#[derive(Debug)]
pub enum InstallDecision {
    /// Give up; nothing may be installed.
    Fail(DependencyError),
    /// Every dependency is installed already.
    NothingToDo,
    /// Run this command; the dependencies are met if it succeeds.
    Run(Vec<String>),
}

/// The mathematical value of an `InstallDecision`.
pub enum Decision {
    Fail(DependencyFailure),
    NothingToDo,
    Run(Seq<Seq<char>>),
}

impl View for InstallDecision {
    type V = Decision;

    open spec fn view(&self) -> Decision {
        match self {
            InstallDecision::Fail(e) => Decision::Fail(e@),
            InstallDecision::NothingToDo => Decision::NothingToDo,
            InstallDecision::Run(c) => Decision::Run(texts(c@)),
        }
    }
}

/// The decision for `plan` on `dist`. An unknown family fails; so does any
/// missing package, with all of them named. With nothing left to install
/// there is nothing to do. Else the family's install command is run on
/// exactly the packages left to install; where there is no such command
/// (the Arch family without a helper) the decision is a failure.
pub open spec fn decided(dist: Distribution, plan: Plan, helper: Option<AurHelper>) -> Decision {
    if dist == Distribution::Unknown {
        Decision::Fail(DependencyFailure::UnknownDistribution)
    } else if plan.missing.len() > 0 {
        Decision::Fail(DependencyFailure::Unavailable(plan.missing))
    } else if plan.to_install.len() == 0 {
        Decision::NothingToDo
    } else {
        match install_head(dist, helper) {
            Some(head) => Decision::Run(head + plan.to_install),
            None => Decision::Fail(DependencyFailure::NoAurHelper(plan.to_install)),
        }
    }
}

/// The decision on the dependencies of the shell on `dist`, from the answers
/// of the package database, the reply to the repository offer and the helper
/// that was found.
pub open spec fn dependencies_decided(
    dist: Distribution,
    found: Seq<bool>,
    helper: Option<AurHelper>,
    reply: CoprReply,
) -> Decision {
    decided(dist, after_copr(dist, partitioned(package_mapping(dist), found), reply), helper)
}

/// A command is run only with nothing missing and something left to install,
/// and then it installs exactly what is left; with anything missing the
/// decision is a failure that names all of it.
pub proof fn lemma_no_partial_installation(
    dist: Distribution,
    plan: Plan,
    helper: Option<AurHelper>,
)
    ensures
        plan.missing.len() > 0 ==> decided(dist, plan, helper) is Fail,
        plan.missing.len() > 0 && dist != Distribution::Unknown ==> decided(dist, plan, helper)
            == Decision::Fail(DependencyFailure::Unavailable(plan.missing)),
        decided(dist, plan, helper) is Run ==> plan.missing.len() == 0 && plan.to_install.len() > 0
            && install_head(dist, helper) is Some && decided(dist, plan, helper)
            == Decision::Run(install_head(dist, helper)->0 + plan.to_install),
        decided(dist, plan, helper) is NothingToDo ==> plan.missing.len() == 0
            && plan.to_install.len() == 0,
{
}

/// On a family whose repositories lack the windowing shell, the dependencies
/// fail unless it is Fedora and the third-party repository was enabled.
pub proof fn lemma_missing_shell_is_fatal(
    dist: Distribution,
    found: Seq<bool>,
    helper: Option<AurHelper>,
    reply: CoprReply,
)
    requires
        !carries_quickshell(dist),
        !(dist == Distribution::Fedora && reply == CoprReply::Enabled),
    ensures
        dependencies_decided(dist, found, helper, reply) is Fail,
{
    let m = package_mapping(dist);
    let plan = partitioned(m, found);
    reveal_with_fuel(partitioned, 4);
    assert(m.drop_last().drop_last().drop_last().len() == 0);
    if dist != Distribution::Unknown {
        assert(m.drop_last().drop_last()[0] == m[0]);
        assert(plan.missing.len() > 0);
    }
}

/// Whether `list` holds `name`.
fn holds(list: &Vec<String>, name: &str) -> (r: bool)
    ensures
        r == texts(list@).contains(name@),
{
    let mut i: usize = 0;
    while i < list.len()
        invariant
            i <= list@.len(),
            forall|j: int| 0 <= j < i ==> texts(list@)[j] != name@,
        decreases list@.len() - i,
    {
        if str_eq(list[i].as_str(), name) {
            assert(texts(list@)[i as int] == name@);
            return true;
        }
        i += 1;
    }
    false
}

/// A copy of `list` without every occurrence of `name`.
fn remove_all(list: &Vec<String>, name: &str) -> (r: Vec<String>)
    ensures
        texts(r@) == without(texts(list@), name@),
{
    let mut r: Vec<String> = Vec::new();
    let mut i: usize = 0;
    proof {
        assert(texts(r@) =~= without(texts(list@).subrange(0, 0), name@));
    }
    while i < list.len()
        invariant
            i <= list@.len(),
            texts(r@) == without(texts(list@).subrange(0, i as int), name@),
        decreases list@.len() - i,
    {
        let ghost before = r@;
        proof {
            let next = texts(list@).subrange(0, i + 1);
            assert(next.drop_last() =~= texts(list@).subrange(0, i as int));
            assert(next.last() == list@[i as int]@);
        }
        if !str_eq(list[i].as_str(), name) {
            r.push(list[i].clone());
            proof {
                assert(texts(r@) =~= texts(before).push(list@[i as int]@));
            }
        }
        i += 1;
    }
    proof {
        assert(texts(list@).subrange(0, i as int) =~= texts(list@));
    }
    r
}

/// Whether the user is to be offered the third-party repository.
pub fn copr_offer(dist: Distribution, plan: &PackagePlan) -> (r: bool)
    ensures
        r == copr_offered(dist, plan@),
{
    match dist {
        Distribution::Fedora => holds(&plan.missing, "quickshell"),
        _ => false,
    }
}

/// The plan after the repository offer; see `after_copr`.
pub fn apply_copr_reply(dist: Distribution, plan: PackagePlan, reply: CoprReply) -> (r: PackagePlan)
    ensures
        r@ == after_copr(dist, plan@, reply),
{
    if reply == CoprReply::Enabled && copr_offer(dist, &plan) {
        let missing = remove_all(&plan.missing, "quickshell");
        let mut to_install = plan.to_install;
        let ghost before = to_install@;
        to_install.push("quickshell".to_owned());
        proof {
            assert(texts(to_install@) =~= texts(before).push(quickshell()));
        }
        PackagePlan { installed: plan.installed, to_install, missing }
    } else {
        plan
    }
}

/// The decision for `plan` on `dist`; see `decided`.
pub fn decide_install(dist: Distribution, plan: PackagePlan, helper: Option<AurHelper>) -> (r:
    InstallDecision)
    ensures
        r@ == decided(dist, plan@, helper),
{
    if dist == Distribution::Unknown {
        return InstallDecision::Fail(DependencyError::UnknownDistribution);
    }
    if plan.missing.len() > 0 {
        return InstallDecision::Fail(DependencyError::Unavailable(plan.missing));
    }
    if plan.to_install.len() == 0 {
        return InstallDecision::NothingToDo;
    }
    match install_command(dist, helper, &plan.to_install) {
        Some(command) => InstallDecision::Run(command),
        None => InstallDecision::Fail(DependencyError::NoAurHelper(plan.to_install)),
    }
}

/// The decision on the dependencies of the shell on `dist`. `found[i]` is
/// the answer of the package database for entry `i` of the family's mapping,
/// `helper` the helper that was found, `reply` what came of the repository
/// offer. A failure is final: the shell is not installed without its
/// dependencies.
pub fn install_dependencies(
    dist: Distribution,
    found: &Vec<bool>,
    helper: Option<AurHelper>,
    reply: CoprReply,
) -> (r: InstallDecision)
    ensures
        r@ == dependencies_decided(dist, found@, helper, reply),
{
    let mapping = get_package_mapping(dist);
    let plan = partition_packages(&mapping, found);
    let plan = apply_copr_reply(dist, plan, reply);
    decide_install(dist, plan, helper)
}

/// What the run of the install command on `dist` comes to.
pub fn install_finished(dist: Distribution, succeeded: bool) -> (r: Result<(), DependencyError>)
    ensures
        succeeded <==> r is Ok,
        !succeeded ==> r == Err::<(), DependencyError>(DependencyError::InstallFailed(dist)),
{
    if succeeded {
        Ok(())
    } else {
        Err(DependencyError::InstallFailed(dist))
    }
}

/// The name of the program that installs packages on `dist`, as it is shown
/// in messages; `None` where the program varies or is unknown.
pub open spec fn installer_name(dist: Distribution) -> Option<Seq<char>> {
    match dist {
        Distribution::Fedora => Some("dnf"@),
        Distribution::Debian => Some("apt"@),
        Distribution::Gentoo => Some("emerge"@),
        Distribution::Void => Some("xbps-install"@),
        _ => None,
    }
}

impl DependencyError {
    /// The message of the error.
    pub open spec fn spec_message(self) -> Seq<char> {
        match self {
            DependencyError::UnknownDistribution =>
                "Cannot determine package manager for unknown distribution"@,
            DependencyError::Unavailable(_) =>
                "Some required packages are not available in repositories"@,
            DependencyError::NoAurHelper(_) => "No AUR helper available to install packages"@,
            DependencyError::InstallFailed(dist) => match installer_name(dist) {
                Some(name) => "Failed to install packages with "@ + name,
                None => "Failed to install packages"@,
            },
        }
    }

    /// The message of the error.
    pub fn message(&self) -> (r: String)
        ensures
            r@ == self.spec_message(),
    {
        match self {
            DependencyError::UnknownDistribution =>
                "Cannot determine package manager for unknown distribution".to_owned(),
            DependencyError::Unavailable(_) =>
                "Some required packages are not available in repositories".to_owned(),
            DependencyError::NoAurHelper(_) =>
                "No AUR helper available to install packages".to_owned(),
            DependencyError::InstallFailed(dist) => {
                let name = match dist {
                    Distribution::Fedora => "dnf",
                    Distribution::Debian => "apt",
                    Distribution::Gentoo => "emerge",
                    Distribution::Void => "xbps-install",
                    _ => {
                        return "Failed to install packages".to_owned();
                    },
                };
                followed_by("Failed to install packages with ", name)
            },
        }
    }
}

/// The lines of an itemized list: each item behind two spaces, a hyphen and
/// a space.
pub open spec fn itemized(items: Seq<Seq<char>>) -> Seq<Seq<char>> {
    items.map_values(|item: Seq<char>| "  - "@ + item)
}

/// The lines that tell the user which packages to install by hand.
pub open spec fn required_listing(packages: Seq<Seq<char>>) -> Seq<Seq<char>> {
    seq!["Required packages for your distribution:"@] + itemized(packages) + seq![
        ""@,
        "Please install these packages manually using your distribution's package manager."@,
    ]
}

/// One line for each of `items`, as an itemized list.
pub fn itemize(items: &Vec<String>) -> (r: Vec<String>)
    ensures
        texts(r@) == itemized(texts(items@)),
{
    let mut r: Vec<String> = Vec::new();
    let mut i: usize = 0;
    while i < items.len()
        invariant
            i <= items@.len(),
            texts(r@) == itemized(texts(items@)).subrange(0, i as int),
        decreases items@.len() - i,
    {
        let ghost before = r@;
        r.push(followed_by("  - ", items[i].as_str()));
        proof {
            assert(texts(r@) =~= texts(before).push("  - "@ + items@[i as int]@));
            assert(texts(r@) =~= itemized(texts(items@)).subrange(0, i + 1));
        }
        i += 1;
    }
    proof {
        assert(itemized(texts(items@)).subrange(0, i as int) =~= itemized(texts(items@)));
    }
    r
}

/// The lines that tell the user which packages to install by hand.
pub fn list_required_packages(packages: &[&str]) -> (r: Vec<String>)
    ensures
        texts(r@) == required_listing(names(packages@)),
{
    let mut r: Vec<String> = vec!["Required packages for your distribution:".to_owned()];
    let mut i: usize = 0;
    proof {
        assert(texts(r@) =~= seq!["Required packages for your distribution:"@] + itemized(
            names(packages@),
        ).subrange(0, 0));
    }
    while i < packages.len()
        invariant
            i <= packages@.len(),
            texts(r@) == seq!["Required packages for your distribution:"@] + itemized(
                names(packages@),
            ).subrange(0, i as int),
        decreases packages@.len() - i,
    {
        let ghost before = r@;
        r.push(followed_by("  - ", packages[i]));
        proof {
            assert(texts(r@) =~= texts(before).push("  - "@ + packages@[i as int]@));
            assert(texts(r@) =~= seq!["Required packages for your distribution:"@] + itemized(
                names(packages@),
            ).subrange(0, i + 1));
        }
        i += 1;
    }
    let ghost listed = r@;
    r.push("".to_owned());
    let ghost spaced = r@;
    let closing =
        "Please install these packages manually using your distribution's package manager.";
    r.push(closing.to_owned());
    proof {
        assert(itemized(names(packages@)).subrange(0, i as int) =~= itemized(names(packages@)));
        assert(texts(spaced) =~= texts(listed).push(""@));
        assert(texts(r@) =~= texts(spaced).push(
            "Please install these packages manually using your distribution's package manager."@,
        ));
        assert(texts(r@) =~= required_listing(names(packages@)));
    }
    r
}

/// The command line that the user is told to run where no helper was found.
pub fn manual_install_hint(to_install: &Vec<String>) -> (r: String)
    ensures
        r@ == "yay -S "@ + joined(texts(to_install@), " "@),
{
    let list = join(to_install, " ");
    followed_by("yay -S ", list.as_str())
}

} // verus!
