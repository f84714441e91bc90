//! Detection of the host's distribution family.
//!
//! The family follows from two inputs alone: the text of the OS metadata
//! file, where there is one, and which marker files exist. Reading them is the
//! caller's part; the classification is a function of what was read.

use vstd::prelude::*;

use crate::text::{
    chars_of, contains, copy_of, has_substring, lines, next_line, range_starts_with,
    skip_prefix_repeated, starts_with, str_eq, strip_prefix_repeated, trim_char, trim_char_range,
};

verus! {

/// A family of distributions that share a package manager.
#[derive(Clone, Copy, Debug, PartialEq, Eq, Structural)]
pub enum Distribution {
    Arch,
    Fedora,
    Debian,
    Gentoo,
    Void,
    Unknown,
}

/// Which of the distribution-specific marker files exist.
#[derive(Clone, Copy, Debug, PartialEq, Eq, Structural)]
pub struct MarkerFiles {
    /// `/etc/arch-release`
    pub arch_release: bool,
    /// `/etc/fedora-release`
    pub fedora_release: bool,
    /// `/etc/redhat-release`
    pub redhat_release: bool,
    /// `/etc/debian_version`
    pub debian_version: bool,
    /// `/etc/gentoo-release`
    pub gentoo_release: bool,
}

/// The two fields of the OS metadata file that the classification reads.
#[derive(Debug)]
pub struct OsRelease {
    pub id: Option<String>,
    pub id_like: Option<String>,
}

/// The mathematical value of an `OsRelease`.
pub struct OsReleaseFields {
    pub id: Option<Seq<char>>,
    pub id_like: Option<Seq<char>>,
}

impl View for OsRelease {
    type V = OsReleaseFields;

    open spec fn view(&self) -> OsReleaseFields {
        OsReleaseFields {
            id: match self.id {
                Some(v) => Some(v@),
                None => None,
            },
            id_like: match self.id_like {
                Some(v) => Some(v@),
                None => None,
            },
        }
    }
}

/// The value of a line that starts with `key`: what follows the key, without
/// surrounding double quotes and then without surrounding single quotes.
pub open spec fn field_value(line: Seq<char>, key: Seq<char>) -> Seq<char> {
    trim_char(trim_char(strip_prefix_repeated(line, key), '"'), '\'')
}

/// The value of the last of `lines` that starts with `key`.
pub open spec fn last_field(lines: Seq<Seq<char>>, key: Seq<char>) -> Option<Seq<char>>
    decreases lines.len(),
{
    if lines.len() == 0 {
        None
    } else if starts_with(lines.last(), key) {
        Some(field_value(lines.last(), key))
    } else {
        last_field(lines.drop_last(), key)
    }
}

/// The `ID` and `ID_LIKE` fields of the OS metadata text `content`.
pub open spec fn os_release_fields(content: Seq<char>) -> OsReleaseFields {
    OsReleaseFields {
        id: last_field(lines(content), "ID="@),
        id_like: last_field(lines(content), "ID_LIKE="@),
    }
}

/// The family that the identifier `id` names, if it is a known one.
pub open spec fn family_of_id(id: Seq<char>) -> Option<Distribution> {
    if id == "arch"@ || id == "archlinux"@ || id == "archarm"@ || id == "archcraft"@ || id
        == "cachyos"@ || id == "Nyarch"@ || id == "endeavouros"@ || id == "manjaro"@ || id
        == "manjaro-arm"@ || id == "arcolinux"@ || id == "artix"@ || id == "garuda"@ || id
        == "parabola"@ {
        Some(Distribution::Arch)
    } else if id == "void"@ {
        Some(Distribution::Void)
    } else if id == "fedora"@ {
        Some(Distribution::Fedora)
    } else if id == "debian"@ || id == "ubuntu"@ {
        Some(Distribution::Debian)
    } else if id == "gentoo"@ {
        Some(Distribution::Gentoo)
    } else {
        None
    }
}

/// The family that the list of related identifiers `id_like` points to, if any.
pub open spec fn family_of_id_like(id_like: Seq<char>) -> Option<Distribution> {
    if contains(id_like, "arch"@) {
        Some(Distribution::Arch)
    } else if contains(id_like, "debian"@) || contains(id_like, "ubuntu"@) {
        Some(Distribution::Debian)
    } else if contains(id_like, "fedora"@) {
        Some(Distribution::Fedora)
    } else {
        None
    }
}

/// The family that the marker files point to, `Unknown` where none exists.
pub open spec fn family_of_markers(markers: MarkerFiles) -> Distribution {
    if markers.arch_release {
        Distribution::Arch
    } else if markers.fedora_release || markers.redhat_release {
        Distribution::Fedora
    } else if markers.debian_version {
        Distribution::Debian
    } else if markers.gentoo_release {
        Distribution::Gentoo
    } else {
        Distribution::Unknown
    }
}

/// The family of a host: a known `ID` decides; else `ID_LIKE` does, where it
/// names a known family; else the marker files do.
pub open spec fn classify(
    id: Option<Seq<char>>,
    id_like: Option<Seq<char>>,
    markers: MarkerFiles,
) -> Distribution {
    if id is Some && family_of_id(id->0) is Some {
        family_of_id(id->0)->0
    } else if id_like is Some && family_of_id_like(id_like->0) is Some {
        family_of_id_like(id_like->0)->0
    } else {
        family_of_markers(markers)
    }
}

/// The family of a host whose OS metadata file holds `content` (`None` where
/// it could not be read).
pub open spec fn detected(content: Option<Seq<char>>, markers: MarkerFiles) -> Distribution {
    match content {
        Some(text) => {
            let fields = os_release_fields(text);
            classify(fields.id, fields.id_like, markers)
        },
        None => family_of_markers(markers),
    }
}

/// A known `ID` decides the family, whatever `ID_LIKE` and the marker files say.
pub proof fn lemma_known_id_decides(
    id: Seq<char>,
    id_like: Option<Seq<char>>,
    markers: MarkerFiles,
    other_like: Option<Seq<char>>,
    other_markers: MarkerFiles,
)
    requires
        family_of_id(id) is Some,
    ensures
        classify(Some(id), id_like, markers) == family_of_id(id)->0,
        classify(Some(id), id_like, markers) == classify(Some(id), other_like, other_markers),
{
}

/// Without metadata the marker files decide, and without marker files the
/// family is unknown.
pub proof fn lemma_nothing_known(markers: MarkerFiles)
    ensures
        classify(None, None, markers) == family_of_markers(markers),
        detected(None, markers) == family_of_markers(markers),
        !markers.arch_release && !markers.fedora_release && !markers.redhat_release
            && !markers.debian_version && !markers.gentoo_release ==> classify(None, None, markers)
            == Distribution::Unknown,
{
}

/// The family that the identifier `id` names, if it is a known one.
pub fn id_family(id: &str) -> (r: Option<Distribution>)
    ensures
        r == family_of_id(id@),
{
    if str_eq(id, "arch") || str_eq(id, "archlinux") || str_eq(id, "archarm") || str_eq(
        id,
        "archcraft",
    ) || str_eq(id, "cachyos") || str_eq(id, "Nyarch") || str_eq(id, "endeavouros") || str_eq(
        id,
        "manjaro",
    ) || str_eq(id, "manjaro-arm") || str_eq(id, "arcolinux") || str_eq(id, "artix") || str_eq(
        id,
        "garuda",
    ) || str_eq(id, "parabola") {
        Some(Distribution::Arch)
    } else if str_eq(id, "void") {
        Some(Distribution::Void)
    } else if str_eq(id, "fedora") {
        Some(Distribution::Fedora)
    } else if str_eq(id, "debian") || str_eq(id, "ubuntu") {
        Some(Distribution::Debian)
    } else if str_eq(id, "gentoo") {
        Some(Distribution::Gentoo)
    } else {
        None
    }
}

/// The family that the list of related identifiers `id_like` points to, if any.
pub fn id_like_family(id_like: &str) -> (r: Option<Distribution>)
    ensures
        r == family_of_id_like(id_like@),
{
    let text = chars_of(id_like);
    if has_substring(&text, &chars_of("arch")) {
        Some(Distribution::Arch)
    } else if has_substring(&text, &chars_of("debian")) || has_substring(
        &text,
        &chars_of("ubuntu"),
    ) {
        Some(Distribution::Debian)
    } else if has_substring(&text, &chars_of("fedora")) {
        Some(Distribution::Fedora)
    } else {
        None
    }
}

/// The family that the marker files point to, `Unknown` where none exists.
pub fn marker_family(markers: &MarkerFiles) -> (r: Distribution)
    ensures
        r == family_of_markers(*markers),
{
    if markers.arch_release {
        Distribution::Arch
    } else if markers.fedora_release || markers.redhat_release {
        Distribution::Fedora
    } else if markers.debian_version {
        Distribution::Debian
    } else if markers.gentoo_release {
        Distribution::Gentoo
    } else {
        Distribution::Unknown
    }
}

/// The range of the value of the line `s[lo..hi]`, which starts with `key`.
fn value_range(s: &Vec<char>, lo: usize, hi: usize, key: &Vec<char>) -> (r: (usize, usize))
    requires
        lo <= hi <= s.len(),
    ensures
        lo <= r.0 <= r.1 <= hi,
        s@.subrange(r.0 as int, r.1 as int) == field_value(s@.subrange(lo as int, hi as int), key@),
{
    let start = skip_prefix_repeated(s, lo, hi, key);
    let unquoted = trim_char_range(s, start, hi, '"');
    trim_char_range(s, unquoted.0, unquoted.1, '\'')
}

/// A copy of the characters `lo..hi` of `content`, where a range is given.
fn copy_range(content: &str, range: Option<(usize, usize)>) -> (r: Option<String>)
    requires
        range matches Some(b) ==> b.0 <= b.1 <= content@.len(),
    ensures
        r is Some <==> range is Some,
        r is Some ==> ({
            let bounds = range->0;
            r->0@ == content@.subrange(bounds.0 as int, bounds.1 as int)
        }),
{
    match range {
        Some(b) => Some(copy_of(content, b.0, b.1)),
        None => None,
    }
}

/// Reads the `ID` and `ID_LIKE` fields out of the OS metadata text `content`.
/// Of several lines with the same key the last one counts.
pub fn parse_os_release(content: &str) -> (r: OsRelease)
    ensures
        r@ == os_release_fields(content@),
{
    let s = chars_of(content);
    let id_key = chars_of("ID=");
    let like_key = chars_of("ID_LIKE=");
    let n = s.len();
    let mut id: Option<(usize, usize)> = None;
    let mut id_like: Option<(usize, usize)> = None;
    let mut pos: usize = 0;
    let ghost mut done: Seq<Seq<char>> = Seq::empty();
    proof {
        assert(s@.subrange(0, n as int) =~= s@);
        assert(done + lines(s@) =~= lines(s@));
    }
    while pos < n
        invariant
            n == s@.len(),
            pos <= n,
            id_key@ == "ID="@,
            like_key@ == "ID_LIKE="@,
            lines(s@) == done + lines(s@.subrange(pos as int, n as int)),
            id is Some <==> last_field(done, id_key@) is Some,
            id matches Some(b) ==> b.0 <= b.1 <= n && Some(s@.subrange(b.0 as int, b.1 as int))
                == last_field(done, id_key@),
            id_like is Some <==> last_field(done, like_key@) is Some,
            id_like matches Some(b) ==> b.0 <= b.1 <= n && Some(
                s@.subrange(b.0 as int, b.1 as int),
            ) == last_field(done, like_key@),
        decreases n - pos,
    {
        let (end, next) = next_line(&s, pos);
        let ghost line = s@.subrange(pos as int, end as int);
        proof {
            assert(done.push(line).drop_last() =~= done);
            assert(done.push(line) + lines(s@.subrange(next as int, n as int)) =~= done + (seq![
                line,
            ] + lines(s@.subrange(next as int, n as int))));
        }
        if range_starts_with(&s, pos, end, &id_key) {
            id = Some(value_range(&s, pos, end, &id_key));
        }
        if range_starts_with(&s, pos, end, &like_key) {
            id_like = Some(value_range(&s, pos, end, &like_key));
        }
        proof {
            done = done.push(line);
        }
        pos = next;
    }
    proof {
        assert(lines(s@.subrange(pos as int, n as int)) =~= Seq::empty());
        assert(done + Seq::<Seq<char>>::empty() =~= done);
    }
    OsRelease { id: copy_range(content, id), id_like: copy_range(content, id_like) }
}

/// The family of a host whose OS metadata file holds `os_release` (`None`
/// where it could not be read) and on which the marker files `markers` exist.
pub fn detect_distribution(os_release: Option<&str>, markers: &MarkerFiles) -> (r: Distribution)
    ensures
        r == detected(
            match os_release {
                Some(text) => Some(text@),
                None => None,
            },
            *markers,
        ),
{
    if let Some(text) = os_release {
        let fields = parse_os_release(text);
        if let Some(id) = &fields.id {
            if let Some(family) = id_family(id.as_str()) {
                return family;
            }
        }
        if let Some(id_like) = &fields.id_like {
            if let Some(family) = id_like_family(id_like.as_str()) {
                return family;
            }
        }
    }
    marker_family(markers)
}

} // verus!
