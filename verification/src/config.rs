//! Persistent per-component install state.
//!
//! A `CliConfig` is a finite map from component names to `ComponentConfig`
//! records. It is loaded once per command, changed in memory and written back
//! in full; this module holds the in-memory part.

use vstd::prelude::*;

use crate::text::str_eq;

verus! {

/// The upstream channel a component tracks.
#[derive(Clone, Copy, Debug, PartialEq, Eq, Structural)]
pub enum SourceKind {
    Release,
    Git,
}

impl SourceKind {
    /// The lower-case name under which the channel is stored and shown.
    pub open spec fn spec_name(self) -> Seq<char> {
        match self {
            SourceKind::Release => "release"@,
            SourceKind::Git => "git"@,
        }
    }

    /// The lower-case name under which the channel is stored and shown.
    pub fn name(self) -> (r: &'static str)
        ensures
            r@ == self.spec_name(),
    {
        match self {
            SourceKind::Release => "release",
            SourceKind::Git => "git",
        }
    }
}

impl Default for SourceKind {
    fn default() -> (r: Self)
        ensures
            r == SourceKind::Release,
    {
        SourceKind::Release
    }
}

/// What is stored about one component.
#[derive(Debug)]
pub struct ComponentConfig {
    pub source: SourceKind,
    pub installed: bool,
    pub version: Option<String>,
}

/// The mathematical value of a `ComponentConfig`.
pub struct ComponentRecord {
    pub source: SourceKind,
    pub installed: bool,
    pub version: Option<Seq<char>>,
}

impl ComponentRecord {
    /// The record a component has before anything was stored about it.
    pub open spec fn initial() -> ComponentRecord {
        ComponentRecord { source: SourceKind::Release, installed: false, version: None }
    }
}

impl View for ComponentConfig {
    type V = ComponentRecord;

    open spec fn view(&self) -> ComponentRecord {
        ComponentRecord {
            source: self.source,
            installed: self.installed,
            version: match self.version {
                Some(v) => Some(v@),
                None => None,
            },
        }
    }
}

/// A recorded version together with the channel that produced it. A version
/// means something only on its own channel: a release tag and a commit hash
/// are never the same version, whatever their texts.
#[derive(Debug)]
pub struct RecordedVersion {
    pub source: SourceKind,
    pub version: String,
}

/// The mathematical value of a `RecordedVersion`.
pub struct VersionMark {
    pub source: SourceKind,
    pub version: Seq<char>,
}

impl View for RecordedVersion {
    type V = VersionMark;

    open spec fn view(&self) -> VersionMark {
        VersionMark { source: self.source, version: self.version@ }
    }
}

impl ComponentRecord {
    /// The recorded version with the channel of the record, where a version
    /// is recorded.
    pub open spec fn mark(self) -> Option<VersionMark> {
        match self.version {
            Some(version) => Some(VersionMark { source: self.source, version }),
            None => None,
        }
    }
}

impl Default for ComponentConfig {
    fn default() -> (r: Self)
        ensures
            r@ == ComponentRecord::initial(),
    {
        ComponentConfig { source: SourceKind::Release, installed: false, version: None }
    }
}

impl Clone for ComponentConfig {
    fn clone(&self) -> (r: Self)
        ensures
            r@ == self@,
    {
        let version = match &self.version {
            Some(v) => Some(v.clone()),
            None => None,
        };
        ComponentConfig { source: self.source, installed: self.installed, version }
    }
}

/// One component name with its record.
#[derive(Debug)]
struct Entry {
    name: String,
    config: ComponentConfig,
}

/// Index of the first entry named `key`, or the length where there is none.
spec fn position(entries: Seq<Entry>, key: Seq<char>) -> int
    decreases entries.len(),
{
    if entries.len() == 0 || entries[0].name@ == key {
        0
    } else {
        1 + position(entries.drop_first(), key)
    }
}

proof fn lemma_position(entries: Seq<Entry>, key: Seq<char>)
    ensures
        0 <= position(entries, key) <= entries.len(),
        position(entries, key) < entries.len() ==> entries[position(entries, key)].name@ == key,
        forall|j: int| 0 <= j < position(entries, key) ==> entries[j].name@ != key,
    decreases entries.len(),
{
    if entries.len() == 0 || entries[0].name@ == key {
    } else {
        let t = entries.drop_first();
        lemma_position(t, key);
        assert forall|j: int| 0 <= j < position(entries, key) implies entries[j].name@ != key by {
            if j > 0 {
                assert(t[j - 1] == entries[j]);
            }
        }
    }
}

proof fn lemma_position_unique(entries: Seq<Entry>, key: Seq<char>, i: int)
    requires
        0 <= i <= entries.len(),
        i < entries.len() ==> entries[i].name@ == key,
        forall|j: int| 0 <= j < i ==> entries[j].name@ != key,
    ensures
        position(entries, key) == i,
{
    lemma_position(entries, key);
    let p = position(entries, key);
    if p < i {
        assert(entries[p].name@ != key);
    }
}

/// The map that a sequence of entries with distinct names stands for.
spec fn map_of(entries: Seq<Entry>) -> Map<Seq<char>, ComponentRecord> {
    Map::new(
        |k: Seq<char>| position(entries, k) < entries.len(),
        |k: Seq<char>| entries[position(entries, k)].config@,
    )
}

spec fn distinct_names(entries: Seq<Entry>) -> bool {
    forall|i: int, j: int|
        0 <= i < j < entries.len() ==> entries[i].name@ != entries[j].name@
}

proof fn lemma_map_after_set(old_entries: Seq<Entry>, i: int, e: Entry)
    requires
        distinct_names(old_entries),
        0 <= i < old_entries.len(),
        old_entries[i].name@ == e.name@,
    ensures
        distinct_names(old_entries.update(i, e)),
        map_of(old_entries.update(i, e)) == map_of(old_entries).insert(e.name@, e.config@),
{
    let new_entries = old_entries.update(i, e);
    let before = map_of(old_entries);
    let after = map_of(new_entries);
    lemma_position_unique(old_entries, e.name@, i);
    let expected = before.insert(e.name@, e.config@);
    assert forall|k: Seq<char>|
        #![trigger after.dom().contains(k)]
        #![trigger expected.dom().contains(k)]
        after.dom().contains(k) == expected.dom().contains(k) && (after.dom().contains(k)
            ==> after[k] == expected[k]) by {
        lemma_position(old_entries, k);
        lemma_position_unique(new_entries, k, position(old_entries, k));
    }
    assert(after =~= expected);
}

proof fn lemma_map_after_push(old_entries: Seq<Entry>, e: Entry)
    requires
        distinct_names(old_entries),
        position(old_entries, e.name@) == old_entries.len(),
    ensures
        distinct_names(old_entries.push(e)),
        map_of(old_entries.push(e)) == map_of(old_entries).insert(e.name@, e.config@),
{
    let new_entries = old_entries.push(e);
    let before = map_of(old_entries);
    let after = map_of(new_entries);
    lemma_position(old_entries, e.name@);
    let expected = before.insert(e.name@, e.config@);
    assert forall|k: Seq<char>|
        #![trigger after.dom().contains(k)]
        #![trigger expected.dom().contains(k)]
        after.dom().contains(k) == expected.dom().contains(k) && (after.dom().contains(k)
            ==> after[k] == expected[k]) by {
        lemma_position(old_entries, k);
        if k == e.name@ {
            lemma_position_unique(new_entries, k, old_entries.len() as int);
        } else if position(old_entries, k) < old_entries.len() {
            lemma_position_unique(new_entries, k, position(old_entries, k));
        } else {
            lemma_position_unique(new_entries, k, new_entries.len() as int);
        }
    }
    assert(after =~= expected);
}

/// The install state of every component that was ever recorded.
#[derive(Debug)]
pub struct CliConfig {
    entries: Vec<Entry>,
}

impl View for CliConfig {
    type V = Map<Seq<char>, ComponentRecord>;

    closed spec fn view(&self) -> Map<Seq<char>, ComponentRecord> {
        map_of(self.entries@)
    }
}

/// The record of `component` in `m`, or the initial record where `m` has none.
pub open spec fn record_or_initial(
    m: Map<Seq<char>, ComponentRecord>,
    component: Seq<char>,
) -> ComponentRecord {
    if m.contains_key(component) {
        m[component]
    } else {
        ComponentRecord::initial()
    }
}

/// `m` with `source` recorded as the channel of `component`.
pub open spec fn with_source(
    m: Map<Seq<char>, ComponentRecord>,
    component: Seq<char>,
    source: SourceKind,
) -> Map<Seq<char>, ComponentRecord> {
    m.insert(component, ComponentRecord { source, ..record_or_initial(m, component) })
}

/// `m` with `installed` recorded as the install flag of `component`.
pub open spec fn with_installed(
    m: Map<Seq<char>, ComponentRecord>,
    component: Seq<char>,
    installed: bool,
) -> Map<Seq<char>, ComponentRecord> {
    m.insert(component, ComponentRecord { installed, ..record_or_initial(m, component) })
}

/// `m` with `version` recorded as the version marker of `component`.
pub open spec fn with_version(
    m: Map<Seq<char>, ComponentRecord>,
    component: Seq<char>,
    version: Seq<char>,
) -> Map<Seq<char>, ComponentRecord> {
    m.insert(
        component,
        ComponentRecord { version: Some(version), ..record_or_initial(m, component) },
    )
}

/// The name of the component whose presence on disk is checked.
pub open spec fn shell_component() -> Seq<char> {
    "shell"@
}

/// Whether `component` counts as installed: it is recorded as installed, or
/// it is the shell and an installation was found on disk. Evidence on disk
/// can only add to the record; its absence takes nothing away.
pub open spec fn counts_as_installed(
    m: Map<Seq<char>, ComponentRecord>,
    component: Seq<char>,
    found_on_disk: bool,
) -> bool {
    record_or_initial(m, component).installed || (component == shell_component()
        && found_on_disk)
}

/// Whether the record of `component` is stale: the shell is on disk and not
/// recorded as installed.
pub open spec fn needs_repair(
    m: Map<Seq<char>, ComponentRecord>,
    component: Seq<char>,
    found_on_disk: bool,
) -> bool {
    component == shell_component() && found_on_disk && !record_or_initial(m, component).installed
}

/// `m` after reconciliation with the evidence on disk: a stale record is set
/// to installed, and nothing else changes.
pub open spec fn reconciled(
    m: Map<Seq<char>, ComponentRecord>,
    component: Seq<char>,
    found_on_disk: bool,
) -> Map<Seq<char>, ComponentRecord> {
    if needs_repair(m, component, found_on_disk) {
        with_installed(m, component, true)
    } else {
        m
    }
}

/// After the install flag of a component is set, it reads back as set.
pub proof fn lemma_set_installed_then_get(
    m: Map<Seq<char>, ComponentRecord>,
    component: Seq<char>,
    installed: bool,
)
    ensures
        record_or_initial(with_installed(m, component, installed), component).installed
            == installed,
{
}

/// A component that was set as installed counts as installed, whatever is
/// found on disk, the shell included; and so does the shell once it is found
/// on disk, whatever is recorded.
pub proof fn lemma_installed_is_never_demoted(
    m: Map<Seq<char>, ComponentRecord>,
    component: Seq<char>,
    found_on_disk: bool,
)
    ensures
        counts_as_installed(with_installed(m, component, true), component, found_on_disk),
        record_or_initial(m, component).installed ==> counts_as_installed(
            m,
            component,
            found_on_disk,
        ),
        counts_as_installed(m, shell_component(), true),
        counts_as_installed(m, component, found_on_disk) ==> counts_as_installed(
            reconciled(m, component, found_on_disk),
            component,
            false,
        ),
{
}

/// Setting one field of a component keeps its other fields and every other
/// component as they were.
pub proof fn lemma_setters_are_local(
    m: Map<Seq<char>, ComponentRecord>,
    component: Seq<char>,
    other: Seq<char>,
    source: SourceKind,
    installed: bool,
    version: Seq<char>,
)
    ensures
        record_or_initial(with_source(m, component, source), component) == (ComponentRecord {
            source,
            ..record_or_initial(m, component)
        }),
        record_or_initial(with_installed(m, component, installed), component) == (ComponentRecord {
            installed,
            ..record_or_initial(m, component)
        }),
        record_or_initial(with_version(m, component, version), component) == (ComponentRecord {
            version: Some(version),
            ..record_or_initial(m, component)
        }),
        other != component ==> {
            &&& record_or_initial(with_source(m, component, source), other) == record_or_initial(
                m,
                other,
            )
            &&& record_or_initial(with_installed(m, component, installed), other)
                == record_or_initial(m, other)
            &&& record_or_initial(with_version(m, component, version), other) == record_or_initial(
                m,
                other,
            )
        },
{
}

/// Reconciliation never turns an install flag from true to false, whatever
/// the evidence on disk says.
pub proof fn lemma_reconcile_never_demotes(
    m: Map<Seq<char>, ComponentRecord>,
    component: Seq<char>,
    found_on_disk: bool,
    any: Seq<char>,
)
    requires
        record_or_initial(m, any).installed,
    ensures
        record_or_initial(reconciled(m, component, found_on_disk), any).installed,
{
}

/// Once the shell is found on disk, reconciliation leaves it recorded as
/// installed, and a second reconciliation changes nothing.
pub proof fn lemma_reconcile_repairs_once(
    m: Map<Seq<char>, ComponentRecord>,
    found_on_disk: bool,
)
    ensures
        ({
            let once = reconciled(m, shell_component(), found_on_disk);
            &&& found_on_disk ==> record_or_initial(once, shell_component()).installed
            &&& reconciled(once, shell_component(), found_on_disk) == once
        }),
{
}

/// The map that a list of named records stands for; where a name occurs more
/// than once, the last record wins.
pub open spec fn entries_map(entries: Seq<(Seq<char>, ComponentRecord)>) -> Map<
    Seq<char>,
    ComponentRecord,
>
    decreases entries.len(),
{
    if entries.len() == 0 {
        Map::empty()
    } else {
        entries_map(entries.drop_last()).insert(entries.last().0, entries.last().1)
    }
}

/// The mathematical value of a list of named records.
pub open spec fn entries_view(entries: Seq<(String, ComponentConfig)>) -> Seq<
    (Seq<char>, ComponentRecord),
> {
    entries.map_values(|e: (String, ComponentConfig)| (e.0@, e.1@))
}

spec fn pairs_of(entries: Seq<Entry>) -> Seq<(Seq<char>, ComponentRecord)> {
    entries.map_values(|e: Entry| (e.name@, e.config@))
}

proof fn lemma_pairs_map(entries: Seq<Entry>)
    requires
        distinct_names(entries),
    ensures
        entries_map(pairs_of(entries)) == map_of(entries),
    decreases entries.len(),
{
    if entries.len() == 0 {
        assert(map_of(entries) =~= Map::<Seq<char>, ComponentRecord>::empty());
    } else {
        let front = entries.drop_last();
        let e = entries.last();
        lemma_pairs_map(front);
        lemma_position_unique(front, e.name@, front.len() as int);
        lemma_map_after_push(front, e);
        assert(front.push(e) =~= entries);
        assert(pairs_of(entries).drop_last() =~= pairs_of(front));
    }
}

impl CliConfig {
    #[verifier::type_invariant]
    spec fn well_formed(self) -> bool {
        distinct_names(self.entries@)
    }

    /// The state in which nothing is recorded.
    pub fn new() -> (r: Self)
        ensures
            r@ == Map::<Seq<char>, ComponentRecord>::empty(),
    {
        let r = CliConfig { entries: Vec::new() };
        assert(r@ =~= Map::<Seq<char>, ComponentRecord>::empty());
        r
    }

    /// The state that a command starts from, given what was read from the
    /// state file: `None` where the file is absent, cannot be read or does
    /// not parse, which stands for the state in which nothing is recorded.
    pub fn loaded(read: Option<CliConfig>) -> (r: Self)
        ensures
            r@ == match read {
                Some(state) => state@,
                None => Map::<Seq<char>, ComponentRecord>::empty(),
            },
    {
        match read {
            Some(state) => state,
            None => CliConfig::new(),
        }
    }

    /// Index of the entry named `component`, or the number of entries.
    fn find(&self, component: &str) -> (i: usize)
        ensures
            i == position(self.entries@, component@),
            i <= self.entries@.len(),
            i < self.entries@.len() <==> self@.contains_key(component@),
            i < self.entries@.len() ==> self.entries@[i as int].name@ == component@
                && self@[component@] == self.entries@[i as int].config@,
    {
        let key = String::from_str(component);
        let mut i: usize = 0;
        while i < self.entries.len()
            invariant
                i <= self.entries@.len(),
                key@ == component@,
                forall|j: int| 0 <= j < i ==> self.entries@[j].name@ != component@,
            decreases self.entries@.len() - i,
        {
            if self.entries[i].name == key {
                proof {
                    lemma_position_unique(self.entries@, component@, i as int);
                }
                return i;
            }
            i += 1;
        }
        proof {
            lemma_position_unique(self.entries@, component@, i as int);
        }
        i
    }

    /// A copy of what is recorded about `component`, or the initial record.
    fn record(&self, component: &str) -> (r: ComponentConfig)
        ensures
            r@ == record_or_initial(self@, component@),
    {
        let i = self.find(component);
        if i < self.entries.len() {
            self.entries[i].config.clone()
        } else {
            ComponentConfig::default()
        }
    }

    /// Records `config` for `component`, in place of what was recorded before.
    fn store(&mut self, component: &str, config: ComponentConfig)
        ensures
            final(self)@ == old(self)@.insert(component@, config@),
    {
        proof {
            use_type_invariant(&*self);
        }
        let i = self.find(component);
        let entry = Entry { name: String::from_str(component), config };
        let mut entries: Vec<Entry> = Vec::new();
        core::mem::swap(&mut self.entries, &mut entries);
        if i < entries.len() {
            proof {
                lemma_map_after_set(entries@, i as int, entry);
            }
            entries.set(i, entry);
        } else {
            proof {
                lemma_map_after_push(entries@, entry);
            }
            entries.push(entry);
        }
        self.entries = entries;
    }

    /// The channel recorded for `component`, if anything is recorded about it.
    pub fn get_component_source(&self, component: &str) -> (r: Option<SourceKind>)
        ensures
            r == (if self@.contains_key(component@) {
                Some(self@[component@].source)
            } else {
                None
            }),
    {
        let i = self.find(component);
        if i < self.entries.len() {
            Some(self.entries[i].config.source)
        } else {
            None
        }
    }

    /// Records `source` as the channel of `component`; a component not yet
    /// recorded gets the initial record first.
    pub fn set_component_source(&mut self, component: &str, source: SourceKind)
        ensures
            final(self)@ == with_source(old(self)@, component@, source),
    {
        let mut config = self.record(component);
        config.source = source;
        self.store(component, config);
    }

    /// Whether `component` is recorded as installed.
    pub fn get_installed(&self, component: &str) -> (r: bool)
        ensures
            r == record_or_initial(self@, component@).installed,
    {
        let i = self.find(component);
        if i < self.entries.len() {
            self.entries[i].config.installed
        } else {
            false
        }
    }

    /// Records whether `component` is installed; a component not yet recorded
    /// gets the initial record first.
    pub fn set_installed(&mut self, component: &str, installed: bool)
        ensures
            final(self)@ == with_installed(old(self)@, component@, installed),
    {
        let mut config = self.record(component);
        config.installed = installed;
        self.store(component, config);
    }

    /// The version marker recorded for `component`, if there is one.
    pub fn get_component_version(&self, component: &str) -> (r: Option<String>)
        ensures
            r is Some <==> record_or_initial(self@, component@).version is Some,
            r matches Some(v) ==> record_or_initial(self@, component@).version == Some(v@),
    {
        let i = self.find(component);
        if i < self.entries.len() {
            match &self.entries[i].config.version {
                Some(v) => Some(v.clone()),
                None => None,
            }
        } else {
            None
        }
    }

    /// The version recorded for `component` together with the channel recorded
    /// for it, where a version is recorded.
    pub fn get_recorded_version(&self, component: &str) -> (r: Option<RecordedVersion>)
        ensures
            r is Some <==> record_or_initial(self@, component@).mark() is Some,
            r is Some ==> Some(r->0@) == record_or_initial(self@, component@).mark(),
    {
        let i = self.find(component);
        if i < self.entries.len() {
            match &self.entries[i].config.version {
                Some(v) => Some(
                    RecordedVersion { source: self.entries[i].config.source, version: v.clone() },
                ),
                None => None,
            }
        } else {
            None
        }
    }

    /// Records `version` as the version marker of `component`; a component not
    /// yet recorded gets the initial record first.
    pub fn set_component_version(&mut self, component: &str, version: String)
        ensures
            final(self)@ == with_version(old(self)@, component@, version@),
    {
        let mut config = self.record(component);
        config.version = Some(version);
        self.store(component, config);
    }

    /// Whether `component` counts as installed, given whether an installation
    /// of the shell was found on disk: the record counts for every component,
    /// and for the shell the evidence on disk counts as well.
    pub fn is_component_installed(&self, component: &str, found_on_disk: bool) -> (r: bool)
        ensures
            r == counts_as_installed(self@, component@, found_on_disk),
    {
        self.get_installed(component) || (found_on_disk && str_eq(component, "shell"))
    }

    /// Repairs a stale record: where the shell is on disk and not recorded as
    /// installed, records it as installed. Returns whether anything changed.
    pub fn reconcile_installed(&mut self, component: &str, found_on_disk: bool) -> (repaired: bool)
        ensures
            repaired == needs_repair(old(self)@, component@, found_on_disk),
            final(self)@ == reconciled(old(self)@, component@, found_on_disk),
    {
        if str_eq(component, "shell") && found_on_disk && !self.get_installed(component) {
            self.set_installed(component, true);
            true
        } else {
            false
        }
    }

    /// Every recorded component with a copy of its record, each name once.
    pub fn entries(&self) -> (r: Vec<(String, ComponentConfig)>)
        ensures
            entries_map(entries_view(r@)) == self@,
            forall|i: int, j: int| 0 <= i < j < r@.len() ==> r@[i].0@ != r@[j].0@,
    {
        proof {
            use_type_invariant(self);
        }
        let mut r: Vec<(String, ComponentConfig)> = Vec::new();
        let mut i: usize = 0;
        while i < self.entries.len()
            invariant
                i <= self.entries@.len(),
                r@.len() == i,
                forall|j: int|
                    0 <= j < i ==> r@[j].0@ == self.entries@[j].name@ && r@[j].1@
                        == self.entries@[j].config@,
            decreases self.entries@.len() - i,
        {
            r.push((self.entries[i].name.clone(), self.entries[i].config.clone()));
            i += 1;
        }
        proof {
            assert(entries_view(r@) =~= pairs_of(self.entries@));
            lemma_pairs_map(self.entries@);
        }
        r
    }

    /// The state that holds the given records; where a name occurs more than
    /// once, the last record wins.
    pub fn from_entries(entries: Vec<(String, ComponentConfig)>) -> (r: Self)
        ensures
            r@ == entries_map(entries_view(entries@)),
    {
        let mut r = CliConfig::new();
        let mut i: usize = 0;
        while i < entries.len()
            invariant
                i <= entries@.len(),
                r@ == entries_map(entries_view(entries@).subrange(0, i as int)),
            decreases entries@.len() - i,
        {
            proof {
                let next = entries_view(entries@).subrange(0, i + 1);
                assert(next.drop_last() =~= entries_view(entries@).subrange(0, i as int));
            }
            r.store(entries[i].0.as_str(), entries[i].1.clone());
            i += 1;
        }
        proof {
            assert(entries_view(entries@).subrange(0, i as int) =~= entries_view(entries@));
        }
        r
    }
}

impl Clone for CliConfig {
    /// A state that was taken apart into its records and put together again
    /// is the state it was.
    fn clone(&self) -> (r: Self)
        ensures
            r@ == self@,
    {
        CliConfig::from_entries(self.entries())
    }
}

impl Default for CliConfig {
    fn default() -> (r: Self)
        ensures
            r@ == Map::<Seq<char>, ComponentRecord>::empty(),
    {
        CliConfig::new()
    }
}

} // verus!
