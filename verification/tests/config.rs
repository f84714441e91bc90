use noctalia::config::{CliConfig, ComponentConfig, SourceKind};

#[test]
fn source_kind_names_are_lower_case() {
    assert_eq!(SourceKind::Release.name(), "release");
    assert_eq!(SourceKind::Git.name(), "git");
    assert_eq!(SourceKind::default(), SourceKind::Release);
}

#[test]
fn component_defaults() {
    let c = ComponentConfig::default();
    assert_eq!(c.source, SourceKind::Release);
    assert!(!c.installed);
    assert_eq!(c.version, None);
}

#[test]
fn empty_state_knows_nothing() {
    let cfg = CliConfig::new();
    assert_eq!(cfg.get_component_source("shell"), None);
    assert!(!cfg.get_installed("shell"));
    assert_eq!(cfg.get_component_version("shell"), None);
    assert!(cfg.entries().is_empty());
    assert!(CliConfig::default().entries().is_empty());
}

#[test]
fn set_installed_then_get_installed() {
    for name in ["shell", "", "other component", "sh\u{e9}ll"] {
        let mut cfg = CliConfig::new();
        cfg.set_installed(name, true);
        assert!(cfg.get_installed(name));
        cfg.set_installed(name, false);
        assert!(!cfg.get_installed(name));
    }
}

#[test]
fn setters_create_the_record_with_defaults() {
    let mut cfg = CliConfig::new();
    cfg.set_component_version("shell", "v1.0.0".to_string());
    assert_eq!(cfg.get_component_source("shell"), Some(SourceKind::Release));
    assert!(!cfg.get_installed("shell"));
    assert_eq!(cfg.get_component_version("shell"), Some("v1.0.0".to_string()));

    let mut cfg = CliConfig::new();
    cfg.set_component_source("shell", SourceKind::Git);
    assert_eq!(cfg.get_component_source("shell"), Some(SourceKind::Git));
    assert!(!cfg.get_installed("shell"));
    assert_eq!(cfg.get_component_version("shell"), None);
}

#[test]
fn setters_keep_the_other_fields_and_components() {
    let mut cfg = CliConfig::new();
    cfg.set_component_source("shell", SourceKind::Git);
    cfg.set_installed("shell", true);
    cfg.set_component_version("shell", "abc".to_string());
    cfg.set_installed("bar", true);
    cfg.set_component_source("shell", SourceKind::Release);
    assert_eq!(cfg.get_component_source("shell"), Some(SourceKind::Release));
    assert!(cfg.get_installed("shell"));
    assert_eq!(cfg.get_component_version("shell"), Some("abc".to_string()));
    assert!(cfg.get_installed("bar"));
    assert_eq!(cfg.get_component_source("bar"), Some(SourceKind::Release));
    assert_eq!(cfg.entries().len(), 2);
}

#[test]
fn changing_source_keeps_installed() {
    let mut cfg = CliConfig::new();
    cfg.set_installed("shell", true);
    cfg.set_component_source("shell", SourceKind::Git);
    assert!(cfg.get_installed("shell"));
}

#[test]
fn disk_evidence_adds_to_the_record_of_the_shell() {
    let empty = CliConfig::new();
    assert!(empty.is_component_installed("shell", true));
    assert!(!empty.is_component_installed("shell", false));
    assert!(!empty.is_component_installed("other", true));
    assert!(!empty.is_component_installed("other", false));
}

#[test]
fn absence_on_disk_never_demotes() {
    for name in ["shell", "other", ""] {
        let mut cfg = CliConfig::new();
        cfg.set_installed(name, true);
        assert!(cfg.is_component_installed(name, false), "{:?}", name);
        assert!(cfg.is_component_installed(name, true), "{:?}", name);
        assert!(!cfg.reconcile_installed(name, false));
        assert!(cfg.is_component_installed(name, false), "{:?}", name);
        assert!(cfg.get_installed(name));
    }
}

#[test]
fn recorded_version_carries_its_channel() {
    let mut cfg = CliConfig::new();
    assert!(cfg.get_recorded_version("shell").is_none());
    cfg.set_component_source("shell", SourceKind::Git);
    assert!(cfg.get_recorded_version("shell").is_none());
    cfg.set_component_version("shell", "abc".to_string());
    let mark = cfg.get_recorded_version("shell").unwrap();
    assert_eq!(mark.source, SourceKind::Git);
    assert_eq!(mark.version, "abc");
    cfg.set_component_source("shell", SourceKind::Release);
    let mark = cfg.get_recorded_version("shell").unwrap();
    assert_eq!(mark.source, SourceKind::Release);
    assert_eq!(mark.version, "abc");
    assert!(cfg.get_recorded_version("other").is_none());
}

#[test]
fn what_was_read_or_the_empty_state() {
    assert!(CliConfig::loaded(None).entries().is_empty());
    let mut cfg = CliConfig::new();
    cfg.set_installed("shell", true);
    let state = CliConfig::loaded(Some(cfg));
    assert!(state.get_installed("shell"));
    assert_eq!(state.entries().len(), 1);
}

#[test]
fn reconcile_repairs_a_stale_record() {
    let mut cfg = CliConfig::new();
    assert!(cfg.reconcile_installed("shell", true));
    assert!(cfg.get_installed("shell"));
    assert_eq!(cfg.get_component_source("shell"), Some(SourceKind::Release));
    assert!(!cfg.reconcile_installed("shell", true));
}

#[test]
fn reconcile_never_demotes() {
    let mut cfg = CliConfig::new();
    cfg.set_installed("shell", true);
    cfg.set_component_version("shell", "v2".to_string());
    assert!(!cfg.reconcile_installed("shell", false));
    assert!(cfg.get_installed("shell"));
    assert_eq!(cfg.get_component_version("shell"), Some("v2".to_string()));
}

#[test]
fn reconcile_leaves_other_components_alone() {
    let mut cfg = CliConfig::new();
    assert!(!cfg.reconcile_installed("other", true));
    assert!(!cfg.get_installed("other"));
    assert!(cfg.entries().is_empty());
}

#[test]
fn entries_round_trip() {
    let mut cfg = CliConfig::new();
    cfg.set_component_source("shell", SourceKind::Git);
    cfg.set_installed("shell", true);
    cfg.set_component_version("shell", "0123abcd".to_string());
    cfg.set_installed("extra", false);
    let again = CliConfig::from_entries(cfg.entries());
    assert_eq!(again.get_component_source("shell"), Some(SourceKind::Git));
    assert!(again.get_installed("shell"));
    assert_eq!(again.get_component_version("shell"), Some("0123abcd".to_string()));
    assert_eq!(again.get_component_source("extra"), Some(SourceKind::Release));
    assert_eq!(again.get_component_version("extra"), None);
    assert_eq!(again.entries().len(), 2);
}

#[test]
fn from_entries_last_record_wins() {
    let first = ComponentConfig { source: SourceKind::Git, installed: false, version: None };
    let second = ComponentConfig {
        source: SourceKind::Release,
        installed: true,
        version: Some("v3".to_string()),
    };
    let cfg = CliConfig::from_entries(vec![
        ("shell".to_string(), first),
        ("shell".to_string(), second),
    ]);
    assert_eq!(cfg.entries().len(), 1);
    assert_eq!(cfg.get_component_source("shell"), Some(SourceKind::Release));
    assert!(cfg.get_installed("shell"));
    assert_eq!(cfg.get_component_version("shell"), Some("v3".to_string()));
}

#[test]
fn clone_keeps_every_record() {
    let mut cfg = CliConfig::new();
    cfg.set_component_source("shell", SourceKind::Git);
    cfg.set_installed("shell", true);
    cfg.set_component_version("shell", "abc".to_string());
    cfg.set_component_version("other", "v9".to_string());
    let copy = cfg.clone();
    cfg.set_installed("shell", false);
    assert!(copy.get_installed("shell"));
    assert_eq!(copy.get_component_source("shell"), Some(SourceKind::Git));
    assert_eq!(copy.get_component_version("shell"), Some("abc".to_string()));
    assert_eq!(copy.get_component_version("other"), Some("v9".to_string()));
    assert_eq!(copy.entries().len(), 2);
}

fn to_document(cfg: &CliConfig) -> String {
    let mut components = toml::Table::new();
    for (name, c) in cfg.entries() {
        let mut record = toml::Table::new();
        record.insert("source".to_string(), toml::Value::String(c.source.name().to_string()));
        record.insert("installed".to_string(), toml::Value::Boolean(c.installed));
        if let Some(version) = c.version {
            record.insert("version".to_string(), toml::Value::String(version));
        }
        components.insert(name, toml::Value::Table(record));
    }
    let mut document = toml::Table::new();
    document.insert("components".to_string(), toml::Value::Table(components));
    toml::to_string_pretty(&document).unwrap()
}

fn from_document(text: &str) -> CliConfig {
    let document: toml::Table = text.parse().unwrap();
    let mut entries = Vec::new();
    for (name, record) in document["components"].as_table().unwrap() {
        let source = match record["source"].as_str().unwrap() {
            "git" => SourceKind::Git,
            "release" => SourceKind::Release,
            other => panic!("unknown source {}", other),
        };
        let installed = record["installed"].as_bool().unwrap();
        let version = record.get("version").map(|v| v.as_str().unwrap().to_string());
        entries.push((name.clone(), ComponentConfig { source, installed, version }));
    }
    CliConfig::from_entries(entries)
}

fn sorted_records(cfg: &CliConfig) -> Vec<(String, &'static str, bool, Option<String>)> {
    let mut all: Vec<_> = cfg
        .entries()
        .into_iter()
        .map(|(name, c)| (name, c.source.name(), c.installed, c.version))
        .collect();
    all.sort();
    all
}

#[test]
fn state_survives_the_written_form() {
    let mut cfg = CliConfig::new();
    cfg.set_component_source("shell", SourceKind::Release);
    cfg.set_installed("shell", true);
    cfg.set_component_version("shell", "v1.2.0".to_string());
    cfg.set_component_source("night build", SourceKind::Git);
    cfg.set_component_version("quoted", "a \"b\" 'c' \\ \n \u{e9}".to_string());
    let text = to_document(&cfg);
    assert!(text.contains("[components.shell]"));
    assert!(text.contains("source = \"release\""));
    assert!(text.contains("installed = true"));
    assert!(text.contains("version = \"v1.2.0\""));
    let again = from_document(&text);
    assert_eq!(sorted_records(&again), sorted_records(&cfg));
    assert_eq!(sorted_records(&from_document(&to_document(&CliConfig::new()))), vec![]);
}
