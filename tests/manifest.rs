use update_pypi_deps::{
    registry_url, update_versions, Config, FetchState, FetchStep, Malformed, PypiDeps, PypiResp,
    Resolutions, Section, UpdateError,
};

const PYPROJECT: &str = r#"
[project]
name = "example"
dependencies = [
    "cryptography~=41.0",
    "requests>=2.31",
    "tomli",
]

[project.optional-dependencies]
test = [
    "black==22.12.0",
    "pytest",
]
"#;

fn dep(name: &str, op: &str, version: &str) -> (String, Option<(String, String)>) {
    (name.to_string(), Some((op.to_string(), version.to_string())))
}

fn resolve(deps: &PypiDeps, limit: usize, answer: &dyn Fn(&str) -> Option<String>) -> Resolutions {
    let mut state = FetchState::new(deps.names(), limit);
    let mut pending: Vec<String> = Vec::new();
    loop {
        match state.step() {
            FetchStep::Lookup(name) => {
                pending.push(name);
                assert!(pending.len() <= limit);
            }
            FetchStep::Wait => {
                let name = pending.remove(0);
                let found = answer(&name);
                state.complete(name, found);
            }
            FetchStep::Finished => break,
        }
    }
    assert!(pending.is_empty());
    state.into_latest()
}

#[test]
fn test_parse_deps() {
    let deps = PypiDeps::from_manifest_text(PYPROJECT).unwrap();
    assert!(deps.dependencies.0.contains(&dep("cryptography", "~=", "41.0")));
    let test_deps = deps
        .optional_dependencies
        .iter()
        .find(|(k, _)| k == "test")
        .map(|(_, v)| v)
        .unwrap();
    assert!(test_deps.0.contains(&dep("black", "==", "22.12.0")));
}

#[test]
fn test_response() {
    let fauxmo = br#"{"info": {"name": "fauxmo", "version": "0.8.0", "yanked": false}, "last_serial": 1}"#;
    assert_eq!(PypiResp::from_json(fauxmo).unwrap().info.version, "0.8.0");
    let keyring = br#"{"info": {"author": "", "version": "25.2.0"}, "urls": []}"#;
    assert_eq!(PypiResp::from_json(keyring).unwrap().info.version, "25.2.0");
}

#[test]
fn response_without_version_is_refused() {
    assert!(matches!(
        PypiResp::from_json(br#"{"info": {"name": "x"}}"#),
        Err(UpdateError::NoVersionField)
    ));
    assert!(matches!(
        PypiResp::from_json(br#"{"info": {"version": 3}}"#),
        Err(UpdateError::NoVersionField)
    ));
    assert!(matches!(PypiResp::from_json(b"not json"), Err(UpdateError::ParseJson(_))));
}

#[test]
fn url_names_the_package() {
    assert_eq!(registry_url("black"), "https://pypi.org/pypi/black/json");
}

#[test]
fn config_keeps_its_values() {
    let c = Config::new("pyproject.toml".to_string(), 10);
    assert_eq!(c.input, "pyproject.toml");
    assert_eq!(c.requests, 10);
}

#[test]
fn names_in_manifest_order() {
    let deps = PypiDeps::from_manifest_text(PYPROJECT).unwrap();
    assert_eq!(deps.names(), vec!["cryptography", "requests", "tomli", "black", "pytest"]);
}

#[test]
fn missing_project_is_an_error() {
    let r = PypiDeps::from_manifest_text("[tool.x]\na = 1\n");
    assert!(matches!(r, Err(UpdateError::MissingSection(Section::Project))));
}

#[test]
fn missing_dependencies_is_an_error() {
    let r = PypiDeps::from_manifest_text("[project]\nname = \"x\"\n");
    assert!(matches!(r, Err(UpdateError::MissingSection(Section::Dependencies))));
}

#[test]
fn dependencies_not_array_is_an_error() {
    let r = PypiDeps::from_manifest_text("[project]\ndependencies = \"x\"\n");
    assert!(matches!(r, Err(UpdateError::NotArray)));
}

#[test]
fn malformed_line_fails_the_whole_manifest() {
    let r = PypiDeps::from_manifest_text("[project]\ndependencies = [\"a\", \"b>=\"]\n");
    assert!(matches!(r, Err(UpdateError::Specifier(Malformed::MissingVersion))));
}

#[test]
fn invalid_toml_is_an_error() {
    let r = PypiDeps::from_manifest_text("[project\n");
    assert!(matches!(r, Err(UpdateError::ParseToml(_))));
}

#[test]
fn absent_optional_group_is_not_invented() {
    let deps = PypiDeps::from_manifest_text("[project]\ndependencies = [\"black\"]\n").unwrap();
    assert!(deps.optional_dependencies.is_empty());
    let latest = resolve(&deps, 10, &|_| Some("24.1.0".to_string()));
    let mut deps = deps;
    update_versions(&mut deps, &latest).unwrap();
    let out = deps.report();
    assert!(!out.contains("test"));
}

#[test]
fn resolution_holds_exactly_the_successes() {
    let deps = PypiDeps::from_manifest_text(PYPROJECT).unwrap();
    let registry = |name: &str| {
        if name == "requests" || name == "pytest" {
            None
        } else {
            Some(format!("{}.0", name.len()))
        }
    };
    let latest = resolve(&deps, 2, &registry);
    for name in ["cryptography", "tomli", "black"] {
        assert!(latest.contains(&name.to_string()));
    }
    for name in ["requests", "pytest", "unknown"] {
        assert!(!latest.contains(&name.to_string()));
    }
    assert_eq!(latest.get(&"black".to_string()), Some("5.0".to_string()));
}

#[test]
fn gate_never_exceeds_limit() {
    let names: Vec<String> = (0..7).map(|i| format!("p{i}")).collect();
    let mut state = FetchState::new(names, 3);
    let mut outstanding: Vec<String> = Vec::new();
    let mut max_seen = 0;
    let mut finished = 0;
    loop {
        match state.step() {
            FetchStep::Lookup(n) => {
                outstanding.push(n);
                max_seen = max_seen.max(outstanding.len());
            }
            FetchStep::Wait => {
                let n = outstanding.pop().unwrap();
                finished += 1;
                state.complete(n, None);
            }
            FetchStep::Finished => break,
        }
    }
    assert_eq!(max_seen, 3);
    assert_eq!(finished, 7);
}

#[test]
fn resolutions_last_write_wins() {
    let mut r = Resolutions::new();
    r.insert("a".to_string(), "1".to_string());
    r.insert("b".to_string(), "2".to_string());
    r.insert("a".to_string(), "3".to_string());
    assert_eq!(r.get(&"a".to_string()), Some("3".to_string()));
    assert_eq!(r.get(&"b".to_string()), Some("2".to_string()));
    assert_eq!(r.get(&"c".to_string()), None);
}

#[test]
fn unresolved_name_is_reported() {
    let mut deps = PypiDeps::from_manifest_text(PYPROJECT).unwrap();
    let mut latest = Resolutions::new();
    for name in ["cryptography", "requests", "tomli", "pytest"] {
        latest.insert(name.to_string(), "1.0".to_string());
    }
    match update_versions(&mut deps, &latest) {
        Err(UpdateError::Unresolved(name)) => assert_eq!(name, "black"),
        other => panic!("unexpected: {other:?}"),
    }
    assert!(deps.dependencies.0.contains(&dep("cryptography", "~=", "41.0")));
}

#[test]
fn compatible_release_keeps_its_operator() {
    let mut deps =
        PypiDeps::from_manifest_text("[project]\ndependencies = [\"cryptography~=41.0\"]\n").unwrap();
    let latest = resolve(&deps, 10, &|_| Some("42.0.1".to_string()));
    update_versions(&mut deps, &latest).unwrap();
    assert!(deps.report().contains("\"cryptography ~= 42.0.1\""));
}

#[test]
fn bare_dependency_gets_exact_pin() {
    let mut deps = PypiDeps::from_manifest_text("[project]\ndependencies = [\"black\"]\n").unwrap();
    let latest = resolve(&deps, 10, &|_| Some("24.1.0".to_string()));
    update_versions(&mut deps, &latest).unwrap();
    assert!(deps.report().contains("\"black == 24.1.0\""));
}

#[test]
fn full_report_text() {
    let mut deps = PypiDeps::from_manifest_text(PYPROJECT).unwrap();
    let latest = resolve(&deps, 3, &|name| Some(format!("{}.1", name.len())));
    update_versions(&mut deps, &latest).unwrap();
    let expected = "Newest versions:\n\n\
dependencies = [\n    \"cryptography ~= 12.1\",\n    \"requests >= 8.1\",\n    \"tomli == 5.1\",\n]\n\
\ntest = [\n    \"black == 5.1\",\n    \"pytest == 6.1\",\n]\n";
    assert_eq!(deps.report(), expected);
}

#[test]
fn render_without_update_keeps_bare_names() {
    let deps = PypiDeps::from_manifest_text("[project]\ndependencies = [\"a\", \"b<3\"]\n").unwrap();
    assert_eq!(deps.render(), "dependencies = [\n    \"a\",\n    \"b < 3\",\n]\n");
}

#[test]
fn empty_groups_are_omitted() {
    let text = "[project]\ndependencies = []\n[project.optional-dependencies]\ndocs = []\n";
    let deps = PypiDeps::from_manifest_text(text).unwrap();
    assert_eq!(deps.render(), "");
}

#[test]
fn string_elements_are_read_unquoted() {
    let text = "[project]\ndependencies = ['tomli >= 2.0', 7]\n";
    let deps = PypiDeps::from_manifest_text(text).unwrap();
    assert_eq!(deps.dependencies.0[0], dep("tomli", ">=", "2.0"));
    assert_eq!(deps.dependencies.0[1], ("7".to_string(), None));
}

#[test]
fn project_that_is_no_table_lacks_dependencies() {
    let r = PypiDeps::from_manifest_text("project = 3\n");
    assert!(matches!(r, Err(UpdateError::MissingSection(Section::Dependencies))));
}

#[test]
fn optional_group_not_array_is_an_error() {
    let text = "[project]\ndependencies = []\n[project.optional-dependencies]\ndocs = \"x\"\n";
    assert!(matches!(PypiDeps::from_manifest_text(text), Err(UpdateError::NotArray)));
}
