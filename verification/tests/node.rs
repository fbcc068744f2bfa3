use nixpacks::app::{App, SourceFile};
use nixpacks::environment::Environment;
use nixpacks::error::{Cause, Error, ProviderId, Subject};
use nixpacks::json::Json;
use nixpacks::pattern::Pattern;
use nixpacks::phase::StartPhase;
use nixpacks::pkg::Pkg;
use nixpacks::providers::node::{
    major_from_captures, parse_regex_into_pkg, version_number_to_pkg, NodeProvider, PackageJson,
    PackageManager,
};
use nixpacks::providers::Provider;
use nixpacks::string_map::StringMap;

const DEFAULT_NODE_PKG_NAME: &str = "nodejs";

fn engines_node(version: &str) -> Option<StringMap> {
    let mut engines = StringMap::new();
    engines.insert("node".to_string(), version.to_string());
    Some(engines)
}

fn file(path: &str, contents: &str) -> SourceFile {
    SourceFile { path: path.to_string(), contents: Some(contents.to_string()) }
}

fn tree(files: Vec<SourceFile>) -> App {
    App::new("/app", files).unwrap()
}

#[test]
fn test_no_engines() -> Result<(), Error> {
    assert_eq!(
        NodeProvider::get_nix_node_pkg(
            &PackageJson {
                name: Some(String::default()),
                main: None,
                scripts: None,
                engines: None
            },
            &Environment::default()
        )?,
        Pkg::new(DEFAULT_NODE_PKG_NAME)
    );

    Ok(())
}

#[test]
fn test_star_engine() -> Result<(), Error> {
    assert_eq!(
        NodeProvider::get_nix_node_pkg(
            &PackageJson {
                name: Some(String::default()),
                main: None,
                scripts: None,
                engines: engines_node("*")
            },
            &Environment::default()
        )?,
        Pkg::new(DEFAULT_NODE_PKG_NAME)
    );

    Ok(())
}

#[test]
fn test_simple_engine() -> Result<(), Error> {
    assert_eq!(
        NodeProvider::get_nix_node_pkg(
            &PackageJson {
                name: Some(String::default()),
                main: None,
                scripts: None,
                engines: engines_node("14"),
            },
            &Environment::default()
        )?,
        Pkg::new("nodejs-14_x")
    );

    Ok(())
}

#[test]
fn test_simple_engine_x() -> Result<(), Error> {
    assert_eq!(
        NodeProvider::get_nix_node_pkg(
            &PackageJson {
                name: Some(String::default()),
                main: None,
                scripts: None,
                engines: engines_node("12.x"),
            },
            &Environment::default()
        )?,
        Pkg::new("nodejs-12_x")
    );

    assert_eq!(
        NodeProvider::get_nix_node_pkg(
            &PackageJson {
                name: Some(String::default()),
                main: None,
                scripts: None,
                engines: engines_node("14.X"),
            },
            &Environment::default()
        )?,
        Pkg::new("nodejs-14_x")
    );

    Ok(())
}

#[test]
fn test_engine_range() -> Result<(), Error> {
    assert_eq!(
        NodeProvider::get_nix_node_pkg(
            &PackageJson {
                name: Some(String::default()),
                main: None,
                scripts: None,
                engines: engines_node(">=14.10.3 <16"),
            },
            &Environment::default()
        )?,
        Pkg::new("nodejs-14_x")
    );

    Ok(())
}

#[test]
fn test_version_from_environment_variable() -> Result<(), Error> {
    let mut variables = StringMap::new();
    variables.insert("NIXPACKS_NODE_VERSION".to_string(), "14".to_string());
    assert_eq!(
        NodeProvider::get_nix_node_pkg(
            &PackageJson {
                name: Some(String::default()),
                main: None,
                scripts: None,
                engines: None,
            },
            &Environment::new(variables)
        )?,
        Pkg::new("nodejs-14_x")
    );

    Ok(())
}

#[test]
fn test_engine_invalid_version() -> Result<(), Error> {
    // this test now defaults to lts
    assert_eq!(
        NodeProvider::get_nix_node_pkg(
            &PackageJson {
                name: Some(String::default()),
                main: None,
                scripts: None,
                engines: engines_node("15"),
            },
            &Environment::default()
        )
        .unwrap()
        .name,
        "nodejs"
    );

    Ok(())
}

#[test]
fn engines_beat_the_environment() {
    let mut variables = StringMap::new();
    variables.insert("NIXPACKS_NODE_VERSION".to_string(), "14".to_string());
    let package_json =
        PackageJson { name: None, main: None, scripts: None, engines: engines_node("16") };
    let pkg = NodeProvider::get_nix_node_pkg(&package_json, &Environment::new(variables)).unwrap();
    assert_eq!(pkg, Pkg::new("nodejs-16_x"));
}

#[test]
fn every_available_version_has_its_package() {
    assert_eq!(version_number_to_pkg(10), "nodejs-10_x");
    assert_eq!(version_number_to_pkg(12), "nodejs-12_x");
    assert_eq!(version_number_to_pkg(14), "nodejs-14_x");
    assert_eq!(version_number_to_pkg(16), "nodejs-16_x");
    assert_eq!(version_number_to_pkg(18), "nodejs-18_x");
    assert_eq!(version_number_to_pkg(11), "nodejs");
    assert_eq!(version_number_to_pkg(0), "nodejs");
    assert_eq!(version_number_to_pkg(u32::MAX), "nodejs");
}

#[test]
fn unmatched_major_is_reported() {
    let env = Environment::default();
    let asked = |v: &str| PackageJson { name: None, main: None, scripts: None, engines: engines_node(v) };
    assert_eq!(NodeProvider::get_unmatched_major(&asked("15"), &env), Ok(Some(15)));
    assert_eq!(NodeProvider::get_unmatched_major(&asked("14"), &env), Ok(None));
    assert_eq!(NodeProvider::get_unmatched_major(&asked("*"), &env), Ok(None));
    assert_eq!(NodeProvider::get_unmatched_major(&asked("^14"), &env), Ok(None));
    assert_eq!(NodeProvider::get_requested_major(&asked(">=18"), &env), Ok(Some(18)));
    assert_eq!(NodeProvider::get_requested_major(&asked("latest"), &env), Ok(None));
}

#[test]
fn versions_that_are_no_plain_number_fall_back() {
    let env = Environment::default();
    let asked = |v: &str| PackageJson { name: None, main: None, scripts: None, engines: engines_node(v) };
    // leading zeros are read as the number they write
    assert_eq!(NodeProvider::get_requested_major(&asked("014"), &env), Ok(Some(14)));
    // too large for 32 bits
    assert_eq!(NodeProvider::get_requested_major(&asked("99999999999"), &env), Ok(None));
    assert_eq!(NodeProvider::get_requested_major(&asked("4294967295"), &env), Ok(Some(4294967295)));
    assert_eq!(NodeProvider::get_requested_major(&asked("4294967296"), &env), Ok(None));
    // digits outside ASCII match `\d` but write no number
    assert_eq!(NodeProvider::get_requested_major(&asked("\u{0661}\u{0664}"), &env), Ok(None));
    assert_eq!(NodeProvider::get_requested_major(&asked("14|"), &env), Ok(None));
    assert_eq!(NodeProvider::get_requested_major(&asked("14.10"), &env), Ok(None));
    assert_eq!(NodeProvider::get_requested_major(&asked(""), &env), Ok(None));
}

#[test]
fn major_is_read_from_the_first_group() {
    assert_eq!(major_from_captures(&None), None);
    assert_eq!(major_from_captures(&Some(vec![Some("12.x".to_string())])), None);
    assert_eq!(
        major_from_captures(&Some(vec![Some("12.x".to_string()), Some("12".to_string())])),
        Some(12)
    );
    assert_eq!(major_from_captures(&Some(vec![Some("x".to_string()), None])), None);
    assert_eq!(
        major_from_captures(&Some(vec![Some("x".to_string()), Some("1a".to_string())])),
        None
    );
}

#[test]
fn regex_gives_the_package() {
    let range = Pattern::new("^>=(\\d+)").unwrap();
    assert_eq!(parse_regex_into_pkg(&range, ">=16.2"), Some("nodejs-16_x".to_string()));
    assert_eq!(parse_regex_into_pkg(&range, ">=17"), Some("nodejs".to_string()));
    assert_eq!(parse_regex_into_pkg(&range, "16"), None);
    assert_eq!(parse_regex_into_pkg(&range, ">=99999999999"), None);
    // a first group that takes the sign is read with it
    let signed = Pattern::new("^>=([+-]?\\d+)").unwrap();
    assert_eq!(parse_regex_into_pkg(&signed, ">=+14"), Some("nodejs-14_x".to_string()));
    assert_eq!(parse_regex_into_pkg(&signed, ">=+15"), Some("nodejs".to_string()));
    assert_eq!(parse_regex_into_pkg(&signed, ">=14"), Some("nodejs-14_x".to_string()));
    assert_eq!(parse_regex_into_pkg(&signed, ">=-14"), None);
    // a pattern without a first group gives nothing
    assert_eq!(parse_regex_into_pkg(&Pattern::new("^\\d+").unwrap(), "14"), None);
    assert_eq!(
        major_from_captures(&Some(vec![Some("+14".to_string()), Some("+14".to_string())])),
        Some(14)
    );
}

#[test]
fn package_json_without_fields_is_the_default() {
    let none = PackageJson::default();
    assert_eq!(none, PackageJson { name: None, main: None, scripts: None, engines: None });
    assert_eq!(PackageJson::from_json(&Json::parse("{}").unwrap()), Ok(none));
    // of a repeated field the later one counts
    let twice =
        PackageJson::from_json(&Json::parse(r#"{"main":"a.js","main":"b.js"}"#).unwrap()).unwrap();
    assert_eq!(twice.main.as_deref(), Some("b.js"));
}

#[test]
fn node_environment_variables_are_fixed() {
    let variables = NodeProvider::get_node_environment_variables();
    assert_eq!(variables.get("NODE_ENV").map(|s| s.as_str()), Some("production"));
    assert_eq!(variables.get("NPM_CONFIG_PRODUCTION").map(|s| s.as_str()), Some("false"));
    assert_eq!(variables.to_vec().len(), 2);
}

#[test]
fn has_script_reads_package_json() {
    let app = tree(vec![file("package.json", r#"{"scripts":{"build":"tsc"}}"#)]);
    assert_eq!(NodeProvider::has_script(&app, "build"), Ok(true));
    assert_eq!(NodeProvider::has_script(&app, "start"), Ok(false));
    let none = tree(vec![file("package.json", r#"{"name":"x"}"#)]);
    assert_eq!(NodeProvider::has_script(&none, "build"), Ok(false));
    let empty = tree(vec![]);
    assert_eq!(NodeProvider::has_script(&empty, "build"), Err(Error::Io));
    let broken = tree(vec![file("package.json", "{")]);
    assert_eq!(NodeProvider::has_script(&broken, "build"), Err(Error::Parse));
    let binary = tree(vec![SourceFile { path: "package.json".to_string(), contents: None }]);
    assert_eq!(NodeProvider::has_script(&binary, "build"), Err(Error::Io));
}

#[test]
fn start_cmd_prefers_script_then_main_then_index() {
    let script = tree(vec![
        file("package.json", r#"{"scripts":{"start":"node x.js"},"main":"lib.js"}"#),
        file("lib.js", ""),
        file("index.js", ""),
    ]);
    assert_eq!(NodeProvider::get_start_cmd(&script), Ok(Some("npm run start".to_string())));
    let main = tree(vec![
        file("package.json", r#"{"main":"src/lib.js"}"#),
        file("src/lib.js", ""),
        file("index.js", ""),
    ]);
    assert_eq!(NodeProvider::get_start_cmd(&main), Ok(Some("node src/lib.js".to_string())));
    let missing_main =
        tree(vec![file("package.json", r#"{"main":"lib.js"}"#), file("index.js", "")]);
    assert_eq!(NodeProvider::get_start_cmd(&missing_main), Ok(Some("node index.js".to_string())));
    let nothing = tree(vec![file("package.json", "{}")]);
    assert_eq!(NodeProvider::get_start_cmd(&nothing), Ok(None));
    assert_eq!(NodeProvider::get_start_cmd(&tree(vec![])), Err(Error::Io));
}

#[test]
fn package_manager_follows_lock_files() {
    let npm = tree(vec![file("package.json", "{}")]);
    assert_eq!(NodeProvider::get_package_manager(&npm), "npm");
    assert_eq!(NodeProvider::package_manager(&npm), PackageManager::Npm);
    let yarn = tree(vec![file("package.json", "{}"), file("yarn.lock", "")]);
    assert_eq!(NodeProvider::get_package_manager(&yarn), "yarn");
    let both = tree(vec![file("yarn.lock", ""), file("pnpm-lock.yaml", "")]);
    assert_eq!(NodeProvider::get_package_manager(&both), "pnpm");
    assert_eq!(PackageManager::Pnpm.name(), "pnpm");
}

#[test]
fn install_command_for_each_layout() {
    assert_eq!(NodeProvider::get_install_command(&tree(vec![])), "npm i");
    assert_eq!(
        NodeProvider::get_install_command(&tree(vec![file("package-lock.json", "")])),
        "npm ci"
    );
    assert_eq!(
        NodeProvider::get_install_command(&tree(vec![file("pnpm-lock.yaml", "")])),
        "pnpm i --frozen-lockfile"
    );
    assert_eq!(
        NodeProvider::get_install_command(&tree(vec![file("yarn.lock", "")])),
        "yarn install --frozen-lockfile"
    );
    assert_eq!(
        NodeProvider::get_install_command(&tree(vec![file("yarn.lock", ""), file(".yarnrc.yml", "")])),
        "yarn set version berry && yarn install --immutable --check-cache"
    );
    // pnpm wins over a package-lock.json
    assert_eq!(
        NodeProvider::get_install_command(&tree(vec![
            file("pnpm-lock.yaml", ""),
            file("package-lock.json", "")
        ])),
        "pnpm i --frozen-lockfile"
    );
}

#[test]
fn nix_packages_carry_the_node_override() {
    let env = Environment::default();
    let pnpm = tree(vec![
        file("package.json", r#"{"engines":{"node":"16"}}"#),
        file("pnpm-lock.yaml", ""),
    ]);
    assert_eq!(
        NodeProvider::get_nix_packages(&pnpm, &env),
        Ok(vec![
            Pkg::new("nodejs-16_x"),
            Pkg::new("nodePackages.pnpm").set_override("nodejs", "nodejs-16_x")
        ])
    );
    let yarn = tree(vec![file("package.json", "{}"), file("yarn.lock", "")]);
    assert_eq!(
        NodeProvider::get_nix_packages(&yarn, &env),
        Ok(vec![Pkg::new("nodejs"), Pkg::new("yarn")])
    );
    let npm = tree(vec![file("package.json", r#"{"engines":{"node":"18.x"}}"#)]);
    assert_eq!(NodeProvider::get_nix_packages(&npm, &env), Ok(vec![Pkg::new("nodejs-18_x")]));
    assert_eq!(NodeProvider::get_nix_packages(&tree(vec![]), &env), Err(Error::Io));
}

#[test]
fn default_node_package_without_any_request() {
    let env = Environment::default();
    let npm = tree(vec![file("package.json", r#"{"name":"app","engines":{"npm":"8"}}"#)]);
    assert_eq!(NodeProvider::get_nix_packages(&npm, &env), Ok(vec![Pkg::new("nodejs")]));
}

#[test]
fn canvas_is_found_in_package_json_and_lock_files() {
    assert!(!NodeProvider::uses_canvas(&tree(vec![])));
    assert!(NodeProvider::uses_canvas(&tree(vec![file(
        "package.json",
        r#"{"dependencies":{"canvas":"^2"}}"#
    )])));
    assert!(!NodeProvider::uses_canvas(&tree(vec![file(
        "package.json",
        r#"{"dependencies":{"canvas-kit":"^2"}}"#
    )])));
    assert!(NodeProvider::uses_canvas(&tree(vec![file(
        "yarn.lock",
        "resolved \"https://registry.yarnpkg.com/canvas/-/canvas-2.9.1.tgz\""
    )])));
    assert!(NodeProvider::uses_canvas(&tree(vec![file("pnpm-lock.yaml", "  /canvas/2.9.1:")])));
    assert!(NodeProvider::uses_canvas(&tree(vec![file("package-lock.json", "node_modules/canvas/x")])));
    // a lock file is searched for the path only
    assert!(!NodeProvider::uses_canvas(&tree(vec![file("yarn.lock", "\"canvas\"")])));
}

#[test]
fn package_json_schema() {
    let read = |text: &str| PackageJson::from_json(&Json::parse(text).unwrap());
    let full = read(
        r#"{"name":"a","main":"m.js","scripts":{"x":"y"},"engines":{"node":"14"},"other":[1,2]}"#,
    )
    .unwrap();
    assert_eq!(full.name.as_deref(), Some("a"));
    assert_eq!(full.main.as_deref(), Some("m.js"));
    assert_eq!(full.scripts.unwrap().get("x").map(|s| s.as_str()), Some("y"));
    assert_eq!(full.engines, engines_node("14"));
    let nulls = read(r#"{"name":null,"scripts":null}"#).unwrap();
    assert_eq!(nulls, PackageJson { name: None, main: None, scripts: None, engines: None });
    assert_eq!(read("[]"), Err(Error::Parse));
    assert_eq!(read(r#"{"name":1}"#), Err(Error::Parse));
    assert_eq!(read(r#"{"scripts":{"a":1}}"#), Err(Error::Parse));
    assert_eq!(read(r#"{"engines":"14"}"#), Err(Error::Parse));
    assert_eq!(read(r#"{"main":{}}"#), Err(Error::Parse));
}

#[test]
fn node_provider_phases() {
    let provider = NodeProvider {};
    let env = Environment::default();
    assert_eq!(provider.name(), "node");
    assert_eq!(provider.identity(), ProviderId::Node);
    assert_eq!(provider.detect(&tree(vec![]), &env), Ok(false));
    let app = tree(vec![
        file("package.json", r#"{"scripts":{"build":"tsc"},"main":"npm-main.js"}"#),
        file("npm-main.js", ""),
        file("pnpm-lock.yaml", ""),
    ]);
    assert_eq!(provider.detect(&app, &env), Ok(true));
    assert_eq!(provider.build(&app, &env).unwrap().unwrap().cmd.as_deref(), Some("pnpm run build"));
    // the name of the main file is left as it is
    assert_eq!(
        provider.start(&app, &env).unwrap().unwrap().cmd.as_deref(),
        Some("node npm-main.js")
    );
    let broken = tree(vec![file("package.json", "nope")]);
    assert_eq!(
        provider.setup(&broken, &env),
        Err(Error::Provider { provider: ProviderId::Node, cause: Cause::Parse, subject: Subject::PackageJson })
    );
    assert_eq!(
        provider.build(&tree(vec![]), &env),
        Err(Error::Provider { provider: ProviderId::Node, cause: Cause::Io, subject: Subject::PackageJson })
    );
    assert!(provider.install(&broken, &env).is_ok());
    assert!(provider.environment_variables(&broken, &env).unwrap().is_some());
}

#[test]
fn only_the_start_script_carries_the_package_manager() {
    let provider = NodeProvider {};
    let env = Environment::default();
    let main = tree(vec![
        file("package.json", r#"{"main":"npm-cli.js"}"#),
        file("npm-cli.js", ""),
        file("yarn.lock", ""),
    ]);
    assert_eq!(provider.start(&main, &env), Ok(Some(StartPhase::new("node npm-cli.js".to_string()))));
    let index = tree(vec![file("package.json", "{}"), file("index.js", ""), file("pnpm-lock.yaml", "")]);
    assert_eq!(provider.start(&index, &env), Ok(Some(StartPhase::new("node index.js".to_string()))));
    for (lock, expected) in [
        ("yarn.lock", "yarn run start"),
        ("pnpm-lock.yaml", "pnpm run start"),
        ("package-lock.json", "npm run start"),
    ] {
        let script = tree(vec![
            file("package.json", r#"{"scripts":{"start":"npm-run-all serve"},"main":"npm.js"}"#),
            file("npm.js", ""),
            file(lock, ""),
        ]);
        assert_eq!(provider.start(&script, &env), Ok(Some(StartPhase::new(expected.to_string()))));
    }
    let nothing = tree(vec![file("package.json", "{}"), file("yarn.lock", "")]);
    assert_eq!(provider.start(&nothing, &env), Ok(None));
    assert_eq!(
        provider.start(&tree(vec![]), &env),
        Err(Error::Provider { provider: ProviderId::Node, cause: Cause::Io, subject: Subject::PackageJson })
    );
}
