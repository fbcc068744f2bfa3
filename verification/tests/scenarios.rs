use nixpacks::app::{App, SourceFile};
use nixpacks::error::{Cause, Error, ProviderId, Subject};
use nixpacks::phase::{BuildPhase, InstallPhase, SetupPhase, StartPhase};
use nixpacks::pkg::Pkg;
use nixpacks::plan::BuildPlan;
use nixpacks::planner::{
    generate_build_plan, plan_with_providers, select_provider, GeneratePlanOptions,
};
use nixpacks::environment::Environment;
use nixpacks::string_map::StringMap;

fn file(path: &str, contents: &str) -> SourceFile {
    SourceFile { path: path.to_string(), contents: Some(contents.to_string()) }
}

fn tree(files: Vec<SourceFile>) -> App {
    App::new("/app", files).unwrap()
}

fn plan(app: &App, options: &GeneratePlanOptions) -> BuildPlan {
    generate_build_plan(app, StringMap::new(), &vec![], options, None).unwrap()
}

fn yarn_canvas_repo() -> App {
    tree(vec![
        file(
            "package.json",
            r#"{"scripts":{"build":"webpack","start":"node dist/server.js"},"dependencies":{"canvas":"^2"}}"#,
        ),
        file("yarn.lock", ""),
    ])
}

const DENO_IMPORT: &str = "import { serve } from \"https://deno.land/std/http/server.ts\";";

#[test]
fn empty_directory_gives_the_empty_plan() {
    let got = plan(&tree(vec![]), &GeneratePlanOptions::default());
    assert_eq!(got, BuildPlan::new());
    assert!(got.setup.is_none() && got.install.is_none());
    assert!(got.build.is_none() && got.start.is_none());
    assert!(got.variables.is_empty());
    assert!(!got.is_valid(false));
    assert!(got.is_valid(true));
}

#[test]
fn deno_is_detected_by_imports() {
    let app = tree(vec![file("app.ts", DENO_IMPORT), file("index.ts", DENO_IMPORT)]);
    let got = plan(&app, &GeneratePlanOptions::default());
    assert_eq!(got.setup, Some(SetupPhase::new(vec![Pkg::new("deno")])));
    assert_eq!(got.install, None);
    assert_eq!(got.build, Some(BuildPhase::new("deno cache index.ts".to_string())));
    assert_eq!(got.start, Some(StartPhase::new("deno run --allow-all index.ts".to_string())));
    assert!(got.variables.is_empty());
    assert!(got.is_valid(false));
}

#[test]
fn node_with_yarn_and_canvas() {
    let got = plan(&yarn_canvas_repo(), &GeneratePlanOptions::default());
    let setup = got.setup.unwrap();
    assert_eq!(setup.pkgs, vec![Pkg::new("nodejs"), Pkg::new("yarn")]);
    assert_eq!(setup.libraries, vec!["libuuid".to_string(), "libGL".to_string()]);
    assert!(setup.apt_pkgs.is_empty());
    assert_eq!(setup.archive, None);
    assert_eq!(got.install, Some(InstallPhase::new("yarn install --frozen-lockfile".to_string())));
    assert_eq!(got.build, Some(BuildPhase::new("yarn run build".to_string())));
    assert_eq!(got.start, Some(StartPhase::new("yarn run start".to_string())));
    let mut variables = StringMap::new();
    variables.insert("NPM_CONFIG_PRODUCTION".to_string(), "false".to_string());
    variables.insert("NODE_ENV".to_string(), "production".to_string());
    assert_eq!(got.variables, variables);
}

#[test]
fn node_version_pinning() {
    let app = tree(vec![file("package.json", r#"{"engines":{"node":">=14.10.3 <16"}}"#)]);
    let got = plan(&app, &GeneratePlanOptions::default());
    assert_eq!(got.setup.unwrap().pkgs, vec![Pkg::new("nodejs-14_x")]);
    assert_eq!(got.install.unwrap().cmd.as_deref(), Some("npm i"));
    assert_eq!(got.build, None);
    assert_eq!(got.start, None);
}

#[test]
fn node_pnpm_with_non_default_node() {
    let app = tree(vec![
        file("package.json", r#"{"engines":{"node":"16"}}"#),
        file("pnpm-lock.yaml", ""),
    ]);
    let got = plan(&app, &GeneratePlanOptions::default());
    assert_eq!(
        got.setup.unwrap().pkgs,
        vec![
            Pkg::new("nodejs-16_x"),
            Pkg::new("nodePackages.pnpm").set_override("nodejs", "nodejs-16_x")
        ]
    );
    assert_eq!(got.install.unwrap().cmd.as_deref(), Some("pnpm i --frozen-lockfile"));
}

#[test]
fn cli_overrides_trump_provider() {
    let plain = plan(&yarn_canvas_repo(), &GeneratePlanOptions::default());
    let mut options = GeneratePlanOptions::default();
    options.custom_start_cmd = Some("node server.js".to_string());
    options.custom_install_cmd = Some(vec!["echo skip".to_string()]);
    let got = plan(&yarn_canvas_repo(), &options);
    assert_eq!(got.start.as_ref().unwrap().cmd.as_deref(), Some("node server.js"));
    assert_eq!(got.install.as_ref().unwrap().cmd.as_deref(), Some("echo skip"));
    assert_eq!(got.setup, plain.setup);
    assert_eq!(got.build, plain.build);
    assert_eq!(got.variables, plain.variables);
    assert_eq!(got.start.unwrap().run_image, plain.start.unwrap().run_image);
    assert_eq!(got.install.unwrap().cache_directories, plain.install.unwrap().cache_directories);
}

#[test]
fn first_detecting_provider_is_selected() {
    // a tree that both providers recognise
    let app = tree(vec![file("deno.json", "{}"), file("package.json", "{}"), file("index.ts", "")]);
    let env = Environment::default();
    let deno_first = vec![ProviderId::Deno, ProviderId::Node];
    let node_first = vec![ProviderId::Node, ProviderId::Deno];
    assert_eq!(select_provider(&deno_first, &app, &env), Ok(Some(ProviderId::Deno)));
    assert_eq!(select_provider(&node_first, &app, &env), Ok(Some(ProviderId::Node)));
    assert_eq!(select_provider(&vec![], &app, &env), Ok(None));
    let options = GeneratePlanOptions::default();
    let run = |providers: &Vec<ProviderId>| {
        plan_with_providers(providers, &app, StringMap::new(), &vec![], &options, None).unwrap()
    };
    // removing the providers that were not selected changes nothing
    assert_eq!(run(&deno_first), run(&vec![ProviderId::Deno]));
    assert_eq!(run(&node_first), run(&vec![ProviderId::Node]));
    assert_ne!(run(&deno_first), run(&node_first));
    assert_eq!(run(&deno_first), plan(&app, &options));
    assert_eq!(run(&vec![]), BuildPlan::new());
}

#[test]
fn two_runs_give_equal_plans() {
    let mut options = GeneratePlanOptions::default();
    options.custom_pkgs = vec![Pkg::new("cowsay")];
    let entries = vec!["A=1".to_string(), "B=2".to_string()];
    let mut base = StringMap::new();
    base.insert("NIXPACKS_NODE_VERSION".to_string(), "18".to_string());
    let first =
        generate_build_plan(&yarn_canvas_repo(), base.clone(), &entries, &options, None).unwrap();
    let second =
        generate_build_plan(&yarn_canvas_repo(), base.clone(), &entries, &options, None).unwrap();
    assert_eq!(first, second);
    // the order in which the files and the variables arrive does not matter
    let reordered = App::new(
        "/app",
        vec![
            file("yarn.lock", ""),
            file(
                "package.json",
                r#"{"scripts":{"build":"webpack","start":"node dist/server.js"},"dependencies":{"canvas":"^2"}}"#,
            ),
        ],
    )
    .unwrap();
    let third = generate_build_plan(&reordered, base, &entries, &options, None).unwrap();
    assert_eq!(first, third);
    assert_eq!(first.setup.unwrap().pkgs[0], Pkg::new("nodejs-18_x"));
}

#[test]
fn plan_file_is_the_plan_when_nothing_else_speaks() {
    let text = r#"{
        "setup": {"pkgs": [{"name": "go"}, {"name": "yarn", "overrides": {"nodejs": "nodejs-14_x"}}],
                  "libraries": ["zlib"], "aptPkgs": ["curl"], "archive": "abc", "cmds": ["x"]},
        "install": {"cmd": "go mod download", "cacheDirectories": ["/root/.cache"]},
        "build": {"cmd": "go build"},
        "start": {"cmd": "./app", "runImage": "alpine"},
        "variables": {"CGO_ENABLED": "0"}
    }"#;
    let options = GeneratePlanOptions {
        plan_path: Some("plan.json".to_string()),
        ..GeneratePlanOptions::default()
    };
    let got =
        generate_build_plan(&tree(vec![]), StringMap::new(), &vec![], &options, Some(text)).unwrap();
    let mut variables = StringMap::new();
    variables.insert("CGO_ENABLED".to_string(), "0".to_string());
    let expected = BuildPlan {
        setup: Some(SetupPhase {
            pkgs: vec![Pkg::new("go"), Pkg::new("yarn").set_override("nodejs", "nodejs-14_x")],
            libraries: vec!["zlib".to_string()],
            apt_pkgs: vec!["curl".to_string()],
            archive: Some("abc".to_string()),
            cmds: Some(vec!["x".to_string()]),
        }),
        install: Some(InstallPhase {
            cmd: Some("go mod download".to_string()),
            cache_directories: Some(vec!["/root/.cache".to_string()]),
        }),
        build: Some(BuildPhase { cmd: Some("go build".to_string()), cache_directories: None }),
        start: Some(StartPhase {
            cmd: Some("./app".to_string()),
            run_image: Some("alpine".to_string()),
        }),
        variables,
    };
    assert_eq!(got, expected);
    // a variable of the command line that the file does not hold shows
    let with_env = generate_build_plan(
        &tree(vec![]),
        StringMap::new(),
        &vec!["X=1".to_string()],
        &options,
        Some(text),
    )
    .unwrap();
    assert_ne!(with_env, expected);
    assert_eq!(with_env.variables.get("X").map(|s| s.as_str()), Some("1"));
    // one that it holds with the same value does not
    let same_env = generate_build_plan(
        &tree(vec![]),
        StringMap::new(),
        &vec!["CGO_ENABLED=0".to_string()],
        &options,
        Some(text),
    )
    .unwrap();
    assert_eq!(same_env, expected);
}

#[test]
fn plan_file_without_setup_leaves_the_added_packages() {
    let mut options = GeneratePlanOptions::default();
    options.custom_pkgs = vec![Pkg::new("cowsay")];
    let got = generate_build_plan(
        &tree(vec![]),
        StringMap::new(),
        &vec![],
        &options,
        Some(r#"{"start":{"cmd":"x"}}"#),
    )
    .unwrap();
    assert_eq!(got.setup, Some(SetupPhase::new(vec![Pkg::new("cowsay")])));
    assert_eq!(got.start, Some(StartPhase::new("x".to_string())));
}

#[test]
fn plan_file_replaces_whole_phases() {
    let got = generate_build_plan(
        &yarn_canvas_repo(),
        StringMap::new(),
        &vec![],
        &GeneratePlanOptions::default(),
        Some(r#"{"setup":{"pkgs":[{"name":"bun"}]},"install":null,"variables":{}}"#),
    )
    .unwrap();
    assert_eq!(got.setup, Some(SetupPhase::new(vec![Pkg::new("bun")])));
    assert_eq!(got.install.unwrap().cmd.as_deref(), Some("yarn install --frozen-lockfile"));
    assert_eq!(got.variables.get("NODE_ENV").map(|s| s.as_str()), Some("production"));
}

#[test]
fn planner_errors() {
    let options = GeneratePlanOptions::default();
    let run = |app: &App, entries: Vec<String>, text: Option<&str>| {
        generate_build_plan(app, StringMap::new(), &entries, &options, text)
    };
    let empty = tree(vec![]);
    assert_eq!(run(&empty, vec!["NOVALUE".to_string()], None), Err(Error::Parse));
    assert_eq!(run(&empty, vec!["=x".to_string()], None), Err(Error::Parse));
    assert_eq!(run(&empty, vec![], Some("{")), Err(Error::Parse));
    assert_eq!(run(&empty, vec![], Some("[]")), Err(Error::Plan));
    assert_eq!(run(&empty, vec![], Some(r#"{"setup":{"pkgs":[{}]}}"#)), Err(Error::Plan));
    assert_eq!(run(&empty, vec![], Some(r#"{"start":{"cmd":3}}"#)), Err(Error::Plan));
    assert_eq!(run(&empty, vec![], Some(r#"{"variables":{"A":1}}"#)), Err(Error::Plan));
    let broken = tree(vec![file("package.json", "{")]);
    assert_eq!(
        run(&broken, vec![], None),
        Err(Error::Provider { provider: ProviderId::Node, cause: Cause::Parse, subject: Subject::PackageJson })
    );
    let binary = tree(vec![SourceFile { path: "package.json".to_string(), contents: None }]);
    assert_eq!(
        run(&binary, vec![], None),
        Err(Error::Provider { provider: ProviderId::Node, cause: Cause::Io, subject: Subject::PackageJson })
    );
}

#[test]
fn command_line_variables_beat_the_provider() {
    let got = generate_build_plan(
        &yarn_canvas_repo(),
        StringMap::new(),
        &vec!["NODE_ENV=test".to_string(), "A=b=c".to_string(), "NODE_ENV=ci".to_string()],
        &GeneratePlanOptions::default(),
        None,
    )
    .unwrap();
    assert_eq!(got.variables.get("NODE_ENV").map(|s| s.as_str()), Some("ci"));
    assert_eq!(got.variables.get("A").map(|s| s.as_str()), Some("b=c"));
    assert_eq!(got.variables.get("NPM_CONFIG_PRODUCTION").map(|s| s.as_str()), Some("false"));
}

#[test]
fn process_environment_configures_but_is_not_injected() {
    let app = tree(vec![file("package.json", "{}")]);
    let mut base = StringMap::new();
    base.insert("NIXPACKS_NODE_VERSION".to_string(), "12".to_string());
    base.insert("HOME".to_string(), "/root".to_string());
    let got = generate_build_plan(
        &app,
        base.clone(),
        &vec![],
        &GeneratePlanOptions::default(),
        None,
    )
    .unwrap();
    assert_eq!(got.setup.unwrap().pkgs, vec![Pkg::new("nodejs-12_x")]);
    assert!(!got.variables.contains_key("HOME"));
    // an entry of the command line overrides the process environment
    let overridden = generate_build_plan(
        &app,
        base,
        &vec!["NIXPACKS_NODE_VERSION=18".to_string()],
        &GeneratePlanOptions::default(),
        None,
    )
    .unwrap();
    assert_eq!(overridden.setup.unwrap().pkgs, vec![Pkg::new("nodejs-18_x")]);
    assert_eq!(overridden.variables.get("NIXPACKS_NODE_VERSION").map(|s| s.as_str()), Some("18"));
}
