use nixpacks::app::{is_inside_root, App, SourceFile};
use nixpacks::error::Error;
use nixpacks::json::Json;

fn file(path: &str, contents: &str) -> SourceFile {
    SourceFile { path: path.to_string(), contents: Some(contents.to_string()) }
}

fn chars(s: &str) -> Vec<char> {
    s.chars().collect()
}

fn sample() -> App {
    App::new(
        "/src/app",
        vec![
            file("src/index.ts", "console.log(1)"),
            file("README.md", "# hi\nimport x from y\n"),
            file("index.js", "import a from \"b\";"),
            SourceFile { path: "logo.png".to_string(), contents: None },
            file("a/b/index.ts", "x"),
            file("Zed.ts", "import z from \"z\";\n"),
            file("package.json", "{\"name\": \"sample\"}"),
        ],
    )
    .unwrap()
}

#[test]
fn files_come_out_in_lexicographic_order() {
    let app = sample();
    assert_eq!(app.len(), 7);
    assert_eq!(app.root(), "/src/app");
    let paths = app.paths();
    let mut sorted = paths.clone();
    sorted.sort();
    assert_eq!(paths, sorted);
    assert_eq!(
        paths,
        vec!["README.md", "Zed.ts", "a/b/index.ts", "index.js", "logo.png", "package.json", "src/index.ts"]
    );
}

#[test]
fn any_order_of_the_input_gives_the_same_snapshot() {
    let names = ["b", "a", "d", "c", "a/x", "a.b", "\u{e9}", "z"];
    let forward: Vec<SourceFile> = names.iter().map(|n| file(n, n)).collect();
    let backward: Vec<SourceFile> = names.iter().rev().map(|n| file(n, n)).collect();
    let one = App::new("/", forward).unwrap();
    let two = App::new("/", backward).unwrap();
    assert_eq!(one.paths(), two.paths());
    assert_eq!(one.paths(), vec!["a", "a.b", "a/x", "b", "c", "d", "z", "\u{e9}"]);
    for n in names {
        assert_eq!(one.read_file(n), Ok(n.to_string()));
        assert_eq!(two.read_file(n), Ok(n.to_string()));
    }
}

#[test]
fn paths_must_stay_inside_the_root() {
    assert!(App::new("/r", vec![]).is_ok());
    for bad in ["", "/etc/passwd", "..", "../x", "a/../b", "a/.."] {
        assert_eq!(App::new("/r", vec![file(bad, "")]).err(), Some(Error::Path), "{:?}", bad);
        assert!(!is_inside_root(&chars(bad)));
    }
    for good in ["a", "a/b", "..a", "a..", "a/..b/c", ".../x", ".", "a//b"] {
        assert!(App::new("/r", vec![file(good, "")]).is_ok(), "{:?}", good);
        assert!(is_inside_root(&chars(good)));
    }
}

#[test]
fn a_path_may_not_occur_twice() {
    let twice = vec![file("a", "1"), file("b", "2"), file("a", "3")];
    assert_eq!(App::new("/r", twice).err(), Some(Error::Path));
}

#[test]
fn includes_file_is_exact() {
    let app = sample();
    assert!(app.includes_file("package.json"));
    assert!(app.includes_file("a/b/index.ts"));
    assert!(app.includes_file("logo.png"));
    assert!(!app.includes_file("a/b"));
    assert!(!app.includes_file("Package.json"));
    assert!(!app.includes_file("index.ts"));
    assert!(!app.includes_file(""));
}

#[test]
fn read_file_gives_text_or_an_io_error() {
    let app = sample();
    assert_eq!(app.read_file("src/index.ts"), Ok("console.log(1)".to_string()));
    assert_eq!(app.read_file("missing"), Err(Error::Io));
    assert_eq!(app.read_file("logo.png"), Err(Error::Io));
}

#[test]
fn read_json_gives_the_document() {
    let app = sample();
    let doc = app.read_json("package.json").unwrap();
    match doc.field("name") {
        Some(Json::Text(name)) => assert_eq!(name, "sample"),
        other => panic!("{:?}", other),
    }
    assert_eq!(app.read_json("README.md").err(), Some(Error::Parse));
    assert_eq!(app.read_json("missing.json").err(), Some(Error::Io));
    assert_eq!(app.read_json("logo.png").err(), Some(Error::Io));
}

#[test]
fn find_files_filters_in_order() {
    let app = sample();
    assert_eq!(app.find_files("**/index.[tj]s"), Ok(vec![
        "a/b/index.ts".to_string(),
        "index.js".to_string(),
        "src/index.ts".to_string()
    ]));
    assert_eq!(app.find_files("*.ts"), Ok(vec!["Zed.ts".to_string()]));
    assert_eq!(app.find_files("**/*.ts").unwrap().len(), 3);
    assert_eq!(app.find_files("*.rs"), Ok(vec![]));
    assert_eq!(app.find_files("**").unwrap().len(), 7);
    assert_eq!(app.find_files("[a-z"), Err(Error::Parse));
}

#[test]
fn find_match_searches_the_matching_text_files() {
    let app = sample();
    assert_eq!(app.find_match("(?m)^import .+ from", "**/*.ts"), Ok(true));
    assert_eq!(app.find_match("(?m)^import .+ from", "src/*.ts"), Ok(false));
    assert_eq!(app.find_match("(?m)^import x", "*.md"), Ok(true));
    assert_eq!(app.find_match("^import x", "*.md"), Ok(false));
    // a file that is not text matches nothing
    assert_eq!(app.find_match("", "*.png"), Ok(false));
    assert_eq!(app.find_match("", "*.json"), Ok(true));
    assert_eq!(app.find_match("(", "*.md"), Err(Error::Parse));
    assert_eq!(app.find_match("(", "*.none"), Err(Error::Parse));
    assert_eq!(app.find_match("x", "[*.md"), Err(Error::Parse));
}

#[test]
fn strip_source_path_cuts_the_root_off() {
    let app = sample();
    assert_eq!(app.strip_source_path("/src/app/a/b.ts"), Ok("a/b.ts".to_string()));
    assert_eq!(app.strip_source_path("/src/app/x"), Ok("x".to_string()));
    assert_eq!(app.strip_source_path("/src/app"), Err(Error::Path));
    assert_eq!(app.strip_source_path("/src/app/"), Err(Error::Path));
    assert_eq!(app.strip_source_path("/src/application/x"), Err(Error::Path));
    assert_eq!(app.strip_source_path("/src/app/../x"), Err(Error::Path));
    assert_eq!(app.strip_source_path("/src/app//x"), Err(Error::Path));
    assert_eq!(app.strip_source_path("a/b.ts"), Err(Error::Path));
    let at_slash = App::new("/", vec![]).unwrap();
    assert_eq!(at_slash.strip_source_path("/etc/x"), Ok("etc/x".to_string()));
    let trailing = App::new("/srv/", vec![]).unwrap();
    assert_eq!(trailing.strip_source_path("/srv/x"), Ok("x".to_string()));
    let nowhere = App::new("", vec![]).unwrap();
    assert_eq!(nowhere.strip_source_path("/x"), Ok("x".to_string()));
}
