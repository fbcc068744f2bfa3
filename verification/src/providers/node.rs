//! The provider for Node.js applications: a `package.json` at the root of the
//! source tree.

use crate::app::{App, AppView};
use crate::environment::{config_variable, Environment};
use crate::error::{Error, ProviderId, Subject};
use crate::json::{
    field_of, json_document, optional_text, optional_text_map, Json, JsonView,
};
use crate::pattern::{regex_captures, regex_compiles, Pattern};
use crate::phase::{
    command_only, setup_with, start_with, BuildPhase, CommandPhaseView, InstallPhase, SetupPhase,
    SetupPhaseView, StartPhase, StartPhaseView,
};
use crate::pkg::{plain_pkg, Pkg, PkgView};
use crate::providers::Provider;
use crate::string_map::StringMap;
use crate::text::{
    chars_of, contains_seq, decimal_u32, parse_u32, str_contains, str_eq,
};
use vstd::prelude::*;

verus! {

/// What a `package.json` stands for: the fields that planning reads.
pub struct PackageJsonView {
    pub name: Option<Seq<char>>,
    pub scripts: Option<Map<Seq<char>, Seq<char>>>,
    pub engines: Option<Map<Seq<char>, Seq<char>>>,
    pub main: Option<Seq<char>>,
}

/// The fields of a `package.json` that planning reads.
#[derive(Debug, Clone, PartialEq)]
pub struct PackageJson {
    pub name: Option<String>,
    pub scripts: Option<StringMap>,
    pub engines: Option<StringMap>,
    pub main: Option<String>,
}

/// What an optional map stands for.
pub open spec fn optional_map_view(map: Option<StringMap>) -> Option<Map<Seq<char>, Seq<char>>> {
    match map {
        Some(m) => Some(m@),
        None => None,
    }
}

impl View for PackageJson {
    type V = PackageJsonView;

    open spec fn view(&self) -> PackageJsonView {
        PackageJsonView {
            name: self.name.deep_view(),
            scripts: optional_map_view(self.scripts),
            engines: optional_map_view(self.engines),
            main: self.main.deep_view(),
        }
    }
}

/// The `package.json` without any field.
pub open spec fn empty_package_json() -> PackageJsonView {
    PackageJsonView { name: None, scripts: None, engines: None, main: None }
}

impl Default for PackageJson {
    fn default() -> (r: PackageJson)
        ensures
            r@ == empty_package_json(),
    {
        PackageJson { name: None, scripts: None, engines: None, main: None }
    }
}

/// The `package.json` that a JSON document holds: an object whose fields
/// `name` and `main`, where present and not null, are texts, and whose fields
/// `scripts` and `engines`, where present and not null, are objects of texts.
/// Other fields are ignored; anything else is a parse error. Where a field
/// occurs twice, be it one of these four or a name inside `scripts` or
/// `engines`, the later one counts and the earlier one is not looked at: a
/// repeated field is no error.
pub open spec fn package_json_of(doc: JsonView) -> Result<PackageJsonView, Error> {
    if !(doc is Object) {
        Err(Error::Parse)
    } else {
        match (
            optional_text(field_of(doc, "name"@)),
            optional_text_map(field_of(doc, "scripts"@)),
            optional_text_map(field_of(doc, "engines"@)),
            optional_text(field_of(doc, "main"@)),
        ) {
            (Ok(name), Ok(scripts), Ok(engines), Ok(main)) => Ok(
                PackageJsonView { name, scripts, engines, main },
            ),
            _ => Err(Error::Parse),
        }
    }
}

/// The `package.json` at the root of the tree: an I/O error where the file is
/// missing or not text, a parse error where it is not JSON of that shape.
pub open spec fn read_package_json(app: AppView) -> Result<PackageJsonView, Error> {
    match app.text("package.json"@) {
        None => Err(Error::Io),
        Some(text) => match json_document(text) {
            None => Err(Error::Parse),
            Some(doc) => package_json_of(doc),
        },
    }
}

impl PackageJson {
    /// Reads the fields of a `package.json` out of a JSON document.
    pub fn from_json(doc: &Json) -> (r: Result<PackageJson, Error>)
        ensures
            match package_json_of(doc.deep_view()) {
                Ok(package_json) => r is Ok && r->Ok_0@ == package_json,
                Err(e) => r == Err::<PackageJson, Error>(e),
            },
    {
        match doc {
            Json::Object(_) => {},
            _ => {
                return Err(Error::Parse);
            },
        }
        let name = match Json::to_optional_text(doc.field("name")) {
            Ok(name) => name,
            Err(_) => {
                return Err(Error::Parse);
            },
        };
        let scripts = match Json::to_optional_text_map(doc.field("scripts")) {
            Ok(scripts) => scripts,
            Err(_) => {
                return Err(Error::Parse);
            },
        };
        let engines = match Json::to_optional_text_map(doc.field("engines")) {
            Ok(engines) => engines,
            Err(_) => {
                return Err(Error::Parse);
            },
        };
        let main = match Json::to_optional_text(doc.field("main")) {
            Ok(main) => main,
            Err(_) => {
                return Err(Error::Parse);
            },
        };
        Ok(PackageJson { name, scripts, engines, main })
    }

    /// Reads the `package.json` at the root of `app`.
    pub fn read(app: &App) -> (r: Result<PackageJson, Error>)
        ensures
            match read_package_json(app@) {
                Ok(package_json) => r is Ok && r->Ok_0@ == package_json,
                Err(e) => r == Err::<PackageJson, Error>(e),
            },
    {
        match app.read_json("package.json") {
            Ok(doc) => PackageJson::from_json(&doc),
            Err(e) => Err(e),
        }
    }
}

/// The three package managers that a Node.js application can be set up with.
#[derive(Clone, Copy, Debug, PartialEq, Eq, Structural)]
pub enum PackageManager {
    Npm,
    Pnpm,
    Yarn,
}

impl PackageManager {
    /// The name of the package manager's command.
    pub open spec fn command(self) -> Seq<char> {
        match self {
            PackageManager::Npm => "npm"@,
            PackageManager::Pnpm => "pnpm"@,
            PackageManager::Yarn => "yarn"@,
        }
    }

    /// The name of the package manager's command.
    pub fn name(self) -> (r: &'static str)
        ensures
            r@ == self.command(),
    {
        match self {
            PackageManager::Npm => "npm",
            PackageManager::Pnpm => "pnpm",
            PackageManager::Yarn => "yarn",
        }
    }
}

/// The package manager of a tree: pnpm where `pnpm-lock.yaml` is there, else
/// yarn where `yarn.lock` is there, else npm.
pub open spec fn package_manager_of(app: AppView) -> PackageManager {
    if app.includes("pnpm-lock.yaml"@) {
        PackageManager::Pnpm
    } else if app.includes("yarn.lock"@) {
        PackageManager::Yarn
    } else {
        PackageManager::Npm
    }
}

/// The command that installs the dependencies of a tree.
pub open spec fn install_command_of(app: AppView) -> Seq<char> {
    match package_manager_of(app) {
        PackageManager::Pnpm => "pnpm i --frozen-lockfile"@,
        PackageManager::Yarn => if app.includes(".yarnrc.yml"@) {
            "yarn set version berry && yarn install --immutable --check-cache"@
        } else {
            "yarn install --frozen-lockfile"@
        },
        PackageManager::Npm => if app.includes("package-lock.json"@) {
            "npm ci"@
        } else {
            "npm i"@
        },
    }
}

/// Whether the `package.json` of a tree has a script called `script`.
pub open spec fn has_script_of(app: AppView, script: Seq<char>) -> Result<bool, Error> {
    match read_package_json(app) {
        Ok(package_json) => Ok(declares_script(package_json, script)),
        Err(e) => Err(e),
    }
}

/// Whether a `package.json` has a script called `script`.
pub open spec fn declares_script(package_json: PackageJsonView, script: Seq<char>) -> bool {
    package_json.scripts is Some && package_json.scripts->Some_0.contains_key(script)
}

/// The command that starts the application, with npm standing for the
/// package manager: `npm run start` where there is a start script, else `node` on the
/// `main` file where `package.json` names one that exists, else `node` on
/// `index.js` where that exists, else nothing.
pub open spec fn start_cmd_of(app: AppView) -> Result<Option<Seq<char>>, Error> {
    match read_package_json(app) {
        Err(e) => Err(e),
        Ok(package_json) => if declares_script(package_json, "start"@) {
            Ok(Some("npm run start"@))
        } else if package_json.main is Some && app.includes(package_json.main->Some_0) {
            Ok(Some("node "@ + package_json.main->Some_0))
        } else if app.includes("index.js"@) {
            Ok(Some("node index.js"@))
        } else {
            Ok(None)
        },
    }
}

/// The text of the file under `path`, or the empty text where it cannot be
/// read.
pub open spec fn text_or_empty(app: AppView, path: Seq<char>) -> Seq<char> {
    match app.text(path) {
        Some(text) => text,
        None => Seq::empty(),
    }
}

/// Whether a tree depends on `canvas`: its `package.json` holds `"canvas"`, or
/// one of its lock files holds `/canvas/`.
pub open spec fn uses_canvas_of(app: AppView) -> bool {
    ||| contains_seq(text_or_empty(app, "package.json"@), "\"canvas\""@)
    ||| contains_seq(text_or_empty(app, "package-lock.json"@), "/canvas/"@)
    ||| contains_seq(text_or_empty(app, "yarn.lock"@), "/canvas/"@)
    ||| contains_seq(text_or_empty(app, "pnpm-lock.yaml"@), "/canvas/"@)
}

/// The name of the package that holds the current release of Node.js.
pub open spec fn default_node_pkg() -> Seq<char> {
    "nodejs"@
}

/// The package for the major version `version` of Node.js: its own package
/// for 10, 12, 14, 16 and 18, the default package for any other.
pub open spec fn version_pkg_name(version: u32) -> Seq<char> {
    if version == 10 {
        "nodejs-10_x"@
    } else if version == 12 {
        "nodejs-12_x"@
    } else if version == 14 {
        "nodejs-14_x"@
    } else if version == 16 {
        "nodejs-16_x"@
    } else if version == 18 {
        "nodejs-18_x"@
    } else {
        default_node_pkg()
    }
}

/// Whether Node.js has a package of its own for the major version `version`.
pub open spec fn is_available(version: u32) -> bool {
    version == 10 || version == 12 || version == 14 || version == 16 || version == 18
}

/// A plain major version, with an optional `.` and an optional `x` or `X`.
pub open spec fn plain_version_pattern() -> Seq<char> {
    "^(\\d+)\\.?[xX]?$"@
}

/// A range that begins with `>=` and a major version.
pub open spec fn range_version_pattern() -> Seq<char> {
    "^>=(\\d+)"@
}

/// The major version that a search has captured in its first group: nothing
/// where there is no match, the group took no part, or its text is not a
/// number of 32 bits.
pub open spec fn captured_major(found: Option<Seq<Option<Seq<char>>>>) -> Option<u32> {
    match found {
        Some(groups) => if groups.len() > 1 && groups[1] is Some {
            decimal_u32(groups[1]->Some_0)
        } else {
            None
        },
        None => None,
    }
}

/// The version of Node.js that is asked for: `engines.node` of the
/// `package.json`, else the configuration variable `NODE_VERSION`.
pub open spec fn requested_version(
    package_json: PackageJsonView,
    env: Map<Seq<char>, Seq<char>>,
) -> Option<Seq<char>> {
    if package_json.engines is Some && package_json.engines->Some_0.contains_key("node"@) {
        Some(package_json.engines->Some_0["node"@])
    } else {
        config_variable(env, "NODE_VERSION"@)
    }
}

/// The major version that `version` asks for under `pattern`; a parse error
/// where the pattern does not compile.
pub open spec fn major_under(pattern: Seq<char>, version: Seq<char>) -> Result<Option<u32>, Error> {
    if regex_compiles(pattern) {
        Ok(captured_major(regex_captures(pattern, version)))
    } else {
        Err(Error::Parse)
    }
}

/// The major version of Node.js that is asked for: nothing where no version
/// is asked for, where any version will do (`*`), and where the version is
/// neither a plain major version nor a range that begins with one.
pub open spec fn requested_major(version: Option<Seq<char>>) -> Result<Option<u32>, Error> {
    match version {
        None => Ok(None),
        Some(v) => if v == "*"@ {
            Ok(None)
        } else {
            match major_under(plain_version_pattern(), v) {
                Err(e) => Err(e),
                Ok(Some(major)) => Ok(Some(major)),
                Ok(None) => major_under(range_version_pattern(), v),
            }
        },
    }
}

/// The name of the package of Node.js for what is asked for.
pub open spec fn node_pkg_name(
    package_json: PackageJsonView,
    env: Map<Seq<char>, Seq<char>>,
) -> Result<Seq<char>, Error> {
    match requested_major(requested_version(package_json, env)) {
        Err(e) => Err(e),
        Ok(Some(major)) => Ok(version_pkg_name(major)),
        Ok(None) => Ok(default_node_pkg()),
    }
}

/// The package `name` for a package manager, with the package of Node.js as
/// its `nodejs` override unless that is the default one.
pub open spec fn manager_pkg(name: Seq<char>, node: Seq<char>) -> PkgView {
    if node != default_node_pkg() {
        plain_pkg(name).with_override("nodejs"@, node)
    } else {
        plain_pkg(name)
    }
}

/// The packages for the package manager `manager`: none for npm, which comes
/// with Node.js.
pub open spec fn manager_pkgs(manager: PackageManager, node: Seq<char>) -> Seq<PkgView> {
    match manager {
        PackageManager::Pnpm => seq![manager_pkg("nodePackages.pnpm"@, node)],
        PackageManager::Yarn => seq![manager_pkg("yarn"@, node)],
        PackageManager::Npm => seq![],
    }
}

/// The packages that a tree needs: the package of Node.js, then that of the
/// package manager.
pub open spec fn nix_packages_of(app: AppView, env: Map<Seq<char>, Seq<char>>) -> Result<
    Seq<PkgView>,
    Error,
> {
    match read_package_json(app) {
        Err(e) => Err(e),
        Ok(package_json) => match node_pkg_name(package_json, env) {
            Err(e) => Err(e),
            Ok(node) => Ok(seq![plain_pkg(node)] + manager_pkgs(package_manager_of(app), node)),
        },
    }
}

/// The variables that a Node.js application is built and run with.
pub open spec fn node_variables() -> Map<Seq<char>, Seq<char>> {
    Map::<Seq<char>, Seq<char>>::empty().insert("NODE_ENV"@, "production"@).insert(
        "NPM_CONFIG_PRODUCTION"@,
        "false"@,
    )
}

/// The package for the major version `version` of Node.js.
pub fn version_number_to_pkg(version: u32) -> (r: String)
    ensures
        r@ == version_pkg_name(version),
{
    if version == 10 {
        "nodejs-10_x".to_owned()
    } else if version == 12 {
        "nodejs-12_x".to_owned()
    } else if version == 14 {
        "nodejs-14_x".to_owned()
    } else if version == 16 {
        "nodejs-16_x".to_owned()
    } else if version == 18 {
        "nodejs-18_x".to_owned()
    } else {
        "nodejs".to_owned()
    }
}

/// The major version that a search has captured in its first group.
pub fn major_from_captures(found: &Option<Vec<Option<String>>>) -> (r: Option<u32>)
    ensures
        r == captured_major(found.deep_view()),
{
    match found {
        Some(groups) => {
            if groups.len() > 1 {
                match &groups[1] {
                    Some(digits) => {
                        proof {
                            assert(found.deep_view()->Some_0[1] == Some(digits@));
                        }
                        let chars = chars_of(digits.as_str());
                        parse_u32(&chars)
                    },
                    None => {
                        proof {
                            assert(found.deep_view()->Some_0[1] is None);
                        }
                        None
                    },
                }
            } else {
                None
            }
        },
        None => None,
    }
}

/// The package of Node.js for the major version that `re` captures in
/// `node_version` as its first group, if it captures one.
pub fn parse_regex_into_pkg(re: &Pattern, node_version: &str) -> (r: Option<String>)
    ensures
        r.deep_view() == match captured_major(regex_captures(re@, node_version@)) {
            Some(major) => Some(version_pkg_name(major)),
            None => None,
        },
{
    let found = re.captures(node_version);
    match major_from_captures(&found) {
        Some(major) => Some(version_number_to_pkg(major)),
        None => None,
    }
}

/// The provider for Node.js applications.
#[derive(Debug, Clone, Copy, PartialEq, Eq, Structural)]
pub struct NodeProvider {}

impl NodeProvider {
    /// The variables that a Node.js application is built and run with.
    pub fn get_node_environment_variables() -> (r: StringMap)
        ensures
            r@ == node_variables(),
    {
        let mut variables = StringMap::new();
        variables.insert("NODE_ENV".to_owned(), "production".to_owned());
        variables.insert("NPM_CONFIG_PRODUCTION".to_owned(), "false".to_owned());
        variables
    }

    /// Whether the `package.json` of `app` has a script called `script`.
    pub fn has_script(app: &App, script: &str) -> (r: Result<bool, Error>)
        ensures
            r == has_script_of(app@, script@),
    {
        match PackageJson::read(app) {
            Ok(package_json) => match &package_json.scripts {
                Some(scripts) => Ok(scripts.contains_key(script)),
                None => Ok(false),
            },
            Err(e) => Err(e),
        }
    }

    /// The command that starts the application, with npm standing for the
    /// package manager.
    pub fn get_start_cmd(app: &App) -> (r: Result<Option<String>, Error>)
        ensures
            match start_cmd_of(app@) {
                Ok(cmd) => r is Ok && r->Ok_0.deep_view() == cmd,
                Err(e) => r == Err::<Option<String>, Error>(e),
            },
    {
        let package_json = match PackageJson::read(app) {
            Ok(package_json) => package_json,
            Err(e) => {
                return Err(e);
            },
        };
        let has_start = match &package_json.scripts {
            Some(scripts) => scripts.contains_key("start"),
            None => false,
        };
        if has_start {
            return Ok(Some("npm run start".to_owned()));
        }
        match &package_json.main {
            Some(main) => {
                if app.includes_file(main.as_str()) {
                    let mut cmd = "node ".to_owned();
                    cmd.append(main.as_str());
                    return Ok(Some(cmd));
                }
            },
            None => {},
        }
        if app.includes_file("index.js") {
            return Ok(Some("node index.js".to_owned()));
        }
        Ok(None)
    }

    /// The major version of Node.js that is asked for, if one is.
    pub fn get_requested_major(package_json: &PackageJson, environment: &Environment) -> (r:
        Result<Option<u32>, Error>)
        ensures
            r == requested_major(requested_version(package_json@, environment@)),
    {
        let from_engines = match &package_json.engines {
            Some(engines) => engines.get("node"),
            None => None,
        };
        let version = match from_engines {
            Some(version) => version,
            None => match environment.get_config_variable("NODE_VERSION") {
                Some(version) => version,
                None => {
                    return Ok(None);
                },
            },
        };
        if str_eq(version.as_str(), "*") {
            return Ok(None);
        }
        let plain = match Pattern::new("^(\\d+)\\.?[xX]?$") {
            Ok(plain) => plain,
            Err(e) => {
                return Err(e);
            },
        };
        match major_from_captures(&plain.captures(version.as_str())) {
            Some(major) => {
                return Ok(Some(major));
            },
            None => {},
        }
        let range = match Pattern::new("^>=(\\d+)") {
            Ok(range) => range,
            Err(e) => {
                return Err(e);
            },
        };
        Ok(major_from_captures(&range.captures(version.as_str())))
    }

    /// The major version of Node.js that is asked for but has no package of
    /// its own, so that the default package stands in for it.
    pub fn get_unmatched_major(package_json: &PackageJson, environment: &Environment) -> (r:
        Result<Option<u32>, Error>)
        ensures
            r == match requested_major(requested_version(package_json@, environment@)) {
                Ok(Some(major)) => if is_available(major) {
                    Ok::<Option<u32>, Error>(None)
                } else {
                    Ok::<Option<u32>, Error>(Some(major))
                },
                Ok(None) => Ok::<Option<u32>, Error>(None),
                Err(e) => Err::<Option<u32>, Error>(e),
            },
    {
        match NodeProvider::get_requested_major(package_json, environment) {
            Ok(Some(major)) => {
                if major == 10 || major == 12 || major == 14 || major == 16 || major == 18 {
                    Ok(None)
                } else {
                    Ok(Some(major))
                }
            },
            Ok(None) => Ok(None),
            Err(e) => Err(e),
        }
    }

    /// The package of Node.js for what `package.json` and the environment ask
    /// for.
    pub fn get_nix_node_pkg(package_json: &PackageJson, environment: &Environment) -> (r: Result<
        Pkg,
        Error,
    >)
        ensures
            match node_pkg_name(package_json@, environment@) {
                Ok(name) => r is Ok && r->Ok_0@ == plain_pkg(name),
                Err(e) => r == Err::<Pkg, Error>(e),
            },
    {
        match NodeProvider::get_requested_major(package_json, environment) {
            Ok(Some(major)) => Ok(Pkg::new(version_number_to_pkg(major).as_str())),
            Ok(None) => Ok(Pkg::new("nodejs")),
            Err(e) => Err(e),
        }
    }

    /// The package manager of `app`.
    pub fn package_manager(app: &App) -> (r: PackageManager)
        ensures
            r == package_manager_of(app@),
    {
        if app.includes_file("pnpm-lock.yaml") {
            PackageManager::Pnpm
        } else if app.includes_file("yarn.lock") {
            PackageManager::Yarn
        } else {
            PackageManager::Npm
        }
    }

    /// The name of the package manager of `app`.
    pub fn get_package_manager(app: &App) -> (r: String)
        ensures
            r@ == package_manager_of(app@).command(),
    {
        NodeProvider::package_manager(app).name().to_owned()
    }

    /// The command that installs the dependencies of `app`.
    pub fn get_install_command(app: &App) -> (r: String)
        ensures
            r@ == install_command_of(app@),
    {
        match NodeProvider::package_manager(app) {
            PackageManager::Pnpm => "pnpm i --frozen-lockfile".to_owned(),
            PackageManager::Yarn => {
                if app.includes_file(".yarnrc.yml") {
                    "yarn set version berry && yarn install --immutable --check-cache".to_owned()
                } else {
                    "yarn install --frozen-lockfile".to_owned()
                }
            },
            PackageManager::Npm => {
                if app.includes_file("package-lock.json") {
                    "npm ci".to_owned()
                } else {
                    "npm i".to_owned()
                }
            },
        }
    }

    /// The package `name` for a package manager, with `node` as its `nodejs`
    /// override unless `node` is the default package.
    fn manager_package(name: &str, node: &Pkg) -> (r: Pkg)
        ensures
            r@ == manager_pkg(name@, node@.name),
    {
        let pkg = Pkg::new(name);
        if !str_eq(node.name.as_str(), "nodejs") {
            pkg.set_override("nodejs", node.name.as_str())
        } else {
            pkg
        }
    }

    /// The packages that `app` needs: the package of Node.js, then that of the
    /// package manager.
    pub fn get_nix_packages(app: &App, env: &Environment) -> (r: Result<Vec<Pkg>, Error>)
        ensures
            match nix_packages_of(app@, env@) {
                Ok(pkgs) => r is Ok && r->Ok_0.deep_view() == pkgs,
                Err(e) => r == Err::<Vec<Pkg>, Error>(e),
            },
    {
        let package_json = match PackageJson::read(app) {
            Ok(package_json) => package_json,
            Err(e) => {
                return Err(e);
            },
        };
        let node_pkg = match NodeProvider::get_nix_node_pkg(&package_json, env) {
            Ok(pkg) => pkg,
            Err(e) => {
                return Err(e);
            },
        };
        let ghost node = node_pkg@.name;
        let manager = NodeProvider::package_manager(app);
        let mut pkgs: Vec<Pkg> = Vec::new();
        match manager {
            PackageManager::Pnpm => {
                let extra = NodeProvider::manager_package("nodePackages.pnpm", &node_pkg);
                pkgs.push(node_pkg);
                pkgs.push(extra);
            },
            PackageManager::Yarn => {
                let extra = NodeProvider::manager_package("yarn", &node_pkg);
                pkgs.push(node_pkg);
                pkgs.push(extra);
            },
            PackageManager::Npm => {
                pkgs.push(node_pkg);
            },
        }
        proof {
            assert(pkgs.deep_view() =~= seq![plain_pkg(node)] + manager_pkgs(manager, node));
        }
        Ok(pkgs)
    }

    /// The text of the file under `path`, or the empty text where it cannot be
    /// read.
    fn read_or_empty(app: &App, path: &str) -> (r: String)
        ensures
            r@ == text_or_empty(app@, path@),
    {
        match app.read_file(path) {
            Ok(text) => text,
            Err(_) => String::new(),
        }
    }

    /// Whether `app` depends on `canvas`.
    pub fn uses_canvas(app: &App) -> (r: bool)
        ensures
            r == uses_canvas_of(app@),
    {
        let package_json = NodeProvider::read_or_empty(app, "package.json");
        let lock_json = NodeProvider::read_or_empty(app, "package-lock.json");
        let yarn_lock = NodeProvider::read_or_empty(app, "yarn.lock");
        let pnpm_yaml = NodeProvider::read_or_empty(app, "pnpm-lock.yaml");
        str_contains(package_json.as_str(), "\"canvas\"") || str_contains(
            lock_json.as_str(),
            "/canvas/",
        ) || str_contains(yarn_lock.as_str(), "/canvas/") || str_contains(
            pnpm_yaml.as_str(),
            "/canvas/",
        )
    }
}

/// Whether a tree is a Node.js application: it has a `package.json`.
pub open spec fn node_detects(app: AppView) -> Result<bool, Error> {
    Ok(app.includes("package.json"@))
}

/// The libraries that `canvas` needs.
pub open spec fn canvas_libraries() -> Seq<Seq<char>> {
    seq!["libuuid"@, "libGL"@]
}

/// The setup phase of a Node.js application: its packages and, where it
/// depends on `canvas`, the libraries for that. An error names
/// `package.json` where that could not be read, and else the pattern for
/// versions.
pub open spec fn node_setup(app: AppView, env: Map<Seq<char>, Seq<char>>) -> Result<
    Option<SetupPhaseView>,
    Error,
> {
    match nix_packages_of(app, env) {
        Ok(pkgs) => Ok(
            Some(
                SetupPhaseView {
                    libraries: if uses_canvas_of(app) {
                        canvas_libraries()
                    } else {
                        seq![]
                    },
                    ..setup_with(pkgs)
                },
            ),
        ),
        Err(e) => Err(
            e.within(
                ProviderId::Node,
                if read_package_json(app) is Err {
                    Subject::PackageJson
                } else {
                    Subject::Pattern
                },
            ),
        ),
    }
}

/// The install phase of a Node.js application.
pub open spec fn node_install(app: AppView) -> Result<Option<CommandPhaseView>, Error> {
    Ok(Some(command_only(install_command_of(app))))
}

/// The build phase of a Node.js application: the package manager running the
/// build script, where there is one.
pub open spec fn node_build(app: AppView) -> Result<Option<CommandPhaseView>, Error> {
    match has_script_of(app, "build"@) {
        Ok(true) => Ok(Some(command_only(package_manager_of(app).command() + " run build"@))),
        Ok(false) => Ok(None),
        Err(e) => Err(e.within(ProviderId::Node, Subject::PackageJson)),
    }
}

/// The start phase of a Node.js application: where there is a start script,
/// the package manager running it; else `node` on the `main` file or on
/// `index.js`, as the start command names it and with nothing replaced in it.
pub open spec fn node_start(app: AppView) -> Result<Option<StartPhaseView>, Error> {
    match (has_script_of(app, "start"@), start_cmd_of(app)) {
        (Ok(true), _) => Ok(
            Some(start_with(package_manager_of(app).command() + " run start"@)),
        ),
        (Ok(false), Ok(Some(cmd))) => Ok(Some(start_with(cmd))),
        (Ok(false), Ok(None)) => Ok(None),
        (Err(e), _) => Err(e.within(ProviderId::Node, Subject::PackageJson)),
        (_, Err(e)) => Err(e.within(ProviderId::Node, Subject::PackageJson)),
    }
}

impl Provider for NodeProvider {
    open spec fn id(&self) -> ProviderId {
        ProviderId::Node
    }

    fn identity(&self) -> (r: ProviderId) {
        ProviderId::Node
    }

    fn name(&self) -> (r: &'static str) {
        "node"
    }

    fn detect(&self, app: &App, env: &Environment) -> (r: Result<bool, Error>) {
        Ok(app.includes_file("package.json"))
    }

    fn setup(&self, app: &App, env: &Environment) -> (r: Result<Option<SetupPhase>, Error>) {
        match PackageJson::read(app) {
            Ok(_) => {},
            Err(e) => {
                return Err(e.attribute_to(ProviderId::Node, Subject::PackageJson));
            },
        }
        let packages = match NodeProvider::get_nix_packages(app, env) {
            Ok(packages) => packages,
            Err(e) => {
                return Err(e.attribute_to(ProviderId::Node, Subject::Pattern));
            },
        };
        let mut setup_phase = SetupPhase::new(packages);
        if NodeProvider::uses_canvas(app) {
            let mut libraries: Vec<String> = Vec::new();
            libraries.push("libuuid".to_owned());
            libraries.push("libGL".to_owned());
            proof {
                assert(libraries.deep_view() =~= canvas_libraries());
            }
            setup_phase.add_libraries(libraries);
            proof {
                assert(setup_phase@.libraries =~= canvas_libraries());
            }
        }
        Ok(Some(setup_phase))
    }

    fn install(&self, app: &App, env: &Environment) -> (r: Result<Option<InstallPhase>, Error>) {
        let install_cmd = NodeProvider::get_install_command(app);
        Ok(Some(InstallPhase::new(install_cmd)))
    }

    fn build(&self, app: &App, env: &Environment) -> (r: Result<Option<BuildPhase>, Error>) {
        match NodeProvider::has_script(app, "build") {
            Ok(true) => {
                let mut cmd = NodeProvider::get_package_manager(app);
                cmd.append(" run build");
                Ok(Some(BuildPhase::new(cmd)))
            },
            Ok(false) => Ok(None),
            Err(e) => Err(e.attribute_to(ProviderId::Node, Subject::PackageJson)),
        }
    }

    fn start(&self, app: &App, env: &Environment) -> (r: Result<Option<StartPhase>, Error>) {
        match NodeProvider::has_script(app, "start") {
            Ok(true) => {
                let mut cmd = NodeProvider::get_package_manager(app);
                cmd.append(" run start");
                Ok(Some(StartPhase::new(cmd)))
            },
            Ok(false) => match NodeProvider::get_start_cmd(app) {
                Ok(Some(start_cmd)) => Ok(Some(StartPhase::new(start_cmd))),
                Ok(None) => Ok(None),
                Err(e) => Err(e.attribute_to(ProviderId::Node, Subject::PackageJson)),
            },
            Err(e) => Err(e.attribute_to(ProviderId::Node, Subject::PackageJson)),
        }
    }

    fn environment_variables(&self, app: &App, env: &Environment) -> (r: Result<
        Option<StringMap>,
        Error,
    >) {
        Ok(Some(NodeProvider::get_node_environment_variables()))
    }
}

/// Where `package.json` asks for no version of Node.js and the environment
/// sets no `NIXPACKS_NODE_VERSION`, the package of Node.js is the default one:
/// the packages are that package and, for pnpm and yarn, the package
/// manager's without an override. With npm they are that package alone.
pub proof fn default_node_without_request(app: AppView, env: Map<Seq<char>, Seq<char>>)
    requires
        read_package_json(app) is Ok,
        !(read_package_json(app)->Ok_0.engines is Some && read_package_json(
            app,
        )->Ok_0.engines->Some_0.contains_key("node"@)),
        !env.contains_key("NIXPACKS_NODE_VERSION"@),
    ensures
        node_pkg_name(read_package_json(app)->Ok_0, env) == Ok::<Seq<char>, Error>(
            default_node_pkg(),
        ),
        nix_packages_of(app, env) is Ok,
        nix_packages_of(app, env)->Ok_0.len() >= 1,
        nix_packages_of(app, env)->Ok_0[0] == plain_pkg(default_node_pkg()),
        forall|i: int|
            0 <= i < nix_packages_of(app, env)->Ok_0.len() ==> (#[trigger] nix_packages_of(
                app,
                env,
            )->Ok_0[i]).overrides == Map::<Seq<char>, Seq<char>>::empty(),
        package_manager_of(app) == PackageManager::Npm ==> nix_packages_of(app, env)->Ok_0
            == seq![plain_pkg(default_node_pkg())],
{
    reveal_strlit("NIXPACKS_");
    reveal_strlit("NODE_VERSION");
    reveal_strlit("NIXPACKS_NODE_VERSION");
    assert("NIXPACKS_"@ + "NODE_VERSION"@ =~= "NIXPACKS_NODE_VERSION"@);
    let node = default_node_pkg();
    let pkgs = seq![plain_pkg(node)] + manager_pkgs(package_manager_of(app), node);
    assert(nix_packages_of(app, env) == Ok::<Seq<PkgView>, Error>(pkgs));
    assert(pkgs[0] == plain_pkg(node));
    if package_manager_of(app) == PackageManager::Npm {
        assert(pkgs =~= seq![plain_pkg(node)]);
    }
}

} // verus!
