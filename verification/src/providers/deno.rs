//! The provider for Deno applications: a `deno.json` or `deno.jsonc` at the
//! root of the source tree, or a TypeScript file that imports from
//! `https://deno.land/`.

use crate::app::{App, AppView};
use crate::environment::Environment;
use crate::error::{Error, ProviderId, Subject};
use crate::glob::{glob_valid, is_class_end, lemma_class_end_unique, valid_from};
use crate::pattern::regex_compiles;
use crate::phase::{
    command_only, setup_with, start_with, BuildPhase, CommandPhaseView, InstallPhase, SetupPhase,
    SetupPhaseView, StartPhase, StartPhaseView,
};
use crate::pkg::{plain_pkg, Pkg};
use crate::providers::Provider;
use crate::string_map::StringMap;
use vstd::prelude::*;

verus! {

/// A line that imports a TypeScript module from `https://deno.land/`.
pub open spec fn deno_import_pattern() -> Seq<char> {
    "(?m)^import .+ from \"https://deno.land/[^\"]+\\.ts\";?$"@
}

/// Every TypeScript file of the tree.
pub open spec fn typescript_glob() -> Seq<char> {
    "**/*.ts"@
}

/// Every `index.ts` and `index.js` of the tree.
pub open spec fn index_glob() -> Seq<char> {
    "**/index.[tj]s"@
}

/// Both globs of this provider are valid.
pub proof fn lemma_globs_are_valid()
    ensures
        glob_valid(typescript_glob()),
        glob_valid(index_glob()),
{
    reveal_strlit("**/*.ts");
    reveal_strlit("**/index.[tj]s");
    reveal_with_fuel(valid_from, 16);
    assert(is_class_end(index_glob(), 9, 12));
    lemma_class_end_unique(index_glob(), 9, 12);
}

/// The file to run: the first `index.ts` or `index.js` of the tree in
/// lexicographic order of the paths.
pub open spec fn start_file_of(app: AppView) -> Option<Seq<char>> {
    if app.matching(index_glob()).len() > 0 {
        Some(app.matching(index_glob())[0])
    } else {
        None
    }
}

/// Whether a tree is a Deno application; a parse error of the provider where
/// the pattern for imports does not compile.
pub open spec fn deno_detects(app: AppView) -> Result<bool, Error> {
    if app.includes("deno.json"@) || app.includes("deno.jsonc"@) {
        Ok(true)
    } else if regex_compiles(deno_import_pattern()) {
        Ok(app.any_match(deno_import_pattern(), typescript_glob()))
    } else {
        Err(Error::Parse.within(ProviderId::Deno, Subject::Pattern))
    }
}

/// The setup phase of a Deno application: the package `deno`.
pub open spec fn deno_setup() -> Result<Option<SetupPhaseView>, Error> {
    Ok(Some(setup_with(seq![plain_pkg("deno"@)])))
}

/// The build phase of a Deno application: caching the file to run.
pub open spec fn deno_build(app: AppView) -> Result<Option<CommandPhaseView>, Error> {
    match start_file_of(app) {
        Some(file) => Ok(Some(command_only("deno cache "@ + file))),
        None => Ok(None),
    }
}

/// The start phase of a Deno application: running the file to run.
pub open spec fn deno_start(app: AppView) -> Result<Option<StartPhaseView>, Error> {
    match start_file_of(app) {
        Some(file) => Ok(Some(start_with("deno run --allow-all "@ + file))),
        None => Ok(None),
    }
}

/// The provider for Deno applications.
#[derive(Debug, Clone, Copy, PartialEq, Eq, Structural)]
pub struct DenoProvider {}

impl DenoProvider {
    /// The file to run: the first `index.ts` or `index.js` of `app`.
    pub fn get_start_file(app: &App) -> (r: Result<Option<String>, Error>)
        ensures
            r is Ok,
            r->Ok_0.deep_view() == start_file_of(app@),
    {
        proof {
            lemma_globs_are_valid();
        }
        let mut matches = match app.find_files("**/index.[tj]s") {
            Ok(matches) => matches,
            Err(e) => {
                return Err(e);
            },
        };
        if matches.len() == 0 {
            return Ok(None);
        }
        let ghost found = matches.deep_view();
        let first = matches.swap_remove(0);
        proof {
            assert(first@ == found[0]);
        }
        Ok(Some(first))
    }
}

impl Provider for DenoProvider {
    open spec fn id(&self) -> ProviderId {
        ProviderId::Deno
    }

    fn identity(&self) -> (r: ProviderId) {
        ProviderId::Deno
    }

    fn name(&self) -> (r: &'static str) {
        "deno"
    }

    fn detect(&self, app: &App, env: &Environment) -> (r: Result<bool, Error>) {
        if app.includes_file("deno.json") || app.includes_file("deno.jsonc") {
            return Ok(true);
        }
        proof {
            lemma_globs_are_valid();
        }
        match app.find_match(
            "(?m)^import .+ from \"https://deno.land/[^\"]+\\.ts\";?$",
            "**/*.ts",
        ) {
            Ok(found) => Ok(found),
            Err(e) => Err(e.attribute_to(ProviderId::Deno, Subject::Pattern)),
        }
    }

    fn setup(&self, app: &App, env: &Environment) -> (r: Result<Option<SetupPhase>, Error>) {
        let mut pkgs: Vec<Pkg> = Vec::new();
        pkgs.push(Pkg::new("deno"));
        proof {
            assert(pkgs.deep_view() =~= seq![plain_pkg("deno"@)]);
        }
        Ok(Some(SetupPhase::new(pkgs)))
    }

    fn install(&self, app: &App, env: &Environment) -> (r: Result<Option<InstallPhase>, Error>) {
        Ok(None)
    }

    fn build(&self, app: &App, env: &Environment) -> (r: Result<Option<BuildPhase>, Error>) {
        match DenoProvider::get_start_file(app) {
            Ok(Some(file)) => {
                let mut cmd = "deno cache ".to_owned();
                cmd.append(file.as_str());
                Ok(Some(BuildPhase::new(cmd)))
            },
            Ok(None) => Ok(None),
            Err(e) => Err(e.attribute_to(ProviderId::Deno, Subject::Pattern)),
        }
    }

    fn start(&self, app: &App, env: &Environment) -> (r: Result<Option<StartPhase>, Error>) {
        match DenoProvider::get_start_file(app) {
            Ok(Some(file)) => {
                let mut cmd = "deno run --allow-all ".to_owned();
                cmd.append(file.as_str());
                Ok(Some(StartPhase::new(cmd)))
            },
            Ok(None) => Ok(None),
            Err(e) => Err(e.attribute_to(ProviderId::Deno, Subject::Pattern)),
        }
    }

    fn environment_variables(&self, app: &App, env: &Environment) -> (r: Result<
        Option<StringMap>,
        Error,
    >) {
        Ok(None)
    }
}

} // verus!
