//! The planner: it asks the providers in order, takes the plan of the first
//! one that recognises the tree, and lays over it, in this order, the
//! packages and libraries of the options, the plan file, the commands of the
//! options, and the variables given on the command line.
//!
//! A plan file replaces whole phases: each phase that it holds takes the
//! place of the phase planned so far, and a phase that it lacks leaves that
//! one alone. Its variables, where it holds any, replace those planned so far.

use crate::app::{App, AppView};
use crate::environment::{apply_entries, with_entries, Environment};
use crate::error::{Error, ProviderId};
use crate::json::{json_document, Json};
use crate::phase::{
    command_only, setup_with, start_with, BuildPhase, CommandPhaseView, InstallPhase, SetupPhase,
    SetupPhaseView, StartPhase, StartPhaseView,
};
use crate::pkg::{Pkg, PkgView};
use crate::plan::{build_plan_of, empty_plan, BuildPlan, BuildPlanView};
use crate::providers::deno::DenoProvider;
use crate::providers::node::NodeProvider;
use crate::providers::{
    build_of, detects, get_providers, install_of, registry, setup_of, start_of, variables_of,
    Provider,
};
use crate::string_map::StringMap;
use vstd::prelude::*;

verus! {

/// What the options of a planning run stand for.
pub struct OptionsView {
    pub custom_install_cmd: Option<Seq<Seq<char>>>,
    pub custom_build_cmd: Option<Seq<Seq<char>>>,
    pub custom_start_cmd: Option<Seq<char>>,
    pub custom_pkgs: Seq<PkgView>,
    pub custom_libs: Seq<Seq<char>>,
    pub custom_apt_pkgs: Seq<Seq<char>>,
    pub pin_pkgs: bool,
    pub plan_path: Option<Seq<char>>,
}

/// What the caller asks of a planning run. `plan_path` names the plan file;
/// the caller reads that file and hands its text to the planner.
#[derive(Debug, Clone, PartialEq)]
pub struct GeneratePlanOptions {
    pub custom_install_cmd: Option<Vec<String>>,
    pub custom_build_cmd: Option<Vec<String>>,
    pub custom_start_cmd: Option<String>,
    pub custom_pkgs: Vec<Pkg>,
    pub custom_libs: Vec<String>,
    pub custom_apt_pkgs: Vec<String>,
    pub pin_pkgs: bool,
    pub plan_path: Option<String>,
}

impl View for GeneratePlanOptions {
    type V = OptionsView;

    open spec fn view(&self) -> OptionsView {
        OptionsView {
            custom_install_cmd: self.custom_install_cmd.deep_view(),
            custom_build_cmd: self.custom_build_cmd.deep_view(),
            custom_start_cmd: self.custom_start_cmd.deep_view(),
            custom_pkgs: self.custom_pkgs.deep_view(),
            custom_libs: self.custom_libs.deep_view(),
            custom_apt_pkgs: self.custom_apt_pkgs.deep_view(),
            pin_pkgs: self.pin_pkgs,
            plan_path: self.plan_path.deep_view(),
        }
    }
}

/// The options that ask for nothing.
pub open spec fn no_options() -> OptionsView {
    OptionsView {
        custom_install_cmd: None,
        custom_build_cmd: None,
        custom_start_cmd: None,
        custom_pkgs: seq![],
        custom_libs: seq![],
        custom_apt_pkgs: seq![],
        pin_pkgs: false,
        plan_path: None,
    }
}

impl Default for GeneratePlanOptions {
    fn default() -> (r: GeneratePlanOptions)
        ensures
            r@ == no_options(),
    {
        let r = GeneratePlanOptions {
            custom_install_cmd: None,
            custom_build_cmd: None,
            custom_start_cmd: None,
            custom_pkgs: Vec::new(),
            custom_libs: Vec::new(),
            custom_apt_pkgs: Vec::new(),
            pin_pkgs: false,
            plan_path: None,
        };
        proof {
            assert(r.custom_pkgs.deep_view() =~= seq![]);
            assert(r.custom_libs.deep_view() =~= seq![]);
            assert(r.custom_apt_pkgs.deep_view() =~= seq![]);
        }
        r
    }
}

/// The first of `providers` that recognises the tree, if any does; the error
/// of the first provider that fails before one recognises it.
pub open spec fn selected(
    providers: Seq<ProviderId>,
    app: AppView,
    env: Map<Seq<char>, Seq<char>>,
) -> Result<Option<ProviderId>, Error>
    decreases providers.len(),
{
    if providers.len() == 0 {
        Ok(None)
    } else {
        match detects(providers[0], app, env) {
            Err(e) => Err(e),
            Ok(true) => Ok(Some(providers[0])),
            Ok(false) => selected(providers.skip(1), app, env),
        }
    }
}

/// The plan that the chosen provider gives a tree; the empty plan where none
/// is chosen.
pub open spec fn provider_plan(
    choice: Option<ProviderId>,
    app: AppView,
    env: Map<Seq<char>, Seq<char>>,
) -> Result<BuildPlanView, Error> {
    match choice {
        None => Ok(empty_plan()),
        Some(id) => match (
            setup_of(id, app, env),
            install_of(id, app, env),
            build_of(id, app, env),
            start_of(id, app, env),
            variables_of(id, app, env),
        ) {
            (Ok(setup), Ok(install), Ok(build), Ok(start), Ok(variables)) => Ok(
                BuildPlanView {
                    setup,
                    install,
                    build,
                    start,
                    variables: match variables {
                        Some(map) => map,
                        None => Map::empty(),
                    },
                },
            ),
            (Err(e), _, _, _, _) => Err(e),
            (_, Err(e), _, _, _) => Err(e),
            (_, _, Err(e), _, _) => Err(e),
            (_, _, _, Err(e), _) => Err(e),
            (_, _, _, _, Err(e)) => Err(e),
        },
    }
}

/// `base` followed by the items of `extra` that are not there yet, each once
/// and in their order.
pub open spec fn append_new<A>(base: Seq<A>, extra: Seq<A>) -> Seq<A>
    decreases extra.len(),
{
    if extra.len() == 0 {
        base
    } else {
        let front = append_new(base, extra.drop_last());
        if front.contains(extra.last()) {
            front
        } else {
            front.push(extra.last())
        }
    }
}

/// The revision that a pinned package set is taken from.
pub open spec fn nixpkgs_archive() -> Seq<char> {
    "30d3d79b7d3607d56546dd2a6b49e156ba0ec634"@
}

/// Whether the options change the setup phase.
pub open spec fn adds_to_setup(options: OptionsView) -> bool {
    ||| options.custom_pkgs.len() > 0
    ||| options.custom_libs.len() > 0
    ||| options.custom_apt_pkgs.len() > 0
    ||| options.pin_pkgs
}

/// A setup phase with the packages, libraries and apt packages of the options
/// added where they are not there yet, and with the package set pinned where
/// the options ask for that.
pub open spec fn setup_with_additions(setup: SetupPhaseView, options: OptionsView) -> SetupPhaseView {
    SetupPhaseView {
        pkgs: append_new(setup.pkgs, options.custom_pkgs),
        libraries: append_new(setup.libraries, options.custom_libs),
        apt_pkgs: append_new(setup.apt_pkgs, options.custom_apt_pkgs),
        archive: if options.pin_pkgs {
            Some(nixpkgs_archive())
        } else {
            setup.archive
        },
        cmds: setup.cmds,
    }
}

/// The plan with the additions of the options laid over its setup phase; a
/// plan without a setup phase gets one where the options add anything.
pub open spec fn with_additions(plan: BuildPlanView, options: OptionsView) -> BuildPlanView {
    if adds_to_setup(options) {
        BuildPlanView {
            setup: Some(
                setup_with_additions(
                    match plan.setup {
                        Some(setup) => setup,
                        None => setup_with(seq![]),
                    },
                    options,
                ),
            ),
            ..plan
        }
    } else {
        plan
    }
}

/// `over` where it is there, else `under`.
pub open spec fn laid_over<A>(under: Option<A>, over: Option<A>) -> Option<A> {
    if over is Some {
        over
    } else {
        under
    }
}

/// The plan with a plan file laid over it: each phase of the file replaces
/// the phase planned so far, and the file's variables, where it has any,
/// replace the variables planned so far.
pub open spec fn with_plan_file(plan: BuildPlanView, file: Option<BuildPlanView>) -> BuildPlanView {
    match file {
        None => plan,
        Some(file) => BuildPlanView {
            setup: laid_over(plan.setup, file.setup),
            install: laid_over(plan.install, file.install),
            build: laid_over(plan.build, file.build),
            start: laid_over(plan.start, file.start),
            variables: if file.variables == Map::<Seq<char>, Seq<char>>::empty() {
                plan.variables
            } else {
                file.variables
            },
        },
    }
}

/// The commands of a list as one command: joined by ` && `.
pub open spec fn joined(cmds: Seq<Seq<char>>) -> Seq<char>
    decreases cmds.len(),
{
    if cmds.len() == 0 {
        seq![]
    } else if cmds.len() == 1 {
        cmds[0]
    } else {
        joined(cmds.drop_last()) + " && "@ + cmds.last()
    }
}

/// The command that a list of the options puts in place of a planned one:
/// none where the list is absent or empty.
pub open spec fn command_override(cmds: Option<Seq<Seq<char>>>) -> Option<Seq<char>> {
    match cmds {
        Some(list) => if list.len() > 0 {
            Some(joined(list))
        } else {
            None
        },
        None => None,
    }
}

/// An install or build phase with its command replaced; a phase that is not
/// there comes into being with that command.
pub open spec fn with_command(phase: Option<CommandPhaseView>, cmd: Option<Seq<char>>) -> Option<
    CommandPhaseView,
> {
    match (cmd, phase) {
        (None, _) => phase,
        (Some(cmd), Some(phase)) => Some(CommandPhaseView { cmd: Some(cmd), ..phase }),
        (Some(cmd), None) => Some(command_only(cmd)),
    }
}

/// A start phase with its command replaced; a phase that is not there comes
/// into being with that command.
pub open spec fn with_start_command(phase: Option<StartPhaseView>, cmd: Option<Seq<char>>) -> Option<
    StartPhaseView,
> {
    match (cmd, phase) {
        (None, _) => phase,
        (Some(cmd), Some(phase)) => Some(StartPhaseView { cmd: Some(cmd), ..phase }),
        (Some(cmd), None) => Some(start_with(cmd)),
    }
}

/// Whether the options replace no command.
pub open spec fn no_command_overrides(options: OptionsView) -> bool {
    &&& command_override(options.custom_install_cmd) is None
    &&& command_override(options.custom_build_cmd) is None
    &&& options.custom_start_cmd is None
}

/// The plan with the commands of the options in place of its own.
pub open spec fn with_commands(plan: BuildPlanView, options: OptionsView) -> BuildPlanView {
    BuildPlanView {
        install: with_command(plan.install, command_override(options.custom_install_cmd)),
        build: with_command(plan.build, command_override(options.custom_build_cmd)),
        start: with_start_command(plan.start, options.custom_start_cmd),
        ..plan
    }
}

/// The plan with the variables of the command line laid over its own.
pub open spec fn with_variables(
    plan: BuildPlanView,
    variables: Map<Seq<char>, Seq<char>>,
) -> BuildPlanView {
    BuildPlanView { variables: plan.variables.union_prefer_right(variables), ..plan }
}

/// The plan that the text of a plan file holds: a parse error where the text
/// is not JSON, a plan error where the JSON is not a plan.
pub open spec fn plan_file_of(text: Option<Seq<char>>) -> Result<Option<BuildPlanView>, Error> {
    match text {
        None => Ok(None),
        Some(text) => match json_document(text) {
            None => Err(Error::Parse),
            Some(doc) => match build_plan_of(doc) {
                Ok(plan) => Ok(Some(plan)),
                Err(e) => Err(e),
            },
        },
    }
}

/// The plan of a chosen provider with the options, the plan file and the
/// variables of the command line laid over it.
pub open spec fn composed(
    provided: BuildPlanView,
    options: OptionsView,
    file: Option<BuildPlanView>,
    cli: Map<Seq<char>, Seq<char>>,
) -> BuildPlanView {
    with_variables(with_commands(with_plan_file(with_additions(provided, options), file), options), cli)
}

/// The plan for a tree. `base` is the process environment, `entries` are the
/// `NAME=VALUE` entries of the command line, `plan_text` is the text of the
/// plan file where there is one.
pub open spec fn plan_of(
    providers: Seq<ProviderId>,
    app: AppView,
    base: Map<Seq<char>, Seq<char>>,
    entries: Seq<Seq<char>>,
    options: OptionsView,
    plan_text: Option<Seq<char>>,
) -> Result<BuildPlanView, Error> {
    match with_entries(Map::empty(), entries) {
        Err(e) => Err(e),
        Ok(cli) => {
            let env = base.union_prefer_right(cli);
            match selected(providers, app, env) {
                Err(e) => Err(e),
                Ok(choice) => match provider_plan(choice, app, env) {
                    Err(e) => Err(e),
                    Ok(provided) => match plan_file_of(plan_text) {
                        Err(e) => Err(e),
                        Ok(file) => Ok(composed(provided, options, file, cli)),
                    },
                },
            }
        },
    }
}

/// Whether a result of the planner is the one that was to be had.
pub open spec fn meets(r: Result<BuildPlan, Error>, expected: Result<BuildPlanView, Error>) -> bool {
    match expected {
        Ok(plan) => r is Ok && r->Ok_0@ == plan,
        Err(e) => r is Err && r->Err_0 == e,
    }
}

/// Whether `list` holds a package equal to `pkg`.
fn contains_pkg(list: &Vec<Pkg>, pkg: &Pkg) -> (r: bool)
    ensures
        r == list.deep_view().contains(pkg@),
{
    let mut i: usize = 0;
    while i < list.len()
        invariant
            i <= list.len(),
            forall|k: int| 0 <= k < i ==> list.deep_view()[k] != pkg@,
        decreases list.len() - i,
    {
        if list[i].same_as(pkg) {
            proof {
                assert(list.deep_view()[i as int] == pkg@);
            }
            return true;
        }
        i += 1;
    }
    false
}

/// Whether `list` holds the text `text`.
fn contains_text(list: &Vec<String>, text: &String) -> (r: bool)
    ensures
        r == list.deep_view().contains(text@),
{
    let mut i: usize = 0;
    while i < list.len()
        invariant
            i <= list.len(),
            forall|k: int| 0 <= k < i ==> list.deep_view()[k] != text@,
        decreases list.len() - i,
    {
        if list[i] == *text {
            proof {
                assert(list.deep_view()[i as int] == text@);
            }
            return true;
        }
        i += 1;
    }
    false
}

/// `base` followed by the packages of `extra` that are not there yet.
pub fn append_new_pkgs(base: Vec<Pkg>, extra: &Vec<Pkg>) -> (r: Vec<Pkg>)
    ensures
        r.deep_view() == append_new(base.deep_view(), extra.deep_view()),
{
    let ghost start = base.deep_view();
    let ghost added = extra.deep_view();
    let mut list = base;
    let mut i: usize = 0;
    proof {
        assert(added.take(0) =~= seq![]);
    }
    while i < extra.len()
        invariant
            i <= extra.len(),
            added == extra.deep_view(),
            list.deep_view() == append_new(start, added.take(i as int)),
        decreases extra.len() - i,
    {
        proof {
            assert(added.take(i + 1).drop_last() =~= added.take(i as int));
            assert(added.take(i + 1).last() == extra[i as int]@);
        }
        if !contains_pkg(&list, &extra[i]) {
            let ghost before = list.deep_view();
            list.push(extra[i].clone());
            proof {
                assert(list.deep_view() =~= before.push(extra[i as int]@));
            }
        }
        i += 1;
    }
    proof {
        assert(added.take(i as int) =~= added);
    }
    list
}

/// `base` followed by the texts of `extra` that are not there yet.
pub fn append_new_texts(base: Vec<String>, extra: &Vec<String>) -> (r: Vec<String>)
    ensures
        r.deep_view() == append_new(base.deep_view(), extra.deep_view()),
{
    let ghost start = base.deep_view();
    let ghost added = extra.deep_view();
    let mut list = base;
    let mut i: usize = 0;
    proof {
        assert(added.take(0) =~= seq![]);
    }
    while i < extra.len()
        invariant
            i <= extra.len(),
            added == extra.deep_view(),
            list.deep_view() == append_new(start, added.take(i as int)),
        decreases extra.len() - i,
    {
        proof {
            assert(added.take(i + 1).drop_last() =~= added.take(i as int));
            assert(added.take(i + 1).last() == extra[i as int]@);
        }
        if !contains_text(&list, &extra[i]) {
            let ghost before = list.deep_view();
            list.push(extra[i].clone());
            proof {
                assert(list.deep_view() =~= before.push(extra[i as int]@));
            }
        }
        i += 1;
    }
    proof {
        assert(added.take(i as int) =~= added);
    }
    list
}

/// The commands of `cmds` as one command: joined by ` && `.
pub fn join_commands(cmds: &Vec<String>) -> (r: String)
    ensures
        r@ == joined(cmds.deep_view()),
{
    let ghost all = cmds.deep_view();
    let mut out = String::new();
    let mut i: usize = 0;
    proof {
        assert(all.take(0) =~= seq![]);
    }
    while i < cmds.len()
        invariant
            i <= cmds.len(),
            all == cmds.deep_view(),
            out@ == joined(all.take(i as int)),
        decreases cmds.len() - i,
    {
        proof {
            assert(all.take(i + 1).drop_last() =~= all.take(i as int));
            assert(all.take(i + 1).last() == cmds[i as int]@);
            assert(all.take(i + 1)[0] == all[0]);
            assert(Seq::<char>::empty() + cmds[i as int]@ =~= cmds[i as int]@);
        }
        if i > 0 {
            out.append(" && ");
        }
        out.append(cmds[i].as_str());
        i += 1;
    }
    proof {
        assert(all.take(i as int) =~= all);
    }
    out
}

/// The command that a list of the options puts in place of a planned one.
pub fn override_of(cmds: &Option<Vec<String>>) -> (r: Option<String>)
    ensures
        r.deep_view() == command_override(cmds.deep_view()),
{
    match cmds {
        Some(list) => {
            if list.len() > 0 {
                Some(join_commands(list))
            } else {
                None
            }
        },
        None => None,
    }
}

/// Asks the provider `id` whether it recognises the tree.
fn detect_with(id: ProviderId, app: &App, env: &Environment) -> (r: Result<bool, Error>)
    ensures
        r == detects(id, app@, env@),
{
    match id {
        ProviderId::Deno => (DenoProvider {  }).detect(app, env),
        ProviderId::Node => (NodeProvider {  }).detect(app, env),
    }
}

/// The first of `providers` that recognises the tree, if any does.
pub fn select_provider(providers: &Vec<ProviderId>, app: &App, env: &Environment) -> (r: Result<
    Option<ProviderId>,
    Error,
>)
    ensures
        r == selected(providers@, app@, env@),
{
    let mut i: usize = 0;
    proof {
        assert(providers@.skip(0) =~= providers@);
    }
    while i < providers.len()
        invariant
            i <= providers.len(),
            selected(providers@, app@, env@) == selected(providers@.skip(i as int), app@, env@),
        decreases providers.len() - i,
    {
        proof {
            assert(providers@.skip(i as int)[0] == providers@[i as int]);
            assert(providers@.skip(i as int).skip(1) =~= providers@.skip(i + 1));
        }
        match detect_with(providers[i], app, env) {
            Err(e) => {
                return Err(e);
            },
            Ok(true) => {
                return Ok(Some(providers[i]));
            },
            Ok(false) => {},
        }
        i += 1;
    }
    Ok(None)
}

/// The plan that the provider `id` gives the tree.
fn plan_with(id: ProviderId, app: &App, env: &Environment) -> (r: Result<BuildPlan, Error>)
    ensures
        meets(r, provider_plan(Some(id), app@, env@)),
{
    match id {
        ProviderId::Deno => {
            let provider = DenoProvider {  };
            let setup = provider.setup(app, env);
            let install = provider.install(app, env);
            let build = provider.build(app, env);
            let start = provider.start(app, env);
            let variables = provider.environment_variables(app, env);
            gather(setup, install, build, start, variables)
        },
        ProviderId::Node => {
            let provider = NodeProvider {  };
            let setup = provider.setup(app, env);
            let install = provider.install(app, env);
            let build = provider.build(app, env);
            let start = provider.start(app, env);
            let variables = provider.environment_variables(app, env);
            gather(setup, install, build, start, variables)
        },
    }
}

/// The plan made of what a provider gave, or the first of its errors.
fn gather(
    setup: Result<Option<SetupPhase>, Error>,
    install: Result<Option<InstallPhase>, Error>,
    build: Result<Option<BuildPhase>, Error>,
    start: Result<Option<StartPhase>, Error>,
    variables: Result<Option<StringMap>, Error>,
) -> (r: Result<BuildPlan, Error>)
    ensures
        match (setup, install, build, start, variables) {
            (Ok(setup), Ok(install), Ok(build), Ok(start), Ok(variables)) => r is Ok && r->Ok_0@
                == (BuildPlanView {
                setup: setup.deep_view(),
                install: install.deep_view(),
                build: build.deep_view(),
                start: start.deep_view(),
                variables: match variables {
                    Some(map) => map@,
                    None => Map::empty(),
                },
            }),
            (Err(e), _, _, _, _) => r is Err && r->Err_0 == e,
            (_, Err(e), _, _, _) => r is Err && r->Err_0 == e,
            (_, _, Err(e), _, _) => r is Err && r->Err_0 == e,
            (_, _, _, Err(e), _) => r is Err && r->Err_0 == e,
            (_, _, _, _, Err(e)) => r is Err && r->Err_0 == e,
        },
{
    let setup = match setup {
        Ok(setup) => setup,
        Err(e) => {
            return Err(e);
        },
    };
    let install = match install {
        Ok(install) => install,
        Err(e) => {
            return Err(e);
        },
    };
    let build = match build {
        Ok(build) => build,
        Err(e) => {
            return Err(e);
        },
    };
    let start = match start {
        Ok(start) => start,
        Err(e) => {
            return Err(e);
        },
    };
    let variables = match variables {
        Ok(Some(map)) => map,
        Ok(None) => StringMap::new(),
        Err(e) => {
            return Err(e);
        },
    };
    Ok(BuildPlan { setup, install, build, start, variables })
}

/// The plan that the chosen provider gives the tree; the empty plan where
/// none is chosen.
pub fn plan_from_provider(choice: Option<ProviderId>, app: &App, env: &Environment) -> (r: Result<
    BuildPlan,
    Error,
>)
    ensures
        meets(r, provider_plan(choice, app@, env@)),
{
    match choice {
        Some(id) => plan_with(id, app, env),
        None => Ok(BuildPlan::new()),
    }
}

/// Lays the packages, libraries and apt packages of the options, and their
/// pin, over the setup phase of `plan`.
pub fn add_custom(plan: BuildPlan, options: &GeneratePlanOptions) -> (r: BuildPlan)
    ensures
        r@ == with_additions(plan@, options@),
{
    if options.custom_pkgs.len() == 0 && options.custom_libs.len() == 0
        && options.custom_apt_pkgs.len() == 0 && !options.pin_pkgs {
        return plan;
    }
    let ghost before = plan@;
    let BuildPlan { setup, install, build, start, variables } = plan;
    let base = match setup {
        Some(setup) => setup,
        None => {
            let none: Vec<Pkg> = Vec::new();
            proof {
                assert(none.deep_view() =~= seq![]);
            }
            SetupPhase::new(none)
        },
    };
    proof {
        assert(adds_to_setup(options@));
        assert(base@ == match before.setup {
            Some(setup) => setup,
            None => setup_with(seq![]),
        });
    }
    let SetupPhase { pkgs, libraries, apt_pkgs, archive, cmds } = base;
    let pkgs = append_new_pkgs(pkgs, &options.custom_pkgs);
    let libraries = append_new_texts(libraries, &options.custom_libs);
    let apt_pkgs = append_new_texts(apt_pkgs, &options.custom_apt_pkgs);
    let archive = if options.pin_pkgs {
        Some("30d3d79b7d3607d56546dd2a6b49e156ba0ec634".to_owned())
    } else {
        archive
    };
    BuildPlan {
        setup: Some(SetupPhase { pkgs, libraries, apt_pkgs, archive, cmds }),
        install,
        build,
        start,
        variables,
    }
}

/// Lays a plan file over `plan`.
pub fn apply_plan_file(plan: BuildPlan, file: Option<BuildPlan>) -> (r: BuildPlan)
    ensures
        r@ == with_plan_file(plan@, file.deep_view()),
{
    match file {
        None => plan,
        Some(file) => {
            let BuildPlan { setup, install, build, start, variables } = plan;
            BuildPlan {
                setup: if file.setup.is_some() {
                    file.setup
                } else {
                    setup
                },
                install: if file.install.is_some() {
                    file.install
                } else {
                    install
                },
                build: if file.build.is_some() {
                    file.build
                } else {
                    build
                },
                start: if file.start.is_some() {
                    file.start
                } else {
                    start
                },
                variables: if file.variables.is_empty() {
                    variables
                } else {
                    file.variables
                },
            }
        },
    }
}

/// Puts the commands of the options in place of those of `plan`.
pub fn apply_commands(plan: BuildPlan, options: &GeneratePlanOptions) -> (r: BuildPlan)
    ensures
        r@ == with_commands(plan@, options@),
{
    let BuildPlan { setup, install, build, start, variables } = plan;
    let install = match (override_of(&options.custom_install_cmd), install) {
        (None, install) => install,
        (Some(cmd), Some(phase)) => Some(
            InstallPhase { cmd: Some(cmd), cache_directories: phase.cache_directories },
        ),
        (Some(cmd), None) => Some(InstallPhase::new(cmd)),
    };
    let build = match (override_of(&options.custom_build_cmd), build) {
        (None, build) => build,
        (Some(cmd), Some(phase)) => Some(
            BuildPhase { cmd: Some(cmd), cache_directories: phase.cache_directories },
        ),
        (Some(cmd), None) => Some(BuildPhase::new(cmd)),
    };
    let start = match (&options.custom_start_cmd, start) {
        (None, start) => start,
        (Some(cmd), Some(phase)) => Some(
            StartPhase { cmd: Some(cmd.clone()), run_image: phase.run_image },
        ),
        (Some(cmd), None) => Some(StartPhase::new(cmd.clone())),
    };
    BuildPlan { setup, install, build, start, variables }
}

/// Lays the variables of the command line over those of `plan`.
pub fn apply_variables(plan: BuildPlan, variables: &StringMap) -> (r: BuildPlan)
    ensures
        r@ == with_variables(plan@, variables@),
{
    let mut plan = plan;
    plan.variables.extend(variables);
    plan
}

/// Reads the plan that the text of a plan file holds.
pub fn read_plan_file(text: Option<&str>) -> (r: Result<Option<BuildPlan>, Error>)
    ensures
        match plan_file_of(text.deep_view()) {
            Ok(plan) => r is Ok && r->Ok_0.deep_view() == plan,
            Err(e) => r is Err && r->Err_0 == e,
        },
{
    match text {
        None => Ok(None),
        Some(text) => match Json::parse(text) {
            Ok(doc) => match BuildPlan::from_json(&doc) {
                Ok(plan) => Ok(Some(plan)),
                Err(e) => Err(e),
            },
            Err(e) => Err(e),
        },
    }
}

/// Plans for `app` with the given providers, asked in their order. `base` is
/// the process environment, `entries` are the `NAME=VALUE` entries of the
/// command line, and `plan_text` is the text of the plan file, where the
/// options name one.
pub fn plan_with_providers(
    providers: &Vec<ProviderId>,
    app: &App,
    base: StringMap,
    entries: &Vec<String>,
    options: &GeneratePlanOptions,
    plan_text: Option<&str>,
) -> (r: Result<BuildPlan, Error>)
    ensures
        meets(
            r,
            plan_of(
                providers@,
                app@,
                base@,
                entries.deep_view(),
                options@,
                plan_text.deep_view(),
            ),
        ),
{
    let cli = match apply_entries(StringMap::new(), entries) {
        Ok(cli) => cli,
        Err(e) => {
            return Err(e);
        },
    };
    let mut variables = base;
    variables.extend(&cli);
    let env = Environment::new(variables);
    let choice = match select_provider(providers, app, &env) {
        Ok(choice) => choice,
        Err(e) => {
            return Err(e);
        },
    };
    let provided = match plan_from_provider(choice, app, &env) {
        Ok(plan) => plan,
        Err(e) => {
            return Err(e);
        },
    };
    let file = match read_plan_file(plan_text) {
        Ok(file) => file,
        Err(e) => {
            return Err(e);
        },
    };
    let plan = add_custom(provided, options);
    let plan = apply_plan_file(plan, file);
    let plan = apply_commands(plan, options);
    Ok(apply_variables(plan, &cli))
}

/// Plans for `app` with the providers of the registry.
pub fn generate_build_plan(
    app: &App,
    base: StringMap,
    entries: &Vec<String>,
    options: &GeneratePlanOptions,
    plan_text: Option<&str>,
) -> (r: Result<BuildPlan, Error>)
    ensures
        meets(
            r,
            plan_of(
                registry(),
                app@,
                base@,
                entries.deep_view(),
                options@,
                plan_text.deep_view(),
            ),
        ),
{
    let providers = get_providers();
    plan_with_providers(&providers, app, base, entries, options, plan_text)
}

/// The providers that are left when all but the selected one are removed.
pub open spec fn only_selected(choice: Option<ProviderId>) -> Seq<ProviderId> {
    match choice {
        Some(id) => seq![id],
        None => seq![],
    }
}

/// The provider that is selected stands in the list, recognises the tree, and
/// every provider before it declines; where none is selected, every provider
/// declines.
pub proof fn selection_is_first_detecting(
    providers: Seq<ProviderId>,
    app: AppView,
    env: Map<Seq<char>, Seq<char>>,
)
    requires
        selected(providers, app, env) is Ok,
    ensures
        match selected(providers, app, env)->Ok_0 {
            Some(id) => exists|i: int|
                {
                    &&& 0 <= i < providers.len()
                    &&& #[trigger] providers[i] == id
                    &&& detects(id, app, env) == Ok::<bool, Error>(true)
                    &&& forall|j: int|
                        0 <= j < i ==> detects(#[trigger] providers[j], app, env) == Ok::<
                            bool,
                            Error,
                        >(false)
                },
            None => forall|j: int|
                0 <= j < providers.len() ==> detects(#[trigger] providers[j], app, env) == Ok::<
                    bool,
                    Error,
                >(false),
        },
    decreases providers.len(),
{
    if providers.len() > 0 {
        match detects(providers[0], app, env) {
            Ok(true) => {
                assert(providers[0] == selected(providers, app, env)->Ok_0->Some_0);
            },
            Ok(false) => {
                let rest = providers.skip(1);
                selection_is_first_detecting(rest, app, env);
                match selected(rest, app, env)->Ok_0 {
                    Some(id) => {
                        let i = choose|i: int|
                            {
                                &&& 0 <= i < rest.len()
                                &&& #[trigger] rest[i] == id
                                &&& detects(id, app, env) == Ok::<bool, Error>(true)
                                &&& forall|j: int|
                                    0 <= j < i ==> detects(#[trigger] rest[j], app, env) == Ok::<
                                        bool,
                                        Error,
                                    >(false)
                            };
                        assert(providers[i + 1] == id);
                        assert forall|j: int| 0 <= j < i + 1 implies detects(
                            #[trigger] providers[j],
                            app,
                            env,
                        ) == Ok::<bool, Error>(false) by {
                            if j > 0 {
                                assert(rest[j - 1] == providers[j]);
                            }
                        }
                    },
                    None => {
                        assert forall|j: int| 0 <= j < providers.len() implies detects(
                            #[trigger] providers[j],
                            app,
                            env,
                        ) == Ok::<bool, Error>(false) by {
                            if j > 0 {
                                assert(rest[j - 1] == providers[j]);
                            }
                        }
                    },
                }
            },
            Err(_) => {},
        }
    }
}

/// Where the selection succeeds, removing every provider but the selected one
/// changes neither the selection nor the plan.
pub proof fn plan_ignores_other_providers(
    providers: Seq<ProviderId>,
    app: AppView,
    base: Map<Seq<char>, Seq<char>>,
    entries: Seq<Seq<char>>,
    options: OptionsView,
    plan_text: Option<Seq<char>>,
)
    requires
        with_entries(Map::empty(), entries) is Ok ==> selected(
            providers,
            app,
            base.union_prefer_right(with_entries(Map::empty(), entries)->Ok_0),
        ) is Ok,
    ensures
        with_entries(Map::empty(), entries) is Ok ==> ({
            let env = base.union_prefer_right(with_entries(Map::empty(), entries)->Ok_0);
            selected(only_selected(selected(providers, app, env)->Ok_0), app, env) == selected(
                providers,
                app,
                env,
            )
        }),
        ({
            let kept = match with_entries(Map::empty(), entries) {
                Ok(cli) => only_selected(
                    selected(providers, app, base.union_prefer_right(cli))->Ok_0,
                ),
                Err(_) => providers,
            };
            plan_of(kept, app, base, entries, options, plan_text) == plan_of(
                providers,
                app,
                base,
                entries,
                options,
                plan_text,
            )
        }),
{
    if with_entries(Map::empty(), entries) is Ok {
        let env = base.union_prefer_right(with_entries(Map::empty(), entries)->Ok_0);
        selection_is_first_detecting(providers, app, env);
        match selected(providers, app, env)->Ok_0 {
            Some(id) => {
                assert(seq![id][0] == id);
                assert(selected(seq![id], app, env) == Ok::<Option<ProviderId>, Error>(Some(id)));
            },
            None => {},
        }
    }
}

/// The commands of the options change the commands only: the setup phase,
/// the variables, the directories to cache and the image to run in stay as
/// they were, and a command that the options do not name stays too.
pub proof fn commands_leave_the_rest(plan: BuildPlanView, options: OptionsView)
    ensures
        with_commands(plan, options).setup == plan.setup,
        with_commands(plan, options).variables == plan.variables,
        plan.install is Some ==> with_commands(plan, options).install is Some && with_commands(
            plan,
            options,
        ).install->Some_0.cache_directories == plan.install->Some_0.cache_directories,
        plan.build is Some ==> with_commands(plan, options).build is Some && with_commands(
            plan,
            options,
        ).build->Some_0.cache_directories == plan.build->Some_0.cache_directories,
        plan.start is Some ==> with_commands(plan, options).start is Some && with_commands(
            plan,
            options,
        ).start->Some_0.run_image == plan.start->Some_0.run_image,
        command_override(options.custom_install_cmd) is None ==> with_commands(
            plan,
            options,
        ).install == plan.install,
        command_override(options.custom_build_cmd) is None ==> with_commands(plan, options).build
            == plan.build,
        options.custom_start_cmd is None ==> with_commands(plan, options).start == plan.start,
        command_override(options.custom_install_cmd) is Some ==> with_commands(
            plan,
            options,
        ).install->Some_0.cmd == command_override(options.custom_install_cmd),
        command_override(options.custom_build_cmd) is Some ==> with_commands(
            plan,
            options,
        ).build->Some_0.cmd == command_override(options.custom_build_cmd),
        options.custom_start_cmd is Some ==> with_commands(plan, options).start->Some_0.cmd
            == options.custom_start_cmd,
{
}

/// Two runs of the planner on the same inputs end alike: both with a plan,
/// and then with equal plans, or both with the same error.
pub proof fn planning_is_deterministic(
    first: Result<BuildPlan, Error>,
    second: Result<BuildPlan, Error>,
    providers: Seq<ProviderId>,
    app: AppView,
    base: Map<Seq<char>, Seq<char>>,
    entries: Seq<Seq<char>>,
    options: OptionsView,
    plan_text: Option<Seq<char>>,
)
    requires
        meets(first, plan_of(providers, app, base, entries, options, plan_text)),
        meets(second, plan_of(providers, app, base, entries, options, plan_text)),
    ensures
        first is Ok <==> second is Ok,
        first is Ok ==> first->Ok_0@ == second->Ok_0@,
        first is Err ==> first->Err_0 == second->Err_0,
{
}

/// Where no provider recognises the tree and the options replace no command,
/// the plan is the plan file itself exactly where the file has a setup phase
/// or the options add nothing to one, and the file holds every variable of
/// the command line with its value.
pub proof fn plan_file_alone_is_the_plan(
    providers: Seq<ProviderId>,
    app: AppView,
    base: Map<Seq<char>, Seq<char>>,
    entries: Seq<Seq<char>>,
    options: OptionsView,
    plan_text: Option<Seq<char>>,
    cli: Map<Seq<char>, Seq<char>>,
    file: BuildPlanView,
)
    requires
        with_entries(Map::empty(), entries) == Ok::<Map<Seq<char>, Seq<char>>, Error>(cli),
        selected(providers, app, base.union_prefer_right(cli)) == Ok::<Option<ProviderId>, Error>(
            None,
        ),
        no_command_overrides(options),
        plan_file_of(plan_text) == Ok::<Option<BuildPlanView>, Error>(Some(file)),
    ensures
        plan_of(providers, app, base, entries, options, plan_text) is Ok,
        plan_of(providers, app, base, entries, options, plan_text)->Ok_0 == file <==> (file.setup
            is Some || !adds_to_setup(options)) && cli.submap_of(file.variables),
{
    let plan = plan_of(providers, app, base, entries, options, plan_text)->Ok_0;
    assert(plan == composed(empty_plan(), options, Some(file), cli));
    assert(plan.install == file.install);
    assert(plan.build == file.build);
    assert(plan.start == file.start);
    let under = if file.variables == Map::<Seq<char>, Seq<char>>::empty() {
        Map::<Seq<char>, Seq<char>>::empty()
    } else {
        file.variables
    };
    assert(under == file.variables);
    assert(plan.variables == file.variables.union_prefer_right(cli));
    if cli.submap_of(file.variables) {
        let merged = file.variables.union_prefer_right(cli);
        assert forall|k: Seq<char>| merged.dom().contains(k) == file.variables.dom().contains(
            k,
        ) by {
            if cli.dom().contains(k) {
                assert(file.variables.dom().contains(k));
            }
        }
        assert forall|k: Seq<char>| #[trigger] merged.dom().contains(k) implies merged[k]
            == file.variables[k] by {
            if cli.dom().contains(k) {
                assert(cli[k] == file.variables[k]);
            }
        }
        assert(merged =~= file.variables);
    }
    if plan.variables == file.variables {
        assert forall|k: Seq<char>| #[trigger] cli.dom().contains(k) implies file.variables.dom().contains(
            k,
        ) && cli[k] == file.variables[k] by {
            assert(plan.variables.dom().contains(k));
            assert(plan.variables[k] == cli[k]);
        }
    }
}

} // verus!
