//! Build plans: the four phases and the variables, and the reading of a plan
//! out of a JSON document.

use crate::error::Error;
use crate::json::{
    content, field_of, items_view, optional_text, optional_text_map, optional_texts, Json,
    JsonView, Mismatch,
};
use crate::phase::{
    BuildPhase, CommandPhaseView, InstallPhase, SetupPhase, SetupPhaseView, StartPhase,
    StartPhaseView,
};
use crate::pkg::{Pkg, PkgView};
use crate::string_map::StringMap;
use vstd::prelude::*;

verus! {

/// What a build plan stands for.
pub struct BuildPlanView {
    pub setup: Option<SetupPhaseView>,
    pub install: Option<CommandPhaseView>,
    pub build: Option<CommandPhaseView>,
    pub start: Option<StartPhaseView>,
    pub variables: Map<Seq<char>, Seq<char>>,
}

/// How to install, build and start an application, with the packages and the
/// variables that this takes.
#[derive(Debug, Clone, PartialEq)]
pub struct BuildPlan {
    pub setup: Option<SetupPhase>,
    pub install: Option<InstallPhase>,
    pub build: Option<BuildPhase>,
    pub start: Option<StartPhase>,
    pub variables: StringMap,
}

impl View for BuildPlan {
    type V = BuildPlanView;

    open spec fn view(&self) -> BuildPlanView {
        BuildPlanView {
            setup: self.setup.deep_view(),
            install: self.install.deep_view(),
            build: self.build.deep_view(),
            start: self.start.deep_view(),
            variables: self.variables@,
        }
    }
}

impl DeepView for BuildPlan {
    type V = BuildPlanView;

    open spec fn deep_view(&self) -> BuildPlanView {
        self@
    }
}

/// The plan without phases and without variables.
pub open spec fn empty_plan() -> BuildPlanView {
    BuildPlanView { setup: None, install: None, build: None, start: None, variables: Map::empty() }
}

impl BuildPlanView {
    /// Whether the plan can be run: it has a start command, or none is
    /// wanted.
    pub open spec fn is_valid(self, no_start: bool) -> bool {
        no_start || (self.start is Some && self.start->Some_0.cmd is Some)
    }
}

/// The package that a JSON value holds: an object with a text `name` and,
/// optionally, an object of texts `overrides`.
pub open spec fn pkg_of(doc: JsonView) -> Result<PkgView, Mismatch> {
    match (doc, field_of(doc, "name"@), optional_text_map(field_of(doc, "overrides"@))) {
        (JsonView::Object(_), Some(JsonView::Text(name)), Ok(Some(overrides))) => Ok(
            PkgView { name, overrides },
        ),
        (JsonView::Object(_), Some(JsonView::Text(name)), Ok(None)) => Ok(
            PkgView { name, overrides: Map::empty() },
        ),
        _ => Err(Mismatch {  }),
    }
}

/// The packages that a list of JSON values holds.
pub open spec fn pkgs_of(items: Seq<JsonView>) -> Result<Seq<PkgView>, Mismatch>
    decreases items.len(),
{
    if items.len() == 0 {
        Ok(seq![])
    } else {
        match (pkgs_of(items.drop_last()), pkg_of(items.last())) {
            (Ok(pkgs), Ok(pkg)) => Ok(pkgs.push(pkg)),
            _ => Err(Mismatch {  }),
        }
    }
}

/// A list of packages; the empty list where the field is absent or null.
pub open spec fn pkgs_or_none(field: Option<JsonView>) -> Result<Seq<PkgView>, Mismatch> {
    match field {
        None => Ok(seq![]),
        Some(JsonView::Null) => Ok(seq![]),
        Some(JsonView::Array(items)) => pkgs_of(items),
        Some(_) => Err(Mismatch {  }),
    }
}

/// A list of texts; the empty list where the field is absent or null.
pub open spec fn texts_or_none(field: Option<JsonView>) -> Result<Seq<Seq<char>>, Mismatch> {
    match optional_texts(field) {
        Ok(Some(texts)) => Ok(texts),
        Ok(None) => Ok(seq![]),
        Err(e) => Err(e),
    }
}

/// The setup phase that a JSON value holds: an object with the optional
/// fields `pkgs`, `libraries`, `aptPkgs`, `archive` and `cmds`.
pub open spec fn setup_phase_of(doc: JsonView) -> Result<SetupPhaseView, Mismatch> {
    match (
        doc,
        pkgs_or_none(field_of(doc, "pkgs"@)),
        texts_or_none(field_of(doc, "libraries"@)),
        texts_or_none(field_of(doc, "aptPkgs"@)),
        optional_text(field_of(doc, "archive"@)),
        optional_texts(field_of(doc, "cmds"@)),
    ) {
        (JsonView::Object(_), Ok(pkgs), Ok(libraries), Ok(apt_pkgs), Ok(archive), Ok(cmds)) => Ok(
            SetupPhaseView { pkgs, libraries, apt_pkgs, archive, cmds },
        ),
        _ => Err(Mismatch {  }),
    }
}

/// The install or build phase that a JSON value holds: an object with the
/// optional fields `cmd` and `cacheDirectories`.
pub open spec fn command_phase_of(doc: JsonView) -> Result<CommandPhaseView, Mismatch> {
    match (
        doc,
        optional_text(field_of(doc, "cmd"@)),
        optional_texts(field_of(doc, "cacheDirectories"@)),
    ) {
        (JsonView::Object(_), Ok(cmd), Ok(cache_directories)) => Ok(
            CommandPhaseView { cmd, cache_directories },
        ),
        _ => Err(Mismatch {  }),
    }
}

/// The start phase that a JSON value holds: an object with the optional
/// fields `cmd` and `runImage`.
pub open spec fn start_phase_of(doc: JsonView) -> Result<StartPhaseView, Mismatch> {
    match (doc, optional_text(field_of(doc, "cmd"@)), optional_text(field_of(doc, "runImage"@))) {
        (JsonView::Object(_), Ok(cmd), Ok(run_image)) => Ok(StartPhaseView { cmd, run_image }),
        _ => Err(Mismatch {  }),
    }
}

/// Whether a field is absent or null.
pub open spec fn is_missing(field: Option<JsonView>) -> bool {
    field is None || field == Some(JsonView::Null)
}

/// The build plan that a JSON document holds: an object whose fields `setup`,
/// `install`, `build` and `start`, where present and not null, hold a phase
/// each, and whose field `variables`, where present and not null, is an
/// object of texts. A missing field reads as no phase and as no variables;
/// other fields are ignored; anything else is a plan error.
pub open spec fn build_plan_of(doc: JsonView) -> Result<BuildPlanView, Error> {
    let setup = field_of(doc, "setup"@);
    let install = field_of(doc, "install"@);
    let build = field_of(doc, "build"@);
    let start = field_of(doc, "start"@);
    let variables = optional_text_map(field_of(doc, "variables"@));
    if !(doc is Object) || (!is_missing(setup) && setup_phase_of(setup->Some_0) is Err) || (
    !is_missing(install) && command_phase_of(install->Some_0) is Err) || (!is_missing(build)
        && command_phase_of(build->Some_0) is Err) || (!is_missing(start) && start_phase_of(
        start->Some_0,
    ) is Err) || variables is Err {
        Err(Error::Plan)
    } else {
        Ok(
            BuildPlanView {
                setup: if is_missing(setup) {
                    None
                } else {
                    Some(setup_phase_of(setup->Some_0)->Ok_0)
                },
                install: if is_missing(install) {
                    None
                } else {
                    Some(command_phase_of(install->Some_0)->Ok_0)
                },
                build: if is_missing(build) {
                    None
                } else {
                    Some(command_phase_of(build->Some_0)->Ok_0)
                },
                start: if is_missing(start) {
                    None
                } else {
                    Some(start_phase_of(start->Some_0)->Ok_0)
                },
                variables: match variables {
                    Ok(Some(map)) => map,
                    _ => Map::empty(),
                },
            },
        )
    }
}

/// A list of packages whose prefix holds something other than a package does
/// so itself.
pub proof fn lemma_pkgs_of_prefix(items: Seq<JsonView>, n: int)
    requires
        0 <= n <= items.len(),
        pkgs_of(items.take(n)) is Err,
    ensures
        pkgs_of(items) is Err,
    decreases items.len() - n,
{
    if n < items.len() {
        assert(items.take(n + 1).drop_last() =~= items.take(n));
        lemma_pkgs_of_prefix(items, n + 1);
    } else {
        assert(items.take(n) =~= items);
    }
}

/// Whether `field` is absent or null.
fn missing(field: Option<&Json>) -> (r: bool)
    ensures
        r == is_missing(field.deep_view()),
{
    match field {
        None => true,
        Some(Json::Null) => true,
        Some(_) => false,
    }
}

/// Whether `doc` is an object.
fn is_object(doc: &Json) -> (r: bool)
    ensures
        r == (doc.deep_view() is Object),
{
    match doc {
        Json::Object(_) => true,
        _ => false,
    }
}

/// A list of texts; the empty list where the field is absent or null.
fn to_texts_or_none(field: Option<&Json>) -> (r: Result<Vec<String>, Mismatch>)
    ensures
        match texts_or_none(field.deep_view()) {
            Ok(texts) => r is Ok && r->Ok_0.deep_view() == texts,
            Err(e) => r == Err::<Vec<String>, Mismatch>(e),
        },
{
    match Json::to_optional_texts(field) {
        Ok(Some(texts)) => Ok(texts),
        Ok(None) => {
            let texts: Vec<String> = Vec::new();
            proof {
                assert(texts.deep_view() =~= seq![]);
            }
            Ok(texts)
        },
        Err(e) => Err(e),
    }
}

impl Pkg {
    /// Reads a package out of a JSON value.
    pub fn from_json(doc: &Json) -> (r: Result<Pkg, Mismatch>)
        ensures
            match pkg_of(doc.deep_view()) {
                Ok(pkg) => r is Ok && r->Ok_0@ == pkg,
                Err(e) => r == Err::<Pkg, Mismatch>(e),
            },
    {
        if !is_object(doc) {
            return Err(Mismatch {  });
        }
        let name = match doc.field("name") {
            Some(Json::Text(name)) => name.clone(),
            _ => {
                return Err(Mismatch {  });
            },
        };
        match Json::to_optional_text_map(doc.field("overrides")) {
            Ok(Some(overrides)) => Ok(Pkg { name, overrides }),
            Ok(None) => Ok(Pkg { name, overrides: StringMap::new() }),
            Err(e) => Err(e),
        }
    }

    /// Reads a list of packages out of a list of JSON values.
    pub fn list_from_json(items: &Vec<Json>) -> (r: Result<Vec<Pkg>, Mismatch>)
        ensures
            match pkgs_of(items_view(items@)) {
                Ok(pkgs) => r is Ok && r->Ok_0.deep_view() == pkgs,
                Err(e) => r == Err::<Vec<Pkg>, Mismatch>(e),
            },
    {
        let ghost all = items_view(items@);
        let mut pkgs: Vec<Pkg> = Vec::new();
        let mut i: usize = 0;
        proof {
            assert(all.take(0) =~= seq![]);
            assert(pkgs.deep_view() =~= seq![]);
        }
        while i < items.len()
            invariant
                i <= items.len(),
                all == items_view(items@),
                pkgs_of(all.take(i as int)) == Ok::<Seq<PkgView>, Mismatch>(pkgs.deep_view()),
            decreases items.len() - i,
        {
            proof {
                assert(all.take(i + 1).drop_last() =~= all.take(i as int));
                assert(all.take(i + 1).last() == content(items@[i as int]));
            }
            match Pkg::from_json(&items[i]) {
                Ok(pkg) => {
                    let ghost before = pkgs.deep_view();
                    let ghost added = pkg@;
                    pkgs.push(pkg);
                    proof {
                        assert(pkgs.deep_view() =~= before.push(added));
                    }
                },
                Err(e) => {
                    proof {
                        lemma_pkgs_of_prefix(all, i + 1);
                    }
                    return Err(e);
                },
            }
            i += 1;
        }
        proof {
            assert(all.take(i as int) =~= all);
        }
        Ok(pkgs)
    }

    /// A list of packages; the empty list where the field is absent or null.
    fn list_or_none(field: Option<&Json>) -> (r: Result<Vec<Pkg>, Mismatch>)
        ensures
            match pkgs_or_none(field.deep_view()) {
                Ok(pkgs) => r is Ok && r->Ok_0.deep_view() == pkgs,
                Err(e) => r == Err::<Vec<Pkg>, Mismatch>(e),
            },
    {
        match field {
            None => {
                let pkgs: Vec<Pkg> = Vec::new();
                proof {
                    assert(pkgs.deep_view() =~= seq![]);
                }
                Ok(pkgs)
            },
            Some(Json::Null) => {
                let pkgs: Vec<Pkg> = Vec::new();
                proof {
                    assert(pkgs.deep_view() =~= seq![]);
                }
                Ok(pkgs)
            },
            Some(Json::Array(items)) => {
                proof {
                    assert(field.deep_view()->Some_0->Array_0 =~= items_view(items@));
                }
                Pkg::list_from_json(items)
            },
            Some(_) => Err(Mismatch {  }),
        }
    }
}

impl SetupPhase {
    /// Reads a setup phase out of a JSON value.
    pub fn from_json(doc: &Json) -> (r: Result<SetupPhase, Mismatch>)
        ensures
            match setup_phase_of(doc.deep_view()) {
                Ok(phase) => r is Ok && r->Ok_0@ == phase,
                Err(e) => r == Err::<SetupPhase, Mismatch>(e),
            },
    {
        if !is_object(doc) {
            return Err(Mismatch {  });
        }
        let pkgs = match Pkg::list_or_none(doc.field("pkgs")) {
            Ok(pkgs) => pkgs,
            Err(e) => {
                return Err(e);
            },
        };
        let libraries = match to_texts_or_none(doc.field("libraries")) {
            Ok(libraries) => libraries,
            Err(e) => {
                return Err(e);
            },
        };
        let apt_pkgs = match to_texts_or_none(doc.field("aptPkgs")) {
            Ok(apt_pkgs) => apt_pkgs,
            Err(e) => {
                return Err(e);
            },
        };
        let archive = match Json::to_optional_text(doc.field("archive")) {
            Ok(archive) => archive,
            Err(e) => {
                return Err(e);
            },
        };
        let cmds = match Json::to_optional_texts(doc.field("cmds")) {
            Ok(cmds) => cmds,
            Err(e) => {
                return Err(e);
            },
        };
        Ok(SetupPhase { pkgs, libraries, apt_pkgs, archive, cmds })
    }
}

impl InstallPhase {
    /// Reads an install phase out of a JSON value.
    pub fn from_json(doc: &Json) -> (r: Result<InstallPhase, Mismatch>)
        ensures
            match command_phase_of(doc.deep_view()) {
                Ok(phase) => r is Ok && r->Ok_0@ == phase,
                Err(e) => r == Err::<InstallPhase, Mismatch>(e),
            },
    {
        if !is_object(doc) {
            return Err(Mismatch {  });
        }
        let cmd = match Json::to_optional_text(doc.field("cmd")) {
            Ok(cmd) => cmd,
            Err(e) => {
                return Err(e);
            },
        };
        let cache_directories = match Json::to_optional_texts(doc.field("cacheDirectories")) {
            Ok(dirs) => dirs,
            Err(e) => {
                return Err(e);
            },
        };
        Ok(InstallPhase { cmd, cache_directories })
    }
}

impl BuildPhase {
    /// Reads a build phase out of a JSON value.
    pub fn from_json(doc: &Json) -> (r: Result<BuildPhase, Mismatch>)
        ensures
            match command_phase_of(doc.deep_view()) {
                Ok(phase) => r is Ok && r->Ok_0@ == phase,
                Err(e) => r == Err::<BuildPhase, Mismatch>(e),
            },
    {
        if !is_object(doc) {
            return Err(Mismatch {  });
        }
        let cmd = match Json::to_optional_text(doc.field("cmd")) {
            Ok(cmd) => cmd,
            Err(e) => {
                return Err(e);
            },
        };
        let cache_directories = match Json::to_optional_texts(doc.field("cacheDirectories")) {
            Ok(dirs) => dirs,
            Err(e) => {
                return Err(e);
            },
        };
        Ok(BuildPhase { cmd, cache_directories })
    }
}

impl StartPhase {
    /// Reads a start phase out of a JSON value.
    pub fn from_json(doc: &Json) -> (r: Result<StartPhase, Mismatch>)
        ensures
            match start_phase_of(doc.deep_view()) {
                Ok(phase) => r is Ok && r->Ok_0@ == phase,
                Err(e) => r == Err::<StartPhase, Mismatch>(e),
            },
    {
        if !is_object(doc) {
            return Err(Mismatch {  });
        }
        let cmd = match Json::to_optional_text(doc.field("cmd")) {
            Ok(cmd) => cmd,
            Err(e) => {
                return Err(e);
            },
        };
        let run_image = match Json::to_optional_text(doc.field("runImage")) {
            Ok(image) => image,
            Err(e) => {
                return Err(e);
            },
        };
        Ok(StartPhase { cmd, run_image })
    }
}

impl BuildPlan {
    /// The plan without phases and without variables.
    pub fn new() -> (r: BuildPlan)
        ensures
            r@ == empty_plan(),
    {
        BuildPlan { setup: None, install: None, build: None, start: None, variables: StringMap::new() }
    }

    /// Whether the plan can be run: it has a start command, or `no_start`
    /// says that none is wanted.
    pub fn is_valid(&self, no_start: bool) -> (r: bool)
        ensures
            r == self@.is_valid(no_start),
    {
        no_start || match &self.start {
            Some(start) => start.cmd.is_some(),
            None => false,
        }
    }

    /// Reads a build plan out of a JSON document.
    pub fn from_json(doc: &Json) -> (r: Result<BuildPlan, Error>)
        ensures
            match build_plan_of(doc.deep_view()) {
                Ok(plan) => r is Ok && r->Ok_0@ == plan,
                Err(e) => r == Err::<BuildPlan, Error>(e),
            },
    {
        if !is_object(doc) {
            return Err(Error::Plan);
        }
        let setup_field = doc.field("setup");
        let setup = if missing(setup_field) {
            None
        } else {
            match SetupPhase::from_json(setup_field.unwrap()) {
                Ok(phase) => Some(phase),
                Err(_) => {
                    return Err(Error::Plan);
                },
            }
        };
        let install_field = doc.field("install");
        let install = if missing(install_field) {
            None
        } else {
            match InstallPhase::from_json(install_field.unwrap()) {
                Ok(phase) => Some(phase),
                Err(_) => {
                    return Err(Error::Plan);
                },
            }
        };
        let build_field = doc.field("build");
        let build = if missing(build_field) {
            None
        } else {
            match BuildPhase::from_json(build_field.unwrap()) {
                Ok(phase) => Some(phase),
                Err(_) => {
                    return Err(Error::Plan);
                },
            }
        };
        let start_field = doc.field("start");
        let start = if missing(start_field) {
            None
        } else {
            match StartPhase::from_json(start_field.unwrap()) {
                Ok(phase) => Some(phase),
                Err(_) => {
                    return Err(Error::Plan);
                },
            }
        };
        let variables = match Json::to_optional_text_map(doc.field("variables")) {
            Ok(Some(map)) => map,
            Ok(None) => StringMap::new(),
            Err(_) => {
                return Err(Error::Plan);
            },
        };
        Ok(BuildPlan { setup, install, build, start, variables })
    }
}

} // verus!
