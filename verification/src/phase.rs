//! The four phases of a build plan. Each is a plain container that keeps the
//! order in which its items were added.

use crate::pkg::{Pkg, PkgView};
use vstd::prelude::*;

verus! {

/// What a setup phase stands for.
pub struct SetupPhaseView {
    pub pkgs: Seq<PkgView>,
    pub libraries: Seq<Seq<char>>,
    pub apt_pkgs: Seq<Seq<char>>,
    pub archive: Option<Seq<char>>,
    pub cmds: Option<Seq<Seq<char>>>,
}

/// The packages, libraries and commands that prepare the image.
#[derive(Debug, Clone, PartialEq)]
pub struct SetupPhase {
    pub pkgs: Vec<Pkg>,
    pub libraries: Vec<String>,
    pub apt_pkgs: Vec<String>,
    pub archive: Option<String>,
    pub cmds: Option<Vec<String>>,
}

impl View for SetupPhase {
    type V = SetupPhaseView;

    open spec fn view(&self) -> SetupPhaseView {
        SetupPhaseView {
            pkgs: self.pkgs.deep_view(),
            libraries: self.libraries.deep_view(),
            apt_pkgs: self.apt_pkgs.deep_view(),
            archive: self.archive.deep_view(),
            cmds: self.cmds.deep_view(),
        }
    }
}

impl DeepView for SetupPhase {
    type V = SetupPhaseView;

    open spec fn deep_view(&self) -> SetupPhaseView {
        self@
    }
}

/// A setup phase that holds `pkgs` and nothing else.
pub open spec fn setup_with(pkgs: Seq<PkgView>) -> SetupPhaseView {
    SetupPhaseView { pkgs, libraries: seq![], apt_pkgs: seq![], archive: None, cmds: None }
}

/// `cmds` with `cmd` added at the end; an absent list counts as empty.
pub open spec fn with_cmd(cmds: Option<Seq<Seq<char>>>, cmd: Seq<char>) -> Option<Seq<Seq<char>>> {
    match cmds {
        Some(list) => Some(list.push(cmd)),
        None => Some(seq![cmd]),
    }
}

impl SetupPhase {
    /// A setup phase that holds `pkgs` and nothing else.
    pub fn new(pkgs: Vec<Pkg>) -> (r: SetupPhase)
        ensures
            r@ == setup_with(pkgs.deep_view()),
    {
        let r = SetupPhase {
            pkgs,
            libraries: Vec::new(),
            apt_pkgs: Vec::new(),
            archive: None,
            cmds: None,
        };
        proof {
            assert(r.libraries.deep_view() =~= seq![]);
            assert(r.apt_pkgs.deep_view() =~= seq![]);
        }
        r
    }

    /// Adds `pkgs` after the packages that are there.
    pub fn add_pkgs(&mut self, pkgs: Vec<Pkg>)
        ensures
            final(self)@ == (SetupPhaseView {
                pkgs: old(self)@.pkgs + pkgs.deep_view(),
                ..old(self)@
            }),
    {
        let mut pkgs = pkgs;
        let ghost added = pkgs.deep_view();
        let ghost before = self.pkgs.deep_view();
        self.pkgs.append(&mut pkgs);
        proof {
            assert(self.pkgs.deep_view() =~= before + added);
        }
    }

    /// Adds `libraries` after the libraries that are there.
    pub fn add_libraries(&mut self, libraries: Vec<String>)
        ensures
            final(self)@ == (SetupPhaseView {
                libraries: old(self)@.libraries + libraries.deep_view(),
                ..old(self)@
            }),
    {
        let mut libraries = libraries;
        let ghost added = libraries.deep_view();
        let ghost before = self.libraries.deep_view();
        self.libraries.append(&mut libraries);
        proof {
            assert(self.libraries.deep_view() =~= before + added);
        }
    }

    /// Adds `apt_pkgs` after the apt packages that are there.
    pub fn add_apt_pkgs(&mut self, apt_pkgs: Vec<String>)
        ensures
            final(self)@ == (SetupPhaseView {
                apt_pkgs: old(self)@.apt_pkgs + apt_pkgs.deep_view(),
                ..old(self)@
            }),
    {
        let mut apt_pkgs = apt_pkgs;
        let ghost added = apt_pkgs.deep_view();
        let ghost before = self.apt_pkgs.deep_view();
        self.apt_pkgs.append(&mut apt_pkgs);
        proof {
            assert(self.apt_pkgs.deep_view() =~= before + added);
        }
    }

    /// Pins the package set to `archive`.
    pub fn set_archive(&mut self, archive: String)
        ensures
            final(self)@ == (SetupPhaseView { archive: Some(archive@), ..old(self)@ }),
    {
        self.archive = Some(archive);
    }

    /// Adds `cmd` after the commands that are there.
    pub fn add_cmd(&mut self, cmd: String)
        ensures
            final(self)@ == (SetupPhaseView {
                cmds: with_cmd(old(self)@.cmds, cmd@),
                ..old(self)@
            }),
    {
        let ghost before = self.cmds.deep_view();
        let mut cmds: Option<Vec<String>> = None;
        core::mem::swap(&mut self.cmds, &mut cmds);
        let mut list = match cmds {
            Some(list) => list,
            None => Vec::new(),
        };
        let ghost start = list.deep_view();
        list.push(cmd);
        proof {
            assert(list.deep_view() =~= start.push(cmd@));
            assert(before is None ==> start =~= seq![]);
        }
        self.cmds = Some(list);
    }
}

/// What an install or a build phase stands for.
pub struct CommandPhaseView {
    pub cmd: Option<Seq<char>>,
    pub cache_directories: Option<Seq<Seq<char>>>,
}

/// A phase that holds the command `cmd` and nothing else.
pub open spec fn command_only(cmd: Seq<char>) -> CommandPhaseView {
    CommandPhaseView { cmd: Some(cmd), cache_directories: None }
}

/// The command that installs the application's dependencies.
#[derive(Debug, Clone, PartialEq)]
pub struct InstallPhase {
    pub cmd: Option<String>,
    pub cache_directories: Option<Vec<String>>,
}

impl View for InstallPhase {
    type V = CommandPhaseView;

    open spec fn view(&self) -> CommandPhaseView {
        CommandPhaseView {
            cmd: self.cmd.deep_view(),
            cache_directories: self.cache_directories.deep_view(),
        }
    }
}

impl DeepView for InstallPhase {
    type V = CommandPhaseView;

    open spec fn deep_view(&self) -> CommandPhaseView {
        self@
    }
}

impl InstallPhase {
    /// An install phase that runs `cmd`.
    pub fn new(cmd: String) -> (r: InstallPhase)
        ensures
            r@ == command_only(cmd@),
    {
        InstallPhase { cmd: Some(cmd), cache_directories: None }
    }

    /// Adds `dir` after the directories to cache that are there.
    pub fn add_cache_directory(&mut self, dir: String)
        ensures
            final(self)@ == (CommandPhaseView {
                cache_directories: with_cmd(old(self)@.cache_directories, dir@),
                ..old(self)@
            }),
    {
        let ghost before = self.cache_directories.deep_view();
        let mut dirs: Option<Vec<String>> = None;
        core::mem::swap(&mut self.cache_directories, &mut dirs);
        let mut list = match dirs {
            Some(list) => list,
            None => Vec::new(),
        };
        let ghost start = list.deep_view();
        list.push(dir);
        proof {
            assert(list.deep_view() =~= start.push(dir@));
            assert(before is None ==> start =~= seq![]);
        }
        self.cache_directories = Some(list);
    }
}

/// The command that builds the application.
#[derive(Debug, Clone, PartialEq)]
pub struct BuildPhase {
    pub cmd: Option<String>,
    pub cache_directories: Option<Vec<String>>,
}

impl View for BuildPhase {
    type V = CommandPhaseView;

    open spec fn view(&self) -> CommandPhaseView {
        CommandPhaseView {
            cmd: self.cmd.deep_view(),
            cache_directories: self.cache_directories.deep_view(),
        }
    }
}

impl DeepView for BuildPhase {
    type V = CommandPhaseView;

    open spec fn deep_view(&self) -> CommandPhaseView {
        self@
    }
}

impl BuildPhase {
    /// A build phase that runs `cmd`.
    pub fn new(cmd: String) -> (r: BuildPhase)
        ensures
            r@ == command_only(cmd@),
    {
        BuildPhase { cmd: Some(cmd), cache_directories: None }
    }

    /// Adds `dir` after the directories to cache that are there.
    pub fn add_cache_directory(&mut self, dir: String)
        ensures
            final(self)@ == (CommandPhaseView {
                cache_directories: with_cmd(old(self)@.cache_directories, dir@),
                ..old(self)@
            }),
    {
        let ghost before = self.cache_directories.deep_view();
        let mut dirs: Option<Vec<String>> = None;
        core::mem::swap(&mut self.cache_directories, &mut dirs);
        let mut list = match dirs {
            Some(list) => list,
            None => Vec::new(),
        };
        let ghost start = list.deep_view();
        list.push(dir);
        proof {
            assert(list.deep_view() =~= start.push(dir@));
            assert(before is None ==> start =~= seq![]);
        }
        self.cache_directories = Some(list);
    }
}

/// What a start phase stands for.
pub struct StartPhaseView {
    pub cmd: Option<Seq<char>>,
    pub run_image: Option<Seq<char>>,
}

/// A start phase that runs `cmd` in the image that was built.
pub open spec fn start_with(cmd: Seq<char>) -> StartPhaseView {
    StartPhaseView { cmd: Some(cmd), run_image: None }
}

/// The command that starts the application.
#[derive(Debug, Clone, PartialEq)]
pub struct StartPhase {
    pub cmd: Option<String>,
    pub run_image: Option<String>,
}

impl View for StartPhase {
    type V = StartPhaseView;

    open spec fn view(&self) -> StartPhaseView {
        StartPhaseView { cmd: self.cmd.deep_view(), run_image: self.run_image.deep_view() }
    }
}

impl DeepView for StartPhase {
    type V = StartPhaseView;

    open spec fn deep_view(&self) -> StartPhaseView {
        self@
    }
}

impl StartPhase {
    /// A start phase that runs `cmd` in the image that was built.
    pub fn new(cmd: String) -> (r: StartPhase)
        ensures
            r@ == start_with(cmd@),
    {
        StartPhase { cmd: Some(cmd), run_image: None }
    }

    /// Runs the start command in `image` instead of the image that was built.
    pub fn run_in_image(&mut self, image: String)
        ensures
            final(self)@ == (StartPhaseView { run_image: Some(image@), ..old(self)@ }),
    {
        self.run_image = Some(image);
    }
}

} // verus!
