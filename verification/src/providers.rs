//! Providers: one per ecosystem, each able to recognise a source tree and to
//! say what its four phases and its variables are. The registry lists them in
//! the order in which they are asked.

pub mod deno;
pub mod node;

use crate::app::{App, AppView};
use crate::environment::Environment;
use crate::error::{Error, ProviderId};
use crate::phase::{
    BuildPhase, CommandPhaseView, InstallPhase, SetupPhase, SetupPhaseView, StartPhase,
    StartPhaseView,
};
use crate::string_map::StringMap;
use vstd::prelude::*;

verus! {

/// The name of a provider.
pub open spec fn provider_name(id: ProviderId) -> Seq<char> {
    match id {
        ProviderId::Deno => "deno"@,
        ProviderId::Node => "node"@,
    }
}

/// Whether the provider `id` recognises a tree.
pub open spec fn detects(id: ProviderId, app: AppView, env: Map<Seq<char>, Seq<char>>) -> Result<
    bool,
    Error,
> {
    match id {
        ProviderId::Deno => deno::deno_detects(app),
        ProviderId::Node => node::node_detects(app),
    }
}

/// The setup phase that the provider `id` gives a tree.
pub open spec fn setup_of(id: ProviderId, app: AppView, env: Map<Seq<char>, Seq<char>>) -> Result<
    Option<SetupPhaseView>,
    Error,
> {
    match id {
        ProviderId::Deno => deno::deno_setup(),
        ProviderId::Node => node::node_setup(app, env),
    }
}

/// The install phase that the provider `id` gives a tree.
pub open spec fn install_of(id: ProviderId, app: AppView, env: Map<Seq<char>, Seq<char>>) -> Result<
    Option<CommandPhaseView>,
    Error,
> {
    match id {
        ProviderId::Deno => Ok(None),
        ProviderId::Node => node::node_install(app),
    }
}

/// The build phase that the provider `id` gives a tree.
pub open spec fn build_of(id: ProviderId, app: AppView, env: Map<Seq<char>, Seq<char>>) -> Result<
    Option<CommandPhaseView>,
    Error,
> {
    match id {
        ProviderId::Deno => deno::deno_build(app),
        ProviderId::Node => node::node_build(app),
    }
}

/// The start phase that the provider `id` gives a tree.
pub open spec fn start_of(id: ProviderId, app: AppView, env: Map<Seq<char>, Seq<char>>) -> Result<
    Option<StartPhaseView>,
    Error,
> {
    match id {
        ProviderId::Deno => deno::deno_start(app),
        ProviderId::Node => node::node_start(app),
    }
}

/// The variables that the provider `id` gives a tree.
pub open spec fn variables_of(
    id: ProviderId,
    app: AppView,
    env: Map<Seq<char>, Seq<char>>,
) -> Result<Option<Map<Seq<char>, Seq<char>>>, Error> {
    match id {
        ProviderId::Deno => Ok(None),
        ProviderId::Node => Ok(Some(node::node_variables())),
    }
}

/// What every provider can do. Each operation only reads the tree and the
/// environment, and reports its failures as errors of the provider.
pub trait Provider {
    /// Which provider of the registry this is.
    spec fn id(&self) -> ProviderId;

    /// Which provider of the registry this is.
    fn identity(&self) -> (r: ProviderId)
        ensures
            r == self.id(),
    ;

    /// The provider's name.
    fn name(&self) -> (r: &'static str)
        ensures
            r@ == provider_name(self.id()),
    ;

    /// Whether the provider recognises the tree.
    fn detect(&self, app: &App, env: &Environment) -> (r: Result<bool, Error>)
        ensures
            r == detects(self.id(), app@, env@),
    ;

    /// The packages and libraries that the application needs.
    fn setup(&self, app: &App, env: &Environment) -> (r: Result<Option<SetupPhase>, Error>)
        ensures
            match setup_of(self.id(), app@, env@) {
                Ok(phase) => r is Ok && r->Ok_0.deep_view() == phase,
                Err(e) => r == Err::<Option<SetupPhase>, Error>(e),
            },
    ;

    /// The command that installs the application's dependencies.
    fn install(&self, app: &App, env: &Environment) -> (r: Result<Option<InstallPhase>, Error>)
        ensures
            match install_of(self.id(), app@, env@) {
                Ok(phase) => r is Ok && r->Ok_0.deep_view() == phase,
                Err(e) => r == Err::<Option<InstallPhase>, Error>(e),
            },
    ;

    /// The command that builds the application.
    fn build(&self, app: &App, env: &Environment) -> (r: Result<Option<BuildPhase>, Error>)
        ensures
            match build_of(self.id(), app@, env@) {
                Ok(phase) => r is Ok && r->Ok_0.deep_view() == phase,
                Err(e) => r == Err::<Option<BuildPhase>, Error>(e),
            },
    ;

    /// The command that starts the application.
    fn start(&self, app: &App, env: &Environment) -> (r: Result<Option<StartPhase>, Error>)
        ensures
            match start_of(self.id(), app@, env@) {
                Ok(phase) => r is Ok && r->Ok_0.deep_view() == phase,
                Err(e) => r == Err::<Option<StartPhase>, Error>(e),
            },
    ;

    /// The variables to build and run the application with.
    fn environment_variables(&self, app: &App, env: &Environment) -> (r: Result<
        Option<StringMap>,
        Error,
    >)
        ensures
            match variables_of(self.id(), app@, env@) {
                Ok(Some(variables)) => r is Ok && r->Ok_0 is Some && r->Ok_0->Some_0@ == variables,
                Ok(None) => r is Ok && r->Ok_0 is None,
                Err(e) => r == Err::<Option<StringMap>, Error>(e),
            },
    ;
}

/// The providers in the order in which they are asked: Deno before Node.js.
pub open spec fn registry() -> Seq<ProviderId> {
    seq![ProviderId::Deno, ProviderId::Node]
}

/// The providers in the order in which they are asked.
pub fn get_providers() -> (r: Vec<ProviderId>)
    ensures
        r@ == registry(),
{
    let mut providers: Vec<ProviderId> = Vec::new();
    providers.push(ProviderId::Deno);
    providers.push(ProviderId::Node);
    proof {
        assert(providers@ =~= registry());
    }
    providers
}

} // verus!
