//! The commands on profiles, as far as they decide: which profile a run
//! takes and what it expands to, what a new profile starts with, and which
//! profile becomes the active one.

use crate::config::{
    config_error_text, has_profile, layers_of, ConfigError, ConfigErrorView, ProfileConfig,
    ProfileConfigView,
};
use crate::layer::{opt_text, Layer, LayerView, ModloaderDef};
use crate::resolver::{
    expansion, malformed_tree_text, ProfileView, ResolveError, ResolveErrorView, Variant,
    VariantView,
};
use vstd::prelude::*;

verus! {

/// What a run is about: the profile that was chosen, and its variants.
#[derive(Debug)]
pub struct RunPlan {
    pub name: String,
    pub variants: Vec<Variant>,
}

/// The mathematical value of a [`RunPlan`].
pub struct RunPlanView {
    pub name: Seq<char>,
    pub variants: Seq<VariantView>,
}

impl View for RunPlan {
    type V = RunPlanView;

    open spec fn view(&self) -> RunPlanView {
        RunPlanView { name: self.name@, variants: self.variants.deep_view() }
    }
}

/// Why a run cannot begin.
#[derive(Debug)]
pub enum RunError {
    /// No profile could be chosen, or the chosen one does not exist.
    Config(ConfigError),
    /// The layers of the chosen profile are malformed.
    Resolve(ResolveError),
}

/// The mathematical value of a [`RunError`].
pub enum RunErrorView {
    Config(ConfigErrorView),
    Resolve(ResolveErrorView),
}

impl View for RunError {
    type V = RunErrorView;

    open spec fn view(&self) -> RunErrorView {
        match *self {
            RunError::Config(error) => RunErrorView::Config(error@),
            RunError::Resolve(error) => RunErrorView::Resolve(error@),
        }
    }
}

impl RunError {
    /// The error in words.
    pub fn message(&self) -> (text: String)
        ensures
            match *self {
                RunError::Config(error) => text@ == config_error_text(error@),
                RunError::Resolve(error) => error@ matches ResolveErrorView::MalformedTree { name }
                    && text@ == malformed_tree_text() + name,
            },
    {
        match self {
            RunError::Config(error) => error.message(),
            RunError::Resolve(error) => error.message(),
        }
    }
}

/// The name of the profile a run takes: the one given, else the active one.
pub open spec fn chosen_name(name: Option<Seq<char>>, active: Option<Seq<char>>) -> Option<
    Seq<char>,
> {
    match name {
        Some(name) => Some(name),
        None => active,
    }
}

/// What a run of `name` on the store `config` is about.
///
/// The profile is the one named, else the active one; with neither, the
/// caller is asked to name one. A name that no profile bears is refused. The
/// variants are those of the profile's layers, named after the profile.
pub open spec fn run_plan(name: Option<Seq<char>>, config: ProfileConfigView) -> Result<
    RunPlanView,
    RunErrorView,
> {
    match chosen_name(name, config.active_config) {
        None => Err(RunErrorView::Config(ConfigErrorView::NoProfileSelected)),
        Some(chosen) => match layers_of(config.profiles, chosen) {
            None => Err(RunErrorView::Config(ConfigErrorView::UnknownProfile { name: chosen })),
            Some(layers) => match expansion(layers, chosen) {
                Ok(variants) => Ok(RunPlanView { name: chosen, variants }),
                Err(error) => Err(RunErrorView::Resolve(error)),
            },
        },
    }
}

/// The mathematical value of the outcome of planning a run.
pub open spec fn plan_view(outcome: Result<RunPlan, RunError>) -> Result<RunPlanView, RunErrorView> {
    match outcome {
        Ok(plan) => Ok(plan@),
        Err(error) => Err(error@),
    }
}

/// What a run of `name` on the store `config` is about: the profile that is
/// chosen and the variants it expands to. Nothing is constructed yet.
pub fn run(name: Option<String>, config: &ProfileConfig) -> (outcome: Result<RunPlan, RunError>)
    ensures
        plan_view(outcome) == run_plan(opt_text(name), config@),
{
    let chosen = match config.resolve_name(name) {
        Ok(chosen) => chosen,
        Err(error) => {
            return Err(RunError::Config(error));
        },
    };
    let profile = match config.get(&chosen) {
        Some(profile) => profile.clone(),
        None => {
            return Err(RunError::Config(ConfigError::UnknownProfile { name: chosen }));
        },
    };
    match profile.get_variants(chosen.clone()) {
        Ok(variants) => Ok(RunPlan { name: chosen, variants }),
        Err(error) => Err(RunError::Resolve(error)),
    }
}

/// What a new profile starts with.
#[derive(Debug)]
pub enum Starter {
    /// No layer at all.
    Empty,
    /// The base system in the version `version`, without a loader.
    Vanilla { version: String },
    /// The base system in the version `version`, with the loader `loader` in
    /// the version `loader_version`.
    Modded { version: String, loader: ModloaderDef, loader_version: String },
}

/// The mathematical value of a [`Starter`].
pub enum StarterView {
    Empty,
    Vanilla { version: Seq<char> },
    Modded { version: Seq<char>, loader: ModloaderDef, loader_version: Seq<char> },
}

impl View for Starter {
    type V = StarterView;

    open spec fn view(&self) -> StarterView {
        match *self {
            Starter::Empty => StarterView::Empty,
            Starter::Vanilla { version } => StarterView::Vanilla { version: version@ },
            Starter::Modded { version, loader, loader_version } => StarterView::Modded {
                version: version@,
                loader,
                loader_version: loader_version@,
            },
        }
    }
}

/// The layers a new profile starts with: none, or the one layer that asks for
/// the environment. A loader version counts only with a loader: the plain
/// base system has none.
pub open spec fn starter_layers(starter: StarterView) -> Seq<LayerView> {
    match starter {
        StarterView::Empty => Seq::empty(),
        StarterView::Vanilla { version } => seq![
            LayerView::Instance { version, loader: ModloaderDef::Vanilla, loader_version: None },
        ],
        StarterView::Modded { version, loader, loader_version } => seq![
            LayerView::Instance {
                version,
                loader,
                loader_version: if loader == ModloaderDef::Vanilla {
                    None
                } else {
                    Some(loader_version)
                },
            },
        ],
    }
}

impl Starter {
    /// The layers a new profile starts with.
    pub fn layers(self) -> (layers: Vec<Layer>)
        ensures
            layers.deep_view() == starter_layers(self@),
    {
        let layers = match self {
            Starter::Empty => Vec::new(),
            Starter::Vanilla { version } => vec![
                Layer::Instance { version, loader: ModloaderDef::Vanilla, loader_version: None },
            ],
            Starter::Modded { version, loader, loader_version } => {
                let loader_version = match loader {
                    ModloaderDef::Vanilla => None,
                    _ => Some(loader_version),
                };
                vec![Layer::Instance { version, loader, loader_version }]
            },
        };
        assert(layers.deep_view() =~= starter_layers(self@));
        layers
    }
}

/// Adds the profile called `name` to the store, with the layers of `starter`.
/// A name that is taken is refused, and the store stays as it was.
pub fn create(name: String, starter: Starter, config: &mut ProfileConfig) -> (outcome: Result<
    (),
    ConfigError,
>)
    ensures
        has_profile(old(config)@.profiles, name@) ==> (outcome matches Err(error) && error@ == (
        ConfigErrorView::ProfileExists { name: name@ })) && final(config)@ == old(config)@,
        !has_profile(old(config)@.profiles, name@) ==> outcome is Ok && final(config)@ == (
        ProfileConfigView {
            profiles: old(config)@.profiles.push(
                ProfileView { name: name@, layers: starter_layers(starter@) },
            ),
            ..old(config)@
        }),
{
    config.create_profile(name, starter.layers())
}

/// Makes the profile called `name` the active one, or clears the selection
/// where no name is given. A name that no profile bears is refused, and the
/// store stays as it was.
pub fn switch(name: Option<String>, config: &mut ProfileConfig) -> (outcome: Result<
    (),
    ConfigError,
>)
    ensures
        match name {
            Some(name) => if has_profile(old(config)@.profiles, name@) {
                outcome is Ok && final(config)@ == (ProfileConfigView {
                    active_config: Some(name@),
                    ..old(config)@
                })
            } else {
                (outcome matches Err(error) && error@ == (ConfigErrorView::UnknownProfile {
                    name: name@,
                })) && final(config)@ == old(config)@
            },
            None => outcome is Ok && final(config)@ == (ProfileConfigView {
                active_config: None,
                ..old(config)@
            }),
        },
{
    config.set_active_profile(name)
}

} // verus!
