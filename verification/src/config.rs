//! The profile store: the named profiles of a user and the one that is
//! active. The document is read and written by the caller; what is kept here
//! is its content and the rules for changing it.

use crate::layer::{opt_text, Layer, LayerView};
use crate::resolver::{Profile, ProfileView};
use vstd::prelude::*;
use vstd::string::*;

verus! {

/// Whether no two profiles of the list bear the same name.
pub open spec fn names_unique(profiles: Seq<ProfileView>) -> bool {
    forall|i: int, j: int|
        0 <= i < j < profiles.len() ==> (#[trigger] profiles[i]).name != (#[trigger] profiles[j]).name
}

/// Whether a profile of the list bears the name `name`.
pub open spec fn has_profile(profiles: Seq<ProfileView>, name: Seq<char>) -> bool {
    exists|i: int| 0 <= i < profiles.len() && (#[trigger] profiles[i]).name == name
}

/// The layers of the first profile called `name`.
pub open spec fn layers_of(profiles: Seq<ProfileView>, name: Seq<char>) -> Option<Seq<LayerView>>
    decreases profiles.len(),
{
    if profiles.len() == 0 {
        None
    } else if profiles[0].name == name {
        Some(profiles[0].layers)
    } else {
        layers_of(profiles.drop_first(), name)
    }
}

/// The names of the profiles, in the order of the list.
pub open spec fn profile_names(profiles: Seq<ProfileView>) -> Seq<Seq<char>> {
    Seq::new(profiles.len(), |i: int| profiles[i].name)
}

/// The texts of a list of strings.
pub open spec fn texts(names: Seq<String>) -> Seq<Seq<char>> {
    Seq::new(names.len(), |i: int| names[i]@)
}

/// A profile is found by name exactly where the list has one of that name.
pub proof fn lemma_layers_of(profiles: Seq<ProfileView>, name: Seq<char>)
    ensures
        layers_of(profiles, name) is Some <==> has_profile(profiles, name),
        forall|i: int|
            0 <= i < profiles.len() && names_unique(profiles) && (#[trigger] profiles[i]).name
                == name ==> layers_of(profiles, name) == Some(profiles[i].layers),
    decreases profiles.len(),
{
    if profiles.len() > 0 {
        let rest = profiles.drop_first();
        lemma_layers_of(rest, name);
        if profiles[0].name == name {
            assert(has_profile(profiles, name));
            assert forall|i: int|
                0 <= i < profiles.len() && names_unique(profiles) && (#[trigger] profiles[i]).name
                    == name implies layers_of(profiles, name) == Some(profiles[i].layers) by {
                if i > 0 {
                    assert(profiles[0].name != profiles[i].name);
                }
            }
        } else {
            if has_profile(rest, name) {
                let k = choose|k: int| 0 <= k < rest.len() && (#[trigger] rest[k]).name == name;
                assert(profiles[k + 1] == rest[k]);
            }
            if has_profile(profiles, name) {
                let k = choose|k: int|
                    0 <= k < profiles.len() && (#[trigger] profiles[k]).name == name;
                assert(rest[k - 1] == profiles[k]);
            }
            assert forall|i: int|
                0 <= i < profiles.len() && names_unique(profiles) && (#[trigger] profiles[i]).name
                    == name implies layers_of(profiles, name) == Some(profiles[i].layers) by {
                assert(rest[i - 1] == profiles[i]);
                assert forall|a: int, b: int| 0 <= a < b < rest.len() implies (#[trigger] rest[a]).name
                    != (#[trigger] rest[b]).name by {
                    assert(rest[a] == profiles[a + 1]);
                    assert(rest[b] == profiles[b + 1]);
                }
            }
        }
    }
}

/// Why the profile store refused a document or a change.
#[derive(Debug)]
pub enum ConfigError {
    /// A profile of that name exists already.
    ProfileExists { name: String },
    /// No profile bears that name.
    UnknownProfile { name: String },
    /// No profile was named and none is active.
    NoProfileSelected,
    /// The document is not a profile document.
    InvalidFormat { reason: String },
    /// The document could be neither read nor created.
    Unreadable { reason: String },
    /// The document could not be written: what is on disk may differ from
    /// what is kept in memory.
    NotSaved { reason: String },
}

/// The mathematical value of a [`ConfigError`].
pub enum ConfigErrorView {
    ProfileExists { name: Seq<char> },
    UnknownProfile { name: Seq<char> },
    NoProfileSelected,
    InvalidFormat { reason: Seq<char> },
    Unreadable { reason: Seq<char> },
    NotSaved { reason: Seq<char> },
}

impl View for ConfigError {
    type V = ConfigErrorView;

    open spec fn view(&self) -> ConfigErrorView {
        match *self {
            ConfigError::ProfileExists { name } => ConfigErrorView::ProfileExists { name: name@ },
            ConfigError::UnknownProfile { name } => ConfigErrorView::UnknownProfile { name: name@ },
            ConfigError::NoProfileSelected => ConfigErrorView::NoProfileSelected,
            ConfigError::InvalidFormat { reason } => ConfigErrorView::InvalidFormat {
                reason: reason@,
            },
            ConfigError::Unreadable { reason } => ConfigErrorView::Unreadable { reason: reason@ },
            ConfigError::NotSaved { reason } => ConfigErrorView::NotSaved { reason: reason@ },
        }
    }
}

/// A store error in words.
pub open spec fn config_error_text(error: ConfigErrorView) -> Seq<char> {
    match error {
        ConfigErrorView::ProfileExists { name } => "profile already exists: "@ + name,
        ConfigErrorView::UnknownProfile { name } => "profile does not exist: "@ + name,
        ConfigErrorView::NoProfileSelected => "no profile was named and none is active: name the profile to use"@,
        ConfigErrorView::InvalidFormat { reason } => "profile config format invalid: "@ + reason,
        ConfigErrorView::Unreadable { reason } => "could not read or create config file: "@
            + reason,
        ConfigErrorView::NotSaved { reason } => "error saving config, state may now be inconsistent with disk: "@
            + reason,
    }
}

impl ConfigError {
    /// The error in words.
    pub fn message(&self) -> (text: String)
        ensures
            text@ == config_error_text(self@),
    {
        match self {
            ConfigError::ProfileExists { name } => {
                String::from_str("profile already exists: ").concat(name.as_str())
            },
            ConfigError::UnknownProfile { name } => {
                String::from_str("profile does not exist: ").concat(name.as_str())
            },
            ConfigError::NoProfileSelected => String::from_str(
                "no profile was named and none is active: name the profile to use",
            ),
            ConfigError::InvalidFormat { reason } => {
                String::from_str("profile config format invalid: ").concat(reason.as_str())
            },
            ConfigError::Unreadable { reason } => {
                String::from_str("could not read or create config file: ").concat(reason.as_str())
            },
            ConfigError::NotSaved { reason } => {
                String::from_str(
                    "error saving config, state may now be inconsistent with disk: ",
                ).concat(reason.as_str())
            },
        }
    }
}

/// The profiles of a user, the name of the active one, and the path of the
/// document they are kept in. No two profiles bear the same name.
#[derive(Debug)]
pub struct ProfileConfig {
    profiles: Vec<Profile>,
    active_config: Option<String>,
    path: String,
}

/// The mathematical value of a [`ProfileConfig`].
pub struct ProfileConfigView {
    pub profiles: Seq<ProfileView>,
    pub active_config: Option<Seq<char>>,
    pub path: Seq<char>,
}

impl View for ProfileConfig {
    type V = ProfileConfigView;

    closed spec fn view(&self) -> ProfileConfigView {
        ProfileConfigView {
            profiles: self.profiles.deep_view(),
            active_config: opt_text(self.active_config),
            path: self.path@,
        }
    }
}

/// What reading the document at a path came to.
#[derive(Debug)]
pub enum LoadOutcome {
    /// The document was read and holds these profiles and this selection.
    Document { profiles: Vec<Profile>, active_config: Option<String> },
    /// The file was read and is no profile document.
    Invalid { reason: String },
    /// There is no file at the path.
    Missing,
    /// The file could not be read.
    Unreadable { reason: String },
}

/// The mathematical value of a [`LoadOutcome`].
pub enum LoadOutcomeView {
    Document { profiles: Seq<ProfileView>, active_config: Option<Seq<char>> },
    Invalid { reason: Seq<char> },
    Missing,
    Unreadable { reason: Seq<char> },
}

impl View for LoadOutcome {
    type V = LoadOutcomeView;

    open spec fn view(&self) -> LoadOutcomeView {
        match *self {
            LoadOutcome::Document { profiles, active_config } => LoadOutcomeView::Document {
                profiles: profiles.deep_view(),
                active_config: opt_text(active_config),
            },
            LoadOutcome::Invalid { reason } => LoadOutcomeView::Invalid { reason: reason@ },
            LoadOutcome::Missing => LoadOutcomeView::Missing,
            LoadOutcome::Unreadable { reason } => LoadOutcomeView::Unreadable { reason: reason@ },
        }
    }
}

/// A store that was loaded, and whether its document must be written first.
#[derive(Debug)]
pub struct Loaded {
    pub config: ProfileConfig,
    pub created: bool,
}

/// The first name that two profiles of the list share, by the position of its
/// second bearer.
pub open spec fn first_duplicate(profiles: Seq<ProfileView>) -> Option<Seq<char>>
    decreases profiles.len(),
{
    if profiles.len() == 0 {
        None
    } else {
        match first_duplicate(profiles.drop_last()) {
            Some(name) => Some(name),
            None => if has_profile(profiles.drop_last(), profiles.last().name) {
                Some(profiles.last().name)
            } else {
                None
            },
        }
    }
}

/// A list has a duplicate exactly where its names are not unique.
pub proof fn lemma_first_duplicate(profiles: Seq<ProfileView>)
    ensures
        first_duplicate(profiles) is None <==> names_unique(profiles),
    decreases profiles.len(),
{
    if profiles.len() > 0 {
        let front = profiles.drop_last();
        let last = profiles.last();
        lemma_first_duplicate(front);
        if names_unique(profiles) {
            assert forall|i: int, j: int| 0 <= i < j < front.len() implies (#[trigger] front[i]).name
                != (#[trigger] front[j]).name by {
                assert(front[i] == profiles[i]);
                assert(front[j] == profiles[j]);
            }
            if has_profile(front, last.name) {
                let k = choose|k: int| 0 <= k < front.len() && (#[trigger] front[k]).name == last.name;
                assert(front[k] == profiles[k]);
                assert(profiles[k].name != profiles[profiles.len() - 1].name);
            }
        }
        if first_duplicate(profiles) is None {
            assert forall|i: int, j: int| 0 <= i < j < profiles.len() implies (
            #[trigger] profiles[i]).name != (#[trigger] profiles[j]).name by {
                if j < front.len() {
                    assert(front[i] == profiles[i]);
                    assert(front[j] == profiles[j]);
                } else {
                    assert(front[i] == profiles[i]);
                }
            }
        }
    }
}

/// What a load comes to, at its mathematical value: the store, and whether
/// its document must be written first.
pub open spec fn loaded(path: Seq<char>, outcome: LoadOutcomeView) -> Result<
    (ProfileConfigView, bool),
    ConfigErrorView,
> {
    match outcome {
        LoadOutcomeView::Document { profiles, active_config } => match first_duplicate(profiles) {
            Some(name) => Err(ConfigErrorView::ProfileExists { name }),
            None => Ok((ProfileConfigView { profiles, active_config, path }, false)),
        },
        LoadOutcomeView::Invalid { reason } => Err(ConfigErrorView::InvalidFormat { reason }),
        LoadOutcomeView::Missing => Ok(
            (ProfileConfigView { profiles: Seq::empty(), active_config: None, path }, true),
        ),
        LoadOutcomeView::Unreadable { reason } => Err(ConfigErrorView::Unreadable { reason }),
    }
}

/// The mathematical value of the outcome of a load.
pub open spec fn loaded_view(outcome: Result<Loaded, ConfigError>) -> Result<
    (ProfileConfigView, bool),
    ConfigErrorView,
> {
    match outcome {
        Ok(loaded) => Ok((loaded.config@, loaded.created)),
        Err(error) => Err(error@),
    }
}

/// The mathematical value of the outcome of building a store.
pub open spec fn config_view(outcome: Result<ProfileConfig, ConfigError>) -> Result<
    ProfileConfigView,
    ConfigErrorView,
> {
    match outcome {
        Ok(config) => Ok(config@),
        Err(error) => Err(error@),
    }
}

/// The index of the profile called `name` among the first `end` of the list.
fn index_of(profiles: &Vec<Profile>, end: usize, name: &String) -> (found: Option<usize>)
    requires
        end <= profiles.len(),
    ensures
        match found {
            Some(i) => i < end && profiles.deep_view()[i as int].name == name@,
            None => forall|i: int| 0 <= i < end ==> (#[trigger] profiles.deep_view()[i]).name != name@,
        },
{
    let mut i: usize = 0;
    while i < end
        invariant
            i <= end <= profiles.len(),
            forall|j: int| 0 <= j < i ==> (#[trigger] profiles.deep_view()[j]).name != name@,
        decreases end - i,
    {
        if profiles[i].name == *name {
            return Some(i);
        }
        i += 1;
    }
    None
}

impl ProfileConfig {
    #[verifier::type_invariant]
    spec fn names_differ(self) -> bool {
        names_unique(self.profiles.deep_view())
    }

    /// The empty store kept at `path`.
    pub fn new(path: String) -> (config: Self)
        ensures
            config@ == (ProfileConfigView {
                profiles: Seq::empty(),
                active_config: None,
                path: path@,
            }),
    {
        let profiles: Vec<Profile> = Vec::new();
        assert(profiles.deep_view() =~= Seq::<ProfileView>::empty());
        ProfileConfig { profiles, active_config: None, path }
    }

    /// The store of `profiles` with the selection `active_config`, kept at
    /// `path`; refused where two profiles share a name.
    pub fn from_parts(profiles: Vec<Profile>, active_config: Option<String>, path: String) -> (outcome:
        Result<Self, ConfigError>)
        ensures
            config_view(outcome) == match first_duplicate(profiles.deep_view()) {
                Some(name) => Err::<ProfileConfigView, ConfigErrorView>(
                    ConfigErrorView::ProfileExists { name },
                ),
                None => Ok(
                    ProfileConfigView {
                        profiles: profiles.deep_view(),
                        active_config: opt_text(active_config),
                        path: path@,
                    },
                ),
            },
    {
        let ghost all = profiles.deep_view();
        let mut i: usize = 0;
        assert(all.take(0) =~= Seq::<ProfileView>::empty());
        while i < profiles.len()
            invariant
                i <= profiles.len(),
                all == profiles.deep_view(),
                first_duplicate(all.take(i as int)) is None,
            decreases profiles.len() - i,
        {
            let ghost upto = all.take(i + 1);
            proof {
                assert(upto.drop_last() =~= all.take(i as int));
                assert(upto.last() == all[i as int]);
            }
            match index_of(&profiles, i, &profiles[i].name) {
                Some(k) => {
                    proof {
                        assert(all.take(i as int)[k as int] == all[k as int]);
                        assert(has_profile(all.take(i as int), all[i as int].name));
                        lemma_first_duplicate_prefix(all, i + 1);
                    }
                    return Err(ConfigError::ProfileExists { name: profiles[i].name.clone() });
                },
                None => {
                    proof {
                        if has_profile(all.take(i as int), all[i as int].name) {
                            let k = choose|k: int|
                                0 <= k < all.take(i as int).len() && (#[trigger] all.take(
                                    i as int,
                                )[k]).name == all[i as int].name;
                            assert(all.take(i as int)[k] == all[k]);
                        }
                    }
                },
            }
            i += 1;
        }
        proof {
            assert(all.take(profiles.len() as int) =~= all);
            lemma_first_duplicate(all);
        }
        Ok(ProfileConfig { profiles, active_config, path })
    }

    /// The store that reading the document at `path` came to. A document that
    /// is missing gives the empty store, which is to be written first.
    pub fn read_or_create(path: String, outcome: LoadOutcome) -> (result: Result<Loaded, ConfigError>)
        ensures
            loaded_view(result) == loaded(path@, outcome@),
    {
        match outcome {
            LoadOutcome::Document { profiles, active_config } => {
                match Self::from_parts(profiles, active_config, path) {
                    Ok(config) => Ok(Loaded { config, created: false }),
                    Err(error) => Err(error),
                }
            },
            LoadOutcome::Invalid { reason } => Err(ConfigError::InvalidFormat { reason }),
            LoadOutcome::Missing => Ok(Loaded { config: Self::new(path), created: true }),
            LoadOutcome::Unreadable { reason } => Err(ConfigError::Unreadable { reason }),
        }
    }

    /// The profiles of the store, in the order in which they were added. No
    /// two of them bear the same name.
    pub fn profiles(&self) -> (profiles: &Vec<Profile>)
        ensures
            profiles.deep_view() == self@.profiles,
            names_unique(self@.profiles),
    {
        proof {
            use_type_invariant(self);
        }
        &self.profiles
    }

    /// The name of the active profile, if one is selected.
    pub fn active_config(&self) -> (active: &Option<String>)
        ensures
            opt_text(*active) == self@.active_config,
    {
        &self.active_config
    }

    /// The path of the document the store is kept in.
    pub fn path(&self) -> (path: &String)
        ensures
            path@ == self@.path,
    {
        &self.path
    }

    /// The names of the profiles, in the order in which they were added.
    pub fn list_profiles(&self) -> (names: Vec<String>)
        ensures
            texts(names@) == profile_names(self@.profiles),
    {
        let mut names: Vec<String> = Vec::new();
        let mut i: usize = 0;
        while i < self.profiles.len()
            invariant
                i <= self.profiles.len(),
                names.len() == i,
                forall|j: int| 0 <= j < i ==> names@[j]@ == self.profiles.deep_view()[j].name,
            decreases self.profiles.len() - i,
        {
            names.push(self.profiles[i].name.clone());
            i += 1;
        }
        assert(texts(names@) =~= profile_names(self@.profiles));
        names
    }

    /// Whether the store holds a profile called `name`.
    pub fn contains(&self, name: &String) -> (found: bool)
        ensures
            found == has_profile(self@.profiles, name@),
    {
        match index_of(&self.profiles, self.profiles.len(), name) {
            Some(_) => true,
            None => false,
        }
    }

    /// The profile called `name`.
    pub fn get(&self, name: &String) -> (found: Option<&Profile>)
        ensures
            match found {
                Some(profile) => profile@.name == name@ && layers_of(self@.profiles, name@)
                    == Some(profile@.layers),
                None => layers_of(self@.profiles, name@) is None,
            },
    {
        proof {
            use_type_invariant(self);
            lemma_layers_of(self@.profiles, name@);
        }
        match index_of(&self.profiles, self.profiles.len(), name) {
            Some(i) => Some(&self.profiles[i]),
            None => None,
        }
    }

    /// Adds the profile called `name` with the layers `layers` at the end of
    /// the store. A name that is taken is refused, and the store stays as it
    /// was.
    pub fn create_profile(&mut self, name: String, layers: Vec<Layer>) -> (outcome: Result<
        (),
        ConfigError,
    >)
        ensures
            has_profile(old(self)@.profiles, name@) ==> (outcome matches Err(error) && error@
                == (ConfigErrorView::ProfileExists { name: name@ })) && final(self)@ == old(self)@,
            !has_profile(old(self)@.profiles, name@) ==> outcome is Ok && final(self)@ == (
            ProfileConfigView {
                profiles: old(self)@.profiles.push(
                    ProfileView { name: name@, layers: layers.deep_view() },
                ),
                ..old(self)@
            }),
            names_unique(final(self)@.profiles),
    {
        proof {
            use_type_invariant(&*self);
        }
        if self.contains(&name) {
            return Err(ConfigError::ProfileExists { name });
        }
        let ghost before = self.profiles.deep_view();
        let ghost added = ProfileView { name: name@, layers: layers.deep_view() };
        let mut taken = ProfileConfig::new(String::new());
        core::mem::swap(self, &mut taken);
        let ProfileConfig { mut profiles, active_config, path } = taken;
        profiles.push(Profile { name, layers });
        proof {
            assert(profiles.deep_view() =~= before.push(added));
            assert forall|i: int, j: int| 0 <= i < j < before.push(added).len() implies (
            #[trigger] before.push(added)[i]).name != (#[trigger] before.push(added)[j]).name by {
                if j < before.len() {
                    assert(before[i].name != before[j].name);
                } else {
                    assert(before[i].name != added.name);
                }
            }
        }
        *self = ProfileConfig { profiles, active_config, path };
        Ok(())
    }

    /// Selects the profile called `name` as the active one, or clears the
    /// selection where no name is given. A name that no profile bears is
    /// refused, and the store stays as it was.
    pub fn set_active_profile(&mut self, name: Option<String>) -> (outcome: Result<(), ConfigError>)
        ensures
            match name {
                Some(name) => if has_profile(old(self)@.profiles, name@) {
                    outcome is Ok && final(self)@ == (ProfileConfigView {
                        active_config: Some(name@),
                        ..old(self)@
                    })
                } else {
                    (outcome matches Err(error) && error@ == (ConfigErrorView::UnknownProfile {
                        name: name@,
                    })) && final(self)@ == old(self)@
                },
                None => outcome is Ok && final(self)@ == (ProfileConfigView {
                    active_config: None,
                    ..old(self)@
                }),
            },
    {
        proof {
            use_type_invariant(&*self);
        }
        match name {
            Some(name) => {
                if self.contains(&name) {
                    self.active_config = Some(name);
                    Ok(())
                } else {
                    Err(ConfigError::UnknownProfile { name })
                }
            },
            None => {
                self.active_config = None;
                Ok(())
            },
        }
    }

    /// The name of the profile to use: the one given, else the active one. With
    /// neither, the caller is asked to name one.
    pub fn resolve_name(&self, name: Option<String>) -> (outcome: Result<String, ConfigError>)
        ensures
            match outcome {
                Ok(chosen) => match name {
                    Some(name) => chosen@ == name@,
                    None => self@.active_config == Some(chosen@),
                },
                Err(error) => name is None && self@.active_config is None && error@
                    == ConfigErrorView::NoProfileSelected,
            },
    {
        match name {
            Some(name) => Ok(name),
            None => match &self.active_config {
                Some(active) => Ok(active.clone()),
                None => Err(ConfigError::NoProfileSelected),
            },
        }
    }
}

/// A duplicate among the first profiles is a duplicate of the whole list.
pub proof fn lemma_first_duplicate_prefix(profiles: Seq<ProfileView>, end: int)
    requires
        0 <= end <= profiles.len(),
        first_duplicate(profiles.take(end)) is Some,
    ensures
        first_duplicate(profiles) == first_duplicate(profiles.take(end)),
    decreases profiles.len() - end,
{
    if end < profiles.len() {
        assert(profiles.take(end + 1).drop_last() =~= profiles.take(end));
        lemma_first_duplicate_prefix(profiles, end + 1);
    } else {
        assert(profiles.take(end) =~= profiles);
    }
}

} // verus!
