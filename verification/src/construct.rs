//! Construction: the steps of one variant are applied in order to an evolving
//! subject. The work on disk and the provisioning of environments are done by
//! the caller; what is decided here is which work each step asks for, what the
//! answer means, and when the variant is constructed or has failed.

use crate::launch::{
    launch_parameters, Account, AccountView, LaunchParameters, LaunchParametersView, PrepareError,
    PrepareErrorView,
};
use crate::layer::{
    clone_opt_text, default_launch_options, opt_text, LaunchOptions, LaunchOptionsView,
    ModloaderDef, ResolvedLayer, ResolvedLayerView,
};
use crate::report::{frame, framed, Stage};
use crate::resolver::Variant;
use vstd::prelude::*;
use vstd::string::*;

verus! {

/// What identifies an environment on disk: where it lies, and the base-system
/// version and loader it was provisioned with.
#[derive(Debug)]
pub struct EnvironmentHandle {
    pub path: String,
    pub version: String,
    pub loader: ModloaderDef,
}

/// The mathematical value of an [`EnvironmentHandle`].
pub struct EnvironmentHandleView {
    pub path: Seq<char>,
    pub version: Seq<char>,
    pub loader: ModloaderDef,
}

impl View for EnvironmentHandle {
    type V = EnvironmentHandleView;

    open spec fn view(&self) -> EnvironmentHandleView {
        EnvironmentHandleView { path: self.path@, version: self.version@, loader: self.loader }
    }
}

impl Clone for EnvironmentHandle {
    fn clone(&self) -> (copy: Self)
        ensures
            copy@ == self@,
    {
        EnvironmentHandle {
            path: self.path.clone(),
            version: self.version.clone(),
            loader: self.loader,
        }
    }
}

/// What construction works on: a bare target path as long as no environment
/// exists, and the environment from then on.
#[derive(Debug)]
pub enum Subject {
    Directory(String),
    Environment(EnvironmentHandle),
}

/// The mathematical value of a [`Subject`].
pub enum SubjectView {
    Directory(Seq<char>),
    Environment(EnvironmentHandleView),
}

impl SubjectView {
    /// Where the subject lies.
    pub open spec fn path(self) -> Seq<char> {
        match self {
            SubjectView::Directory(path) => path,
            SubjectView::Environment(handle) => handle.path,
        }
    }
}

impl View for Subject {
    type V = SubjectView;

    open spec fn view(&self) -> SubjectView {
        match *self {
            Subject::Directory(path) => SubjectView::Directory(path@),
            Subject::Environment(handle) => SubjectView::Environment(handle@),
        }
    }
}

impl Subject {
    /// Where the subject lies.
    pub fn path(&self) -> (path: &String)
        ensures
            path@ == self@.path(),
    {
        match self {
            Subject::Directory(path) => path,
            Subject::Environment(handle) => &handle.path,
        }
    }

    /// The environment, if the subject is one.
    pub fn environment(self) -> (handle: Option<EnvironmentHandle>)
        ensures
            match handle {
                Some(handle) => self@ == SubjectView::Environment(handle@),
                None => self@ is Directory,
            },
    {
        match self {
            Subject::Directory(_) => None,
            Subject::Environment(handle) => Some(handle),
        }
    }
}

/// Work that a step asks its caller to do.
#[derive(Debug)]
pub enum ConstructAction {
    /// Find out whether `target`, below `root`, exists and is a directory.
    ProbeDirectory { root: String, target: String },
    /// Remove the directory `target`, below `root`, with all it holds.
    RemoveDirectory { root: String, target: String },
    /// Create or open the environment at `root`.
    ProvisionEnvironment {
        root: String,
        version: String,
        loader: ModloaderDef,
        loader_version: Option<String>,
    },
    /// Copy all that `source`, below `root`, holds onto `root`, overwriting files.
    OverlayDirectory { root: String, source: String },
    /// Run `command` through the platform's shell in `working_directory`.
    RunCommand { command: String, working_directory: String },
}

/// The mathematical value of a [`ConstructAction`].
pub enum ConstructActionView {
    ProbeDirectory { root: Seq<char>, target: Seq<char> },
    RemoveDirectory { root: Seq<char>, target: Seq<char> },
    ProvisionEnvironment {
        root: Seq<char>,
        version: Seq<char>,
        loader: ModloaderDef,
        loader_version: Option<Seq<char>>,
    },
    OverlayDirectory { root: Seq<char>, source: Seq<char> },
    RunCommand { command: Seq<char>, working_directory: Seq<char> },
}

impl View for ConstructAction {
    type V = ConstructActionView;

    open spec fn view(&self) -> ConstructActionView {
        match *self {
            ConstructAction::ProbeDirectory { root, target } => ConstructActionView::ProbeDirectory {
                root: root@,
                target: target@,
            },
            ConstructAction::RemoveDirectory { root, target } => {
                ConstructActionView::RemoveDirectory { root: root@, target: target@ }
            },
            ConstructAction::ProvisionEnvironment { root, version, loader, loader_version } => {
                ConstructActionView::ProvisionEnvironment {
                    root: root@,
                    version: version@,
                    loader,
                    loader_version: opt_text(loader_version),
                }
            },
            ConstructAction::OverlayDirectory { root, source } => {
                ConstructActionView::OverlayDirectory { root: root@, source: source@ }
            },
            ConstructAction::RunCommand { command, working_directory } => {
                ConstructActionView::RunCommand {
                    command: command@,
                    working_directory: working_directory@,
                }
            },
        }
    }
}

/// What a step is told: that it is its turn, or how the work it asked for ended.
#[derive(Debug)]
pub enum ConstructEvent {
    /// The step is reached; nothing was done for it yet.
    Started,
    /// The probed path is, or is not, an existing directory.
    DirectoryProbed { is_directory: bool },
    /// The directory was removed.
    DirectoryRemoved,
    /// The environment exists and lies at `path`.
    EnvironmentReady { path: String },
    /// The source was copied onto the subject.
    DirectoryOverlaid,
    /// The command ran to its end, with or without success.
    CommandFinished { success: bool },
    /// The work could not be done.
    Failed { reason: String },
}

/// The mathematical value of a [`ConstructEvent`].
pub enum ConstructEventView {
    Started,
    DirectoryProbed { is_directory: bool },
    DirectoryRemoved,
    EnvironmentReady { path: Seq<char> },
    DirectoryOverlaid,
    CommandFinished { success: bool },
    Failed { reason: Seq<char> },
}

impl View for ConstructEvent {
    type V = ConstructEventView;

    open spec fn view(&self) -> ConstructEventView {
        match *self {
            ConstructEvent::Started => ConstructEventView::Started,
            ConstructEvent::DirectoryProbed { is_directory } => ConstructEventView::DirectoryProbed {
                is_directory,
            },
            ConstructEvent::DirectoryRemoved => ConstructEventView::DirectoryRemoved,
            ConstructEvent::EnvironmentReady { path } => ConstructEventView::EnvironmentReady {
                path: path@,
            },
            ConstructEvent::DirectoryOverlaid => ConstructEventView::DirectoryOverlaid,
            ConstructEvent::CommandFinished { success } => ConstructEventView::CommandFinished {
                success,
            },
            ConstructEvent::Failed { reason } => ConstructEventView::Failed { reason: reason@ },
        }
    }
}

/// Why the construction of a variant failed.
#[derive(Debug)]
pub enum ConstructError {
    /// The step installs a content pack, which is not implemented.
    Unsupported { id: String },
    /// The command of the step ended without success.
    CommandFailed { command: String },
    /// The work a step asked for could not be done.
    ActionFailed { reason: String },
    /// The event does not answer what the step asked for.
    UnexpectedEvent,
    /// All steps are applied and none of them made an environment.
    NoEnvironment,
}

/// The mathematical value of a [`ConstructError`].
pub enum ConstructErrorView {
    Unsupported { id: Seq<char> },
    CommandFailed { command: Seq<char> },
    ActionFailed { reason: Seq<char> },
    UnexpectedEvent,
    NoEnvironment,
}

impl View for ConstructError {
    type V = ConstructErrorView;

    open spec fn view(&self) -> ConstructErrorView {
        match *self {
            ConstructError::Unsupported { id } => ConstructErrorView::Unsupported { id: id@ },
            ConstructError::CommandFailed { command } => ConstructErrorView::CommandFailed {
                command: command@,
            },
            ConstructError::ActionFailed { reason } => ConstructErrorView::ActionFailed {
                reason: reason@,
            },
            ConstructError::UnexpectedEvent => ConstructErrorView::UnexpectedEvent,
            ConstructError::NoEnvironment => ConstructErrorView::NoEnvironment,
        }
    }
}

/// A construction error in words.
pub open spec fn construct_error_text(error: ConstructErrorView) -> Seq<char> {
    match error {
        ConstructErrorView::Unsupported { id } => "content packs are not implemented: "@ + id,
        ConstructErrorView::CommandFailed { command } => "command did not run properly: "@
            + command,
        ConstructErrorView::ActionFailed { reason } => "construction step failed: "@ + reason,
        ConstructErrorView::UnexpectedEvent => "the event does not answer the pending step"@,
        ConstructErrorView::NoEnvironment => "a variant must produce an environment"@,
    }
}

impl ConstructError {
    /// The error in words.
    pub fn message(&self) -> (text: String)
        ensures
            text@ == construct_error_text(self@),
    {
        match self {
            ConstructError::Unsupported { id } => {
                String::from_str("content packs are not implemented: ").concat(id.as_str())
            },
            ConstructError::CommandFailed { command } => {
                String::from_str("command did not run properly: ").concat(command.as_str())
            },
            ConstructError::ActionFailed { reason } => {
                String::from_str("construction step failed: ").concat(reason.as_str())
            },
            ConstructError::UnexpectedEvent => String::from_str(
                "the event does not answer the pending step",
            ),
            ConstructError::NoEnvironment => String::from_str(
                "a variant must produce an environment",
            ),
        }
    }
}

/// What one event makes of one step.
#[derive(Debug)]
pub enum Applied {
    /// The step asks for this work and waits for its outcome.
    Perform(ConstructAction),
    /// The step is applied: the environment it made, if it made one, and the
    /// launch options as they stand after it.
    Done(Option<EnvironmentHandle>, LaunchOptions),
}

/// The mathematical value of an [`Applied`].
pub enum AppliedView {
    Perform(ConstructActionView),
    Done(Option<EnvironmentHandleView>, LaunchOptionsView),
}

impl View for Applied {
    type V = AppliedView;

    open spec fn view(&self) -> AppliedView {
        match *self {
            Applied::Perform(action) => AppliedView::Perform(action@),
            Applied::Done(handle, options) => AppliedView::Done(
                match handle {
                    Some(handle) => Some(handle@),
                    None => None,
                },
                options@,
            ),
        }
    }
}

/// The mathematical value of the outcome of applying an event to a step.
pub open spec fn applied_view(outcome: Result<Applied, ConstructError>) -> Result<
    AppliedView,
    ConstructErrorView,
> {
    match outcome {
        Ok(applied) => Ok(applied@),
        Err(error) => Err(error@),
    }
}

/// The work a step asks for when its turn comes, on a subject that lies at
/// `root`; `None` for a step that asks for none.
pub open spec fn first_action(step: ResolvedLayerView, root: Seq<char>) -> Option<
    ConstructActionView,
> {
    match step {
        ResolvedLayerView::DeleteDirectory(target) => Some(
            ConstructActionView::ProbeDirectory { root, target },
        ),
        ResolvedLayerView::Instance { version, loader, loader_version } => Some(
            ConstructActionView::ProvisionEnvironment { root, version, loader, loader_version },
        ),
        ResolvedLayerView::DirectoryOverlay { source } => Some(
            ConstructActionView::OverlayDirectory { root, source },
        ),
        ResolvedLayerView::ExecuteCommand(command) => Some(
            ConstructActionView::RunCommand { command, working_directory: root },
        ),
        ResolvedLayerView::ModrinthPack { .. } => None,
        ResolvedLayerView::LaunchClient(_) => None,
    }
}

/// What the event `event` makes of the step `step`, on the subject `subject`
/// and with the launch options `options` gathered so far. `removing` says
/// that the step is the removal of a directory that was probed and found.
///
/// When its turn comes, a step that changes the launch options is done at
/// once, a content pack fails as unsupported, and every other step asks for
/// its work. The answer to a probe either asks for the removal or, where
/// there is no such directory, completes the step without any. The
/// environment that was provisioned becomes the handle of the step. A command
/// that ended without success fails the step. Work that could not be done
/// fails the step with the reason given, and an event that answers nothing
/// the step asked for is refused.
pub open spec fn apply_spec(
    step: ResolvedLayerView,
    subject: SubjectView,
    options: LaunchOptionsView,
    removing: bool,
    event: ConstructEventView,
) -> Result<AppliedView, ConstructErrorView> {
    let root = subject.path();
    match event {
        ConstructEventView::Failed { reason } => {
            if first_action(step, root) is Some {
                Err(ConstructErrorView::ActionFailed { reason })
            } else {
                Err(ConstructErrorView::UnexpectedEvent)
            }
        },
        ConstructEventView::Started => {
            if removing {
                Err(ConstructErrorView::UnexpectedEvent)
            } else {
                match step {
                    ResolvedLayerView::LaunchClient(chosen) => Ok(AppliedView::Done(None, chosen)),
                    ResolvedLayerView::ModrinthPack { id, version } => Err(
                        ConstructErrorView::Unsupported { id },
                    ),
                    _ => Ok(AppliedView::Perform(first_action(step, root)->0)),
                }
            }
        },
        ConstructEventView::DirectoryProbed { is_directory } => {
            match step {
                ResolvedLayerView::DeleteDirectory(target) => {
                    if removing {
                        Err(ConstructErrorView::UnexpectedEvent)
                    } else if is_directory {
                        Ok(
                            AppliedView::Perform(
                                ConstructActionView::RemoveDirectory { root, target },
                            ),
                        )
                    } else {
                        Ok(AppliedView::Done(None, options))
                    }
                },
                _ => Err(ConstructErrorView::UnexpectedEvent),
            }
        },
        ConstructEventView::DirectoryRemoved => {
            if step is DeleteDirectory && removing {
                Ok(AppliedView::Done(None, options))
            } else {
                Err(ConstructErrorView::UnexpectedEvent)
            }
        },
        ConstructEventView::EnvironmentReady { path } => {
            match step {
                ResolvedLayerView::Instance { version, loader, loader_version } => Ok(
                    AppliedView::Done(
                        Some(EnvironmentHandleView { path, version, loader }),
                        options,
                    ),
                ),
                _ => Err(ConstructErrorView::UnexpectedEvent),
            }
        },
        ConstructEventView::DirectoryOverlaid => {
            if step is DirectoryOverlay {
                Ok(AppliedView::Done(None, options))
            } else {
                Err(ConstructErrorView::UnexpectedEvent)
            }
        },
        ConstructEventView::CommandFinished { success } => {
            match step {
                ResolvedLayerView::ExecuteCommand(command) => {
                    if success {
                        Ok(AppliedView::Done(None, options))
                    } else {
                        Err(ConstructErrorView::CommandFailed { command })
                    }
                },
                _ => Err(ConstructErrorView::UnexpectedEvent),
            }
        },
    }
}

impl ResolvedLayer {
    /// The work this step asks for when its turn comes, on a subject that lies
    /// at `root`; `None` for a step that asks for none.
    pub fn action(&self, root: &String) -> (action: Option<ConstructAction>)
        ensures
            match action {
                Some(action) => first_action(self@, root@) == Some(action@),
                None => first_action(self@, root@) is None,
            },
    {
        match self {
            ResolvedLayer::DeleteDirectory(target) => Some(
                ConstructAction::ProbeDirectory { root: root.clone(), target: target.clone() },
            ),
            ResolvedLayer::Instance { version, loader, loader_version } => Some(
                ConstructAction::ProvisionEnvironment {
                    root: root.clone(),
                    version: version.clone(),
                    loader: *loader,
                    loader_version: clone_opt_text(loader_version),
                },
            ),
            ResolvedLayer::DirectoryOverlay { source } => Some(
                ConstructAction::OverlayDirectory { root: root.clone(), source: source.clone() },
            ),
            ResolvedLayer::ExecuteCommand(command) => Some(
                ConstructAction::RunCommand {
                    command: command.clone(),
                    working_directory: root.clone(),
                },
            ),
            ResolvedLayer::ModrinthPack { .. } => None,
            ResolvedLayer::LaunchClient(_) => None,
        }
    }

    /// What `event` makes of this step, on the subject `subject` and with the
    /// launch options `launch_options` gathered so far. `removing` says that
    /// this step is the removal of a directory that was probed and found.
    pub fn apply(
        &self,
        subject: &Subject,
        launch_options: LaunchOptions,
        removing: bool,
        event: ConstructEvent,
    ) -> (outcome: Result<Applied, ConstructError>)
        ensures
            applied_view(outcome) == apply_spec(
                self@,
                subject@,
                launch_options@,
                removing,
                event@,
            ),
    {
        let root = subject.path();
        match event {
            ConstructEvent::Failed { reason } => {
                match self.action(root) {
                    Some(_) => Err(ConstructError::ActionFailed { reason }),
                    None => Err(ConstructError::UnexpectedEvent),
                }
            },
            ConstructEvent::Started => {
                if removing {
                    return Err(ConstructError::UnexpectedEvent);
                }
                match self {
                    ResolvedLayer::LaunchClient(chosen) => Ok(Applied::Done(None, chosen.clone())),
                    ResolvedLayer::ModrinthPack { id, version: _ } => Err(
                        ConstructError::Unsupported { id: id.clone() },
                    ),
                    _ => match self.action(root) {
                        Some(action) => Ok(Applied::Perform(action)),
                        None => Err(ConstructError::UnexpectedEvent),
                    },
                }
            },
            ConstructEvent::DirectoryProbed { is_directory } => {
                match self {
                    ResolvedLayer::DeleteDirectory(target) => {
                        if removing {
                            Err(ConstructError::UnexpectedEvent)
                        } else if is_directory {
                            Ok(
                                Applied::Perform(
                                    ConstructAction::RemoveDirectory {
                                        root: root.clone(),
                                        target: target.clone(),
                                    },
                                ),
                            )
                        } else {
                            Ok(Applied::Done(None, launch_options))
                        }
                    },
                    _ => Err(ConstructError::UnexpectedEvent),
                }
            },
            ConstructEvent::DirectoryRemoved => {
                match self {
                    ResolvedLayer::DeleteDirectory(_) => {
                        if removing {
                            Ok(Applied::Done(None, launch_options))
                        } else {
                            Err(ConstructError::UnexpectedEvent)
                        }
                    },
                    _ => Err(ConstructError::UnexpectedEvent),
                }
            },
            ConstructEvent::EnvironmentReady { path } => {
                match self {
                    ResolvedLayer::Instance { version, loader, loader_version: _ } => Ok(
                        Applied::Done(
                            Some(
                                EnvironmentHandle {
                                    path,
                                    version: version.clone(),
                                    loader: *loader,
                                },
                            ),
                            launch_options,
                        ),
                    ),
                    _ => Err(ConstructError::UnexpectedEvent),
                }
            },
            ConstructEvent::DirectoryOverlaid => {
                match self {
                    ResolvedLayer::DirectoryOverlay { .. } => Ok(
                        Applied::Done(None, launch_options),
                    ),
                    _ => Err(ConstructError::UnexpectedEvent),
                }
            },
            ConstructEvent::CommandFinished { success } => {
                match self {
                    ResolvedLayer::ExecuteCommand(command) => {
                        if success {
                            Ok(Applied::Done(None, launch_options))
                        } else {
                            Err(ConstructError::CommandFailed { command: command.clone() })
                        }
                    },
                    _ => Err(ConstructError::UnexpectedEvent),
                }
            },
        }
    }
}

/// A variant whose construction succeeded: its environment, and the launch
/// options its steps gathered.
#[derive(Debug)]
pub struct PreparedVariant {
    environment: EnvironmentHandle,
    launch_options: LaunchOptions,
}

/// The mathematical value of a [`PreparedVariant`].
pub struct PreparedVariantView {
    pub environment: EnvironmentHandleView,
    pub launch_options: LaunchOptionsView,
}

impl View for PreparedVariant {
    type V = PreparedVariantView;

    closed spec fn view(&self) -> PreparedVariantView {
        PreparedVariantView {
            environment: self.environment@,
            launch_options: self.launch_options@,
        }
    }
}

/// What the launch of a variant needs: its environment and the concrete
/// launch parameters.
#[derive(Debug)]
pub struct LaunchRequest {
    pub environment: EnvironmentHandle,
    pub parameters: LaunchParameters,
}

/// The mathematical value of a [`LaunchRequest`].
pub struct LaunchRequestView {
    pub environment: EnvironmentHandleView,
    pub parameters: LaunchParametersView,
}

impl View for LaunchRequest {
    type V = LaunchRequestView;

    open spec fn view(&self) -> LaunchRequestView {
        LaunchRequestView { environment: self.environment@, parameters: self.parameters@ }
    }
}

/// The launch request of a prepared variant against the identities
/// `accounts`: the environment as it is, with the launch parameters that the
/// options stand for, or the error of turning the options into parameters.
pub open spec fn launch_request(
    prepared: PreparedVariantView,
    accounts: Seq<AccountView>,
) -> Result<LaunchRequestView, PrepareErrorView> {
    match launch_parameters(prepared.launch_options, accounts) {
        Ok(parameters) => Ok(LaunchRequestView { environment: prepared.environment, parameters }),
        Err(error) => Err(error),
    }
}

/// The mathematical value of the outcome of a preparation.
pub open spec fn request_view(outcome: Result<LaunchRequest, PrepareError>) -> Result<
    LaunchRequestView,
    PrepareErrorView,
> {
    match outcome {
        Ok(request) => Ok(request@),
        Err(error) => Err(error@),
    }
}

impl PreparedVariant {
    /// The prepared variant of `environment` with the options `launch_options`.
    pub fn new(environment: EnvironmentHandle, launch_options: LaunchOptions) -> (prepared: Self)
        ensures
            prepared@ == (PreparedVariantView {
                environment: environment@,
                launch_options: launch_options@,
            }),
    {
        PreparedVariant { environment, launch_options }
    }

    /// The environment of this variant.
    pub fn environment(&self) -> (environment: &EnvironmentHandle)
        ensures
            environment@ == self@.environment,
    {
        &self.environment
    }

    /// The launch options of this variant.
    pub fn launch_options(&self) -> (options: &LaunchOptions)
        ensures
            options@ == self@.launch_options,
    {
        &self.launch_options
    }

    /// What the launch of this variant needs, against the identities
    /// `accounts`.
    pub fn run(self, accounts: Vec<Account>) -> (outcome: Result<LaunchRequest, PrepareError>)
        ensures
            request_view(outcome) == launch_request(self@, accounts.deep_view()),
    {
        match self.launch_options.into(accounts) {
            Ok(parameters) => Ok(LaunchRequest { environment: self.environment, parameters }),
            Err(error) => Err(error),
        }
    }
}

/// A construction error, with the variant it befell.
#[derive(Debug)]
pub struct ConstructFailure {
    pub variant: String,
    pub error: ConstructError,
}

/// The mathematical value of a [`ConstructFailure`].
pub struct ConstructFailureView {
    pub variant: Seq<char>,
    pub error: ConstructErrorView,
}

impl View for ConstructFailure {
    type V = ConstructFailureView;

    open spec fn view(&self) -> ConstructFailureView {
        ConstructFailureView { variant: self.variant@, error: self.error@ }
    }
}

impl ConstructFailure {
    /// The failure in words: the stage and the variant, then the error.
    pub fn message(&self) -> (text: String)
        ensures
            text@ == framed(Stage::Construct, self@.variant, construct_error_text(self@.error)),
    {
        let cause = self.error.message();
        frame(Stage::Construct, &self.variant, &cause)
    }
}

/// A construction that waits for the outcome of work it asked for.
#[derive(Debug)]
pub struct Construction {
    name: String,
    layers: Vec<ResolvedLayer>,
    position: usize,
    removing: bool,
    subject: Subject,
    launch_options: LaunchOptions,
}

/// The mathematical value of a [`Construction`]: the variant's name and
/// steps, the index of the step that waits, whether that step waits for a
/// removal, the subject, and the launch options gathered so far.
pub struct ConstructionView {
    pub name: Seq<char>,
    pub layers: Seq<ResolvedLayerView>,
    pub position: nat,
    pub removing: bool,
    pub subject: SubjectView,
    pub launch_options: LaunchOptionsView,
}

impl View for Construction {
    type V = ConstructionView;

    closed spec fn view(&self) -> ConstructionView {
        ConstructionView {
            name: self.name@,
            layers: self.layers.deep_view(),
            position: self.position as nat,
            removing: self.removing,
            subject: self.subject@,
            launch_options: self.launch_options@,
        }
    }
}

/// Where a construction stands after an event.
#[derive(Debug)]
pub enum ConstructStep {
    /// The caller is to do `action` and to report its outcome to `state`.
    Perform { state: Construction, action: ConstructAction },
    /// Every step is applied and the variant has its environment.
    Finished(PreparedVariant),
    /// The construction failed; no further step is applied.
    Failed(ConstructFailure),
}

/// The mathematical value of a [`ConstructStep`].
pub enum ConstructStepView {
    Perform { state: ConstructionView, action: ConstructActionView },
    Finished(PreparedVariantView),
    Failed(ConstructFailureView),
}

impl View for ConstructStep {
    type V = ConstructStepView;

    open spec fn view(&self) -> ConstructStepView {
        match *self {
            ConstructStep::Perform { state, action } => ConstructStepView::Perform {
                state: state@,
                action: action@,
            },
            ConstructStep::Finished(prepared) => ConstructStepView::Finished(prepared@),
            ConstructStep::Failed(failure) => ConstructStepView::Failed(failure@),
        }
    }
}

/// The state before the first step of a variant that is constructed at
/// `directory`: a bare path, and the default launch options.
pub open spec fn initial_state(
    name: Seq<char>,
    layers: Seq<ResolvedLayerView>,
    directory: Seq<char>,
) -> ConstructionView {
    ConstructionView {
        name,
        layers,
        position: 0,
        removing: false,
        subject: SubjectView::Directory(directory),
        launch_options: default_launch_options(),
    }
}

/// The state once the step at `state.position` is applied: an environment the
/// step made becomes the subject, and `options` are the launch options.
pub open spec fn next_state(
    state: ConstructionView,
    handle: Option<EnvironmentHandleView>,
    options: LaunchOptionsView,
) -> ConstructionView {
    ConstructionView {
        position: state.position + 1,
        removing: false,
        subject: match handle {
            Some(handle) => SubjectView::Environment(handle),
            None => state.subject,
        },
        launch_options: options,
        ..state
    }
}

/// Where a construction stands once the step at `state.position` made
/// `applied` of an event, and the steps after it had their turn.
pub open spec fn proceed(
    state: ConstructionView,
    applied: Result<AppliedView, ConstructErrorView>,
) -> ConstructStepView
    decreases state.layers.len() - state.position, 0nat,
{
    match applied {
        Err(error) => ConstructStepView::Failed(
            ConstructFailureView { variant: state.name, error },
        ),
        Ok(AppliedView::Perform(action)) => ConstructStepView::Perform {
            state: ConstructionView { removing: action is RemoveDirectory, ..state },
            action,
        },
        Ok(AppliedView::Done(handle, options)) => {
            if state.position < state.layers.len() {
                settle(next_state(state, handle, options))
            } else {
                ConstructStepView::Failed(
                    ConstructFailureView {
                        variant: state.name,
                        error: ConstructErrorView::UnexpectedEvent,
                    },
                )
            }
        },
    }
}

/// Where a construction stands once the steps from `state.position` on had
/// their turn, as far as they go without work of the caller.
///
/// With no step left, the variant is finished if its subject is an
/// environment, and has failed if it is not. Otherwise the step is told that
/// its turn has come.
pub open spec fn settle(state: ConstructionView) -> ConstructStepView
    decreases state.layers.len() - state.position, 1nat,
{
    if state.position >= state.layers.len() {
        match state.subject {
            SubjectView::Environment(environment) => ConstructStepView::Finished(
                PreparedVariantView { environment, launch_options: state.launch_options },
            ),
            SubjectView::Directory(_) => ConstructStepView::Failed(
                ConstructFailureView {
                    variant: state.name,
                    error: ConstructErrorView::NoEnvironment,
                },
            ),
        }
    } else {
        proceed(
            state,
            apply_spec(
                state.layers[state.position as int],
                state.subject,
                state.launch_options,
                false,
                ConstructEventView::Started,
            ),
        )
    }
}

/// Where a construction stands after `event`: the step that waits makes of
/// the event what [`apply_spec`] says, and the steps after it have their
/// turn. A construction with no step that waits refuses every event.
pub open spec fn advance_spec(state: ConstructionView, event: ConstructEventView) -> ConstructStepView {
    if state.position >= state.layers.len() {
        ConstructStepView::Failed(
            ConstructFailureView {
                variant: state.name,
                error: ConstructErrorView::UnexpectedEvent,
            },
        )
    } else {
        proceed(
            state,
            apply_spec(
                state.layers[state.position as int],
                state.subject,
                state.launch_options,
                state.removing,
                event,
            ),
        )
    }
}

impl Construction {
    /// The name of the variant under construction.
    pub fn name(&self) -> (name: &String)
        ensures
            name@ == self@.name,
    {
        &self.name
    }

    /// The subject as it stands.
    pub fn subject(&self) -> (subject: &Subject)
        ensures
            subject@ == self@.subject,
    {
        &self.subject
    }

    /// Where the construction stands after `event`, the outcome of the work
    /// it asked for.
    pub fn advance(self, event: ConstructEvent) -> (step: ConstructStep)
        ensures
            step@ == advance_spec(self@, event@),
    {
        if self.position >= self.layers.len() {
            return ConstructStep::Failed(
                ConstructFailure { variant: self.name, error: ConstructError::UnexpectedEvent },
            );
        }
        self.proceed(event)
    }

    /// Where the construction stands once the step at its position is told
    /// `event`, and the steps after it had their turn.
    fn proceed(self, event: ConstructEvent) -> (step: ConstructStep)
        requires
            self@.position < self@.layers.len(),
        ensures
            step@ == proceed(
                self@,
                apply_spec(
                    self@.layers[self@.position as int],
                    self@.subject,
                    self@.launch_options,
                    self@.removing,
                    event@,
                ),
            ),
    {
        let ghost goal = proceed(
            self@,
            apply_spec(
                self@.layers[self@.position as int],
                self@.subject,
                self@.launch_options,
                self@.removing,
                event@,
            ),
        );
        let ghost first = self@;
        let ghost told = event@;
        let mut state = self;
        let mut current = event;
        loop
            invariant
                first == self@,
                told == event@,
                state.position < state.layers.len(),
                state@.position < state@.layers.len(),
                goal == proceed(
                    first,
                    apply_spec(
                        first.layers[first.position as int],
                        first.subject,
                        first.launch_options,
                        first.removing,
                        told,
                    ),
                ),
                goal == proceed(
                    state@,
                    apply_spec(
                        state@.layers[state@.position as int],
                        state@.subject,
                        state@.launch_options,
                        state@.removing,
                        current@,
                    ),
                ),
            decreases state@.layers.len() - state@.position,
        {
            let ghost before = state@;
            assert(state.layers[state.position as int]@ == before.layers[before.position as int]);
            let applied = state.layers[state.position].apply(
                &state.subject,
                state.launch_options.clone(),
                state.removing,
                current,
            );
            match applied {
                Err(error) => {
                    return ConstructStep::Failed(ConstructFailure { variant: state.name, error });
                },
                Ok(Applied::Perform(action)) => {
                    state.removing = match &action {
                        ConstructAction::RemoveDirectory { .. } => true,
                        _ => false,
                    };
                    return ConstructStep::Perform { state, action };
                },
                Ok(Applied::Done(handle, options)) => {
                    match handle {
                        Some(handle) => {
                            state.subject = Subject::Environment(handle);
                        },
                        None => {},
                    }
                    state.launch_options = options;
                    state.removing = false;
                    state.position = state.position + 1;
                    assert(state@ == next_state(
                        before,
                        match handle {
                            Some(handle) => Some(handle@),
                            None => None,
                        },
                        options@,
                    ));
                    if state.position >= state.layers.len() {
                        let Construction { name, subject, launch_options, .. } = state;
                        return match subject {
                            Subject::Environment(environment) => ConstructStep::Finished(
                                PreparedVariant { environment, launch_options },
                            ),
                            Subject::Directory(_) => ConstructStep::Failed(
                                ConstructFailure {
                                    variant: name,
                                    error: ConstructError::NoEnvironment,
                                },
                            ),
                        };
                    }
                    current = ConstructEvent::Started;
                },
            }
        }
    }
}

/// The path of `name` below `base`, as `std::path::Path::join` gives it by
/// the rules of the platform. Nothing is claimed of the result: what a path
/// looks like is the platform's matter.
#[verifier::external_body]
fn join_path(base: &String, name: &String) -> (joined: String) {
    std::path::Path::new(base).join(name).to_string_lossy().into_owned()
}

impl Variant {
    /// Begins the construction of this variant in the directory of its name
    /// below `base_directory`, and carries it as far as it goes without work
    /// of the caller. What that directory is called is decided by the
    /// platform; [`Variant::prepare_at`] says what follows from it.
    pub fn prepare(self, base_directory: String) -> (step: ConstructStep)
        ensures
            exists|directory: Seq<char>|
                step@ == #[trigger] settle(initial_state(self@.name, self@.layers, directory)),
    {
        let directory = join_path(&base_directory, self.name());
        self.prepare_at(directory)
    }

    /// Begins the construction of this variant at `directory`, its bare
    /// target path, and carries it as far as it goes without work of the
    /// caller.
    pub fn prepare_at(self, directory: String) -> (step: ConstructStep)
        ensures
            step@ == settle(initial_state(self@.name, self@.layers, directory@)),
    {
        let (name, layers) = self.into_parts();
        let state = Construction {
            name,
            layers,
            position: 0,
            removing: false,
            subject: Subject::Directory(directory),
            launch_options: LaunchOptions::default(),
        };
        if state.layers.len() == 0 {
            return ConstructStep::Failed(
                ConstructFailure { variant: state.name, error: ConstructError::NoEnvironment },
            );
        }
        state.proceed(ConstructEvent::Started)
    }
}

/// Whether the subject is still a bare path and no step from the waiting one
/// on asks for an environment.
pub open spec fn no_environment_ahead(state: ConstructionView) -> bool {
    &&& state.subject is Directory
    &&& forall|i: int|
        state.position <= i < state.layers.len() ==> !(#[trigger] state.layers[i] is Instance)
}

/// Whether a construction has not finished and, where it goes on, still has
/// no environment and no step ahead that asks for one.
pub open spec fn stays_without_environment(step: ConstructStepView) -> bool {
    match step {
        ConstructStepView::Finished(_) => false,
        ConstructStepView::Failed(_) => true,
        ConstructStepView::Perform { state, action } => no_environment_ahead(state),
    }
}

/// A variant must produce an environment: a construction whose subject is a
/// bare path, and whose remaining steps ask for no environment, never
/// finishes. When its steps have their turn, and after whatever event, it has
/// failed or still waits without an environment ahead.
pub proof fn lemma_no_instance_never_finishes(state: ConstructionView, event: ConstructEventView)
    requires
        no_environment_ahead(state),
    ensures
        stays_without_environment(settle(state)),
        stays_without_environment(advance_spec(state, event)),
    decreases state.layers.len() - state.position,
{
    if state.position < state.layers.len() {
        let step = state.layers[state.position as int];
        assert(!(step is Instance));
        let told = apply_spec(
            step,
            state.subject,
            state.launch_options,
            false,
            ConstructEventView::Started,
        );
        let answered = apply_spec(
            step,
            state.subject,
            state.launch_options,
            state.removing,
            event,
        );
        match told {
            Ok(AppliedView::Done(handle, options)) => {
                assert(handle is None);
                lemma_no_instance_never_finishes(next_state(state, handle, options), event);
            },
            _ => {},
        }
        match answered {
            Ok(AppliedView::Done(handle, options)) => {
                assert(handle is None);
                lemma_no_instance_never_finishes(next_state(state, handle, options), event);
            },
            _ => {},
        }
    }
}

} // verus!
