//! Preparation and launch: the launch options a variant gathered are turned
//! into concrete launch parameters against the list of known identities, and
//! the three tasks of a running process are joined into one verdict.

use crate::layer::{opt_text, LaunchOptions, LaunchOptionsView};
use vstd::prelude::*;
use vstd::string::*;

verus! {

/// One identity of the identity store.
#[derive(Debug)]
pub struct Account {
    pub uuid: String,
    pub username: String,
    pub refresh_token: String,
    pub token: String,
    pub selected: bool,
}

/// The mathematical value of an [`Account`].
pub struct AccountView {
    pub uuid: Seq<char>,
    pub username: Seq<char>,
    pub refresh_token: Seq<char>,
    pub token: Seq<char>,
    pub selected: bool,
}

impl View for Account {
    type V = AccountView;

    open spec fn view(&self) -> AccountView {
        AccountView {
            uuid: self.uuid@,
            username: self.username@,
            refresh_token: self.refresh_token@,
            token: self.token@,
            selected: self.selected,
        }
    }
}

impl DeepView for Account {
    type V = AccountView;

    open spec fn deep_view(&self) -> AccountView {
        self@
    }
}

impl Clone for Account {
    fn clone(&self) -> (copy: Self)
        ensures
            copy@ == self@,
    {
        Account {
            uuid: self.uuid.clone(),
            username: self.username.clone(),
            refresh_token: self.refresh_token.clone(),
            token: self.token.clone(),
            selected: self.selected,
        }
    }
}

/// The concrete parameters a process is launched with: the identity to play
/// as, if any, and the session to join, if any.
#[derive(Debug)]
pub struct LaunchParameters {
    pub account: Option<Account>,
    pub world: Option<String>,
}

/// The mathematical value of a [`LaunchParameters`].
pub struct LaunchParametersView {
    pub account: Option<AccountView>,
    pub world: Option<Seq<char>>,
}

impl View for LaunchParameters {
    type V = LaunchParametersView;

    open spec fn view(&self) -> LaunchParametersView {
        LaunchParametersView {
            account: match self.account {
                Some(account) => Some(account@),
                None => None,
            },
            world: opt_text(self.world),
        }
    }
}

/// Why launch options could not be turned into launch parameters.
#[derive(Debug)]
pub enum PrepareError {
    /// The options ask for an identity and the identity list is empty.
    NotSignedIn,
    /// No identity of the list bears the name the options ask for.
    UnknownAccount { name: String },
    /// The options name no identity and none of the list is selected.
    NoSelectedAccount,
}

/// The mathematical value of a [`PrepareError`].
pub enum PrepareErrorView {
    NotSignedIn,
    UnknownAccount { name: Seq<char> },
    NoSelectedAccount,
}

impl View for PrepareError {
    type V = PrepareErrorView;

    open spec fn view(&self) -> PrepareErrorView {
        match *self {
            PrepareError::NotSignedIn => PrepareErrorView::NotSignedIn,
            PrepareError::UnknownAccount { name } => PrepareErrorView::UnknownAccount {
                name: name@,
            },
            PrepareError::NoSelectedAccount => PrepareErrorView::NoSelectedAccount,
        }
    }
}

/// A preparation error in words.
pub open spec fn prepare_error_text(error: PrepareErrorView) -> Seq<char> {
    match error {
        PrepareErrorView::NotSignedIn => "must be signed in to launch with an identity"@,
        PrepareErrorView::UnknownAccount { name } => "no account with the name matching "@ + name
            + " was found"@,
        PrepareErrorView::NoSelectedAccount => "no selected account was found"@,
    }
}

impl PrepareError {
    /// The error in words: it names the need to sign in, or the identity that
    /// is missing.
    pub fn message(&self) -> (text: String)
        ensures
            text@ == prepare_error_text(self@),
    {
        match self {
            PrepareError::NotSignedIn => String::from_str(
                "must be signed in to launch with an identity",
            ),
            PrepareError::UnknownAccount { name } => {
                let text = String::from_str("no account with the name matching ");
                let text = text.concat(name.as_str());
                text.concat(" was found")
            },
            PrepareError::NoSelectedAccount => String::from_str("no selected account was found"),
        }
    }
}

/// The first identity of `accounts` whose name is `name`.
pub open spec fn first_named(accounts: Seq<AccountView>, name: Seq<char>) -> Option<AccountView>
    decreases accounts.len(),
{
    if accounts.len() == 0 {
        None
    } else if accounts[0].username == name {
        Some(accounts[0])
    } else {
        first_named(accounts.drop_first(), name)
    }
}

/// The first identity of `accounts` that is flagged as selected.
pub open spec fn first_selected(accounts: Seq<AccountView>) -> Option<AccountView>
    decreases accounts.len(),
{
    if accounts.len() == 0 {
        None
    } else if accounts[0].selected {
        Some(accounts[0])
    } else {
        first_selected(accounts.drop_first())
    }
}

/// The identifier every placeholder identity bears.
pub open spec fn placeholder_uuid() -> Seq<char> {
    "00000000-0000-0000-0000-000000000000"@
}

/// The identity that stands in for an unregistered offline player.
pub open spec fn placeholder_account(name: Seq<char>) -> AccountView {
    AccountView {
        uuid: placeholder_uuid(),
        username: name,
        refresh_token: Seq::empty(),
        token: Seq::empty(),
        selected: true,
    }
}

/// The identity the options ask for, by name where they give one and by the
/// selected flag where they do not.
pub open spec fn wanted_account(
    account_name: Option<Seq<char>>,
    accounts: Seq<AccountView>,
    offline: bool,
) -> Result<AccountView, PrepareErrorView> {
    match account_name {
        Some(name) => match first_named(accounts, name) {
            Some(account) => Ok(account),
            None => if offline {
                Ok(placeholder_account(name))
            } else {
                Err(PrepareErrorView::UnknownAccount { name })
            },
        },
        None => match first_selected(accounts) {
            Some(account) => Ok(account),
            None => Err(PrepareErrorView::NoSelectedAccount),
        },
    }
}

/// The launch parameters that `options` stand for against the identities
/// `accounts`.
///
/// A demo needs no identity. Online and offline options need a list that is
/// not empty. A named identity is the first of that name; where none bears
/// it, online options fail and offline options make up a placeholder. Without
/// a name, the first selected identity is taken.
pub open spec fn launch_parameters(
    options: LaunchOptionsView,
    accounts: Seq<AccountView>,
) -> Result<LaunchParametersView, PrepareErrorView> {
    match options {
        LaunchOptionsView::Demo => Ok(LaunchParametersView { account: None, world: None }),
        LaunchOptionsView::Online { account_name, world_name } => {
            if accounts.len() == 0 {
                Err(PrepareErrorView::NotSignedIn)
            } else {
                match wanted_account(account_name, accounts, false) {
                    Ok(account) => Ok(
                        LaunchParametersView { account: Some(account), world: world_name },
                    ),
                    Err(error) => Err(error),
                }
            }
        },
        LaunchOptionsView::Offline { account_name, world_name } => {
            if accounts.len() == 0 {
                Err(PrepareErrorView::NotSignedIn)
            } else {
                match wanted_account(account_name, accounts, true) {
                    Ok(account) => Ok(
                        LaunchParametersView { account: Some(account), world: world_name },
                    ),
                    Err(error) => Err(error),
                }
            }
        },
    }
}

/// The mathematical value of a found identity.
pub open spec fn found_view(found: Option<Account>) -> Option<AccountView> {
    match found {
        Some(account) => Some(account@),
        None => None,
    }
}

/// The mathematical value of the outcome of a preparation.
pub open spec fn parameters_view(outcome: Result<LaunchParameters, PrepareError>) -> Result<
    LaunchParametersView,
    PrepareErrorView,
> {
    match outcome {
        Ok(parameters) => Ok(parameters@),
        Err(error) => Err(error@),
    }
}

/// The first identity of `accounts` whose name is `name`.
pub fn find_named(accounts: &Vec<Account>, name: &String) -> (found: Option<Account>)
    ensures
        found_view(found) == first_named(accounts.deep_view(), name@),
{
    let ghost all = accounts.deep_view();
    let mut i: usize = 0;
    assert(all.skip(0) =~= all);
    while i < accounts.len()
        invariant
            i <= accounts.len(),
            all == accounts.deep_view(),
            first_named(all, name@) == first_named(all.skip(i as int), name@),
        decreases accounts.len() - i,
    {
        assert(all.skip(i as int)[0] == all[i as int]);
        assert(all.skip(i as int).drop_first() =~= all.skip(i + 1));
        if accounts[i].username == *name {
            return Some(accounts[i].clone());
        }
        i += 1;
    }
    None
}

/// The first identity of `accounts` that is flagged as selected.
pub fn find_selected(accounts: &Vec<Account>) -> (found: Option<Account>)
    ensures
        found_view(found) == first_selected(accounts.deep_view()),
{
    let ghost all = accounts.deep_view();
    let mut i: usize = 0;
    assert(all.skip(0) =~= all);
    while i < accounts.len()
        invariant
            i <= accounts.len(),
            all == accounts.deep_view(),
            first_selected(all) == first_selected(all.skip(i as int)),
        decreases accounts.len() - i,
    {
        assert(all.skip(i as int)[0] == all[i as int]);
        assert(all.skip(i as int).drop_first() =~= all.skip(i + 1));
        if accounts[i].selected {
            return Some(accounts[i].clone());
        }
        i += 1;
    }
    None
}

/// The identity that stands in for an unregistered offline player called
/// `name`.
pub fn make_placeholder(name: String) -> (account: Account)
    ensures
        account@ == placeholder_account(name@),
{
    Account {
        uuid: String::from_str("00000000-0000-0000-0000-000000000000"),
        username: name,
        refresh_token: String::new(),
        token: String::new(),
        selected: true,
    }
}

/// The identity the options ask for.
fn pick_account(account_name: Option<String>, accounts: &Vec<Account>, offline: bool) -> (picked:
    Result<Account, PrepareError>)
    ensures
        match picked {
            Ok(account) => wanted_account(opt_text(account_name), accounts.deep_view(), offline)
                == Ok::<AccountView, PrepareErrorView>(account@),
            Err(error) => wanted_account(opt_text(account_name), accounts.deep_view(), offline)
                == Err::<AccountView, PrepareErrorView>(error@),
        },
{
    match account_name {
        Some(name) => match find_named(accounts, &name) {
            Some(account) => Ok(account),
            None => if offline {
                Ok(make_placeholder(name))
            } else {
                Err(PrepareError::UnknownAccount { name })
            },
        },
        None => match find_selected(accounts) {
            Some(account) => Ok(account),
            None => Err(PrepareError::NoSelectedAccount),
        },
    }
}

impl LaunchOptions {
    /// The launch parameters these options stand for against the identities
    /// `accounts`.
    pub fn into(self, accounts: Vec<Account>) -> (outcome: Result<LaunchParameters, PrepareError>)
        ensures
            parameters_view(outcome) == launch_parameters(self@, accounts.deep_view()),
    {
        match self {
            LaunchOptions::Demo => Ok(LaunchParameters { account: None, world: None }),
            LaunchOptions::Online { account_name, world_name } => {
                if accounts.len() == 0 {
                    return Err(PrepareError::NotSignedIn);
                }
                match pick_account(account_name, &accounts, false) {
                    Ok(account) => Ok(LaunchParameters { account: Some(account), world: world_name }),
                    Err(error) => Err(error),
                }
            },
            LaunchOptions::Offline { account_name, world_name } => {
                if accounts.len() == 0 {
                    return Err(PrepareError::NotSignedIn);
                }
                match pick_account(account_name, &accounts, true) {
                    Ok(account) => Ok(LaunchParameters { account: Some(account), world: world_name }),
                    Err(error) => Err(error),
                }
            },
        }
    }
}

/// One of the two streams of a running process.
#[derive(Clone, Copy, Debug, PartialEq, Eq, Structural)]
pub enum Stream {
    Output,
    Error,
}

/// How a line is surfaced to the operator.
#[derive(Clone, Copy, Debug, PartialEq, Eq, Structural)]
pub enum Level {
    Info,
    Error,
}

impl Stream {
    /// The level of the lines of this stream: the output stream informs, the
    /// error stream reports errors.
    pub fn level(self) -> (level: Level)
        ensures
            level == match self {
                Stream::Output => Level::Info,
                Stream::Error => Level::Error,
            },
    {
        match self {
            Stream::Output => Level::Info,
            Stream::Error => Level::Error,
        }
    }
}

/// How the run of a process ended.
#[derive(Debug)]
pub enum ExitOutcome {
    /// The process could not be started.
    NotStarted { reason: String },
    /// The process ran to its end, with or without success.
    Exited { success: bool },
    /// The wait itself failed.
    Failed { reason: String },
}

/// How the reading of a stream ended.
#[derive(Debug)]
pub enum ReadOutcome {
    /// The stream was read to its end.
    Completed,
    /// Reading failed.
    Failed { reason: String },
}

/// Why the launch of a variant failed.
#[derive(Debug)]
pub enum LaunchError {
    /// The process could not be started.
    NotStarted { reason: String },
    /// The process ended without success; `error_tail` holds the last lines
    /// of its error stream, as far as they were captured.
    ExitFailure { error_tail: Vec<String> },
    /// Waiting for the process failed.
    WaitFailed { reason: String },
    /// Reading a stream of the process failed.
    StreamFailed { stream: Stream, reason: String },
}

/// The mathematical value of a [`LaunchError`].
pub enum LaunchErrorView {
    NotStarted { reason: Seq<char> },
    ExitFailure { error_tail: Seq<Seq<char>> },
    WaitFailed { reason: Seq<char> },
    StreamFailed { stream: Stream, reason: Seq<char> },
}

/// The texts of a list of lines.
pub open spec fn lines_text(lines: Seq<String>) -> Seq<Seq<char>> {
    Seq::new(lines.len(), |i: int| lines[i]@)
}

impl View for LaunchError {
    type V = LaunchErrorView;

    open spec fn view(&self) -> LaunchErrorView {
        match *self {
            LaunchError::NotStarted { reason } => LaunchErrorView::NotStarted { reason: reason@ },
            LaunchError::ExitFailure { error_tail } => LaunchErrorView::ExitFailure {
                error_tail: lines_text(error_tail@),
            },
            LaunchError::WaitFailed { reason } => LaunchErrorView::WaitFailed { reason: reason@ },
            LaunchError::StreamFailed { stream, reason } => LaunchErrorView::StreamFailed {
                stream,
                reason: reason@,
            },
        }
    }
}

/// The lines of `lines` from `from` on, each after a line break.
pub open spec fn broken_lines(lines: Seq<Seq<char>>, from: int) -> Seq<char>
    decreases lines.len() - from,
{
    if from < 0 || from >= lines.len() {
        Seq::empty()
    } else {
        "\n"@ + lines[from] + broken_lines(lines, from + 1)
    }
}

/// A launch error in words; an exit without success is followed by the
/// captured lines of the error stream.
pub open spec fn launch_error_text(error: LaunchErrorView) -> Seq<char> {
    match error {
        LaunchErrorView::NotStarted { reason } => "the instance could not be started: "@ + reason,
        LaunchErrorView::ExitFailure { error_tail } => "error while running instance"@
            + broken_lines(error_tail, 0),
        LaunchErrorView::WaitFailed { reason } => "could not wait for the instance: "@ + reason,
        LaunchErrorView::StreamFailed { stream, reason } => match stream {
            Stream::Output => "could not read the output of the instance: "@ + reason,
            Stream::Error => "could not read the errors of the instance: "@ + reason,
        },
    }
}

impl LaunchError {
    /// The error in words.
    pub fn message(&self) -> (text: String)
        ensures
            text@ == launch_error_text(self@),
    {
        match self {
            LaunchError::NotStarted { reason } => {
                String::from_str("the instance could not be started: ").concat(reason.as_str())
            },
            LaunchError::ExitFailure { error_tail } => {
                let ghost lines = lines_text(error_tail@);
                let mut text = String::from_str("error while running instance");
                let ghost head = text@;
                let mut i: usize = 0;
                assert(text@ + broken_lines(lines, 0) =~= head + broken_lines(lines, 0));
                while i < error_tail.len()
                    invariant
                        i <= error_tail.len(),
                        lines == lines_text(error_tail@),
                        text@ + broken_lines(lines, i as int) == head + broken_lines(lines, 0),
                    decreases error_tail.len() - i,
                {
                    let ghost before = text@;
                    text.append("\n");
                    text.append(error_tail[i].as_str());
                    proof {
                        assert(text@ + broken_lines(lines, i + 1) =~= before + broken_lines(
                            lines,
                            i as int,
                        ));
                    }
                    i += 1;
                }
                assert(text@ + broken_lines(lines, i as int) =~= text@);
                text
            },
            LaunchError::WaitFailed { reason } => {
                String::from_str("could not wait for the instance: ").concat(reason.as_str())
            },
            LaunchError::StreamFailed { stream, reason } => match stream {
                Stream::Output => {
                    String::from_str("could not read the output of the instance: ").concat(
                        reason.as_str(),
                    )
                },
                Stream::Error => {
                    String::from_str("could not read the errors of the instance: ").concat(
                        reason.as_str(),
                    )
                },
            },
        }
    }
}

/// The verdict on a launch: it succeeded exactly where the process was
/// started, ended with success, and both streams were read to their end.
/// Otherwise the first failure counts, of the process, the error stream and
/// the output stream in this order.
pub fn conclude(
    process: ExitOutcome,
    errors: ReadOutcome,
    output: ReadOutcome,
    error_tail: Vec<String>,
) -> (verdict: Result<(), LaunchError>)
    ensures
        match process {
            ExitOutcome::NotStarted { reason } => verdict matches Err(error) && error@
                == (LaunchErrorView::NotStarted { reason: reason@ }),
            ExitOutcome::Failed { reason } => verdict matches Err(error) && error@
                == (LaunchErrorView::WaitFailed { reason: reason@ }),
            ExitOutcome::Exited { success } => if !success {
                verdict matches Err(error) && error@ == (LaunchErrorView::ExitFailure {
                    error_tail: lines_text(error_tail@),
                })
            } else {
                match errors {
                    ReadOutcome::Failed { reason } => verdict matches Err(error) && error@ == (
                    LaunchErrorView::StreamFailed { stream: Stream::Error, reason: reason@ }),
                    ReadOutcome::Completed => match output {
                        ReadOutcome::Failed { reason } => verdict matches Err(error) && error@ == (
                        LaunchErrorView::StreamFailed { stream: Stream::Output, reason: reason@ }),
                        ReadOutcome::Completed => verdict is Ok,
                    },
                }
            },
        },
{
    match process {
        ExitOutcome::NotStarted { reason } => Err(LaunchError::NotStarted { reason }),
        ExitOutcome::Failed { reason } => Err(LaunchError::WaitFailed { reason }),
        ExitOutcome::Exited { success } => {
            if !success {
                return Err(LaunchError::ExitFailure { error_tail });
            }
            match errors {
                ReadOutcome::Failed { reason } => Err(
                    LaunchError::StreamFailed { stream: Stream::Error, reason },
                ),
                ReadOutcome::Completed => match output {
                    ReadOutcome::Failed { reason } => Err(
                        LaunchError::StreamFailed { stream: Stream::Output, reason },
                    ),
                    ReadOutcome::Completed => Ok(()),
                },
            }
        },
    }
}

} // verus!
