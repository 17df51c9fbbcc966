//! The order of the steps of `maypop init`, `maypop publish` and `maypop apply`: each step's
//! outcome decides the next step, and a step that would change something
//! remote comes only after every check before it passed.
use crate::credentials::{name_view, CredentialUser};
use crate::paths::{components, is_component_prefix};
use crate::project::{opt_view, AppConfig};
use crate::text::trim_end_char;
use crate::user_commands::{
    app_fields_spec, app_update_fields, check_build_clean, check_clean, check_git_identity,
    check_head, check_origin, check_published, check_thumbnail_inside, check_unconnected,
    configured_or_empty, field_models, initial_app_of, initial_name, is_commit_sha,
    resolve_initial_app, AppField, UserError,
};
use vstd::prelude::*;

verus! {

/// What `maypop publish` waits for.
#[derive(Clone, Copy, Debug, PartialEq, Eq, Structural)]
pub enum PublishStage {
    /// The configured `origin` remote.
    Origin,
    /// The output of `git status --porcelain`.
    Status,
    /// The output of `git rev-parse HEAD`.
    Head,
    /// The end of the build.
    Build,
    /// Whether the build left tracked files as they were.
    BuildDiff,
    /// The end of the push.
    Push,
    /// The id of the uploaded bundle.
    Upload,
    /// The service's answer to the publish request.
    Publish,
    /// Nothing: the version is published.
    Done,
    /// Nothing: a check refused to go on.
    Stopped,
}

/// What `maypop publish` has learnt so far.
pub struct PublishState {
    stage: PublishStage,
    app_id: String,
    expected_remote: String,
    head: String,
    bundle: String,
    origin_ok: bool,
    clean: bool,
    head_ok: bool,
    build_clean: bool,
}

/// What the steps of `maypop publish` report.
#[derive(Debug)]
pub enum PublishEvent {
    /// The configured `origin` remote.
    Origin(String),
    /// The output of `git status --porcelain`.
    Status(String),
    /// The output of `git rev-parse HEAD`, trimmed.
    Head(String),
    /// The build finished.
    Built,
    /// Whether `git diff --quiet` and then `git diff --cached --quiet` passed.
    BuildDiff { worktree_unchanged: bool, index_unchanged: bool },
    /// The push succeeded.
    Pushed,
    /// The bundle was uploaded under this id.
    Uploaded(String),
    /// The service published a version of this app from this commit.
    Published { app_id: String, source_commit_sha: Option<String> },
}

/// What `maypop publish` does next.
#[derive(Debug)]
pub enum PublishAction {
    /// Read the configured `origin` remote.
    ReadOrigin,
    /// Run `git status --porcelain`.
    ReadStatus,
    /// Run `git rev-parse HEAD`.
    ReadHead,
    /// Run the build.
    Build,
    /// Check whether the build changed tracked files.
    CheckBuildDiff,
    /// Push `HEAD` to `main` on `origin`.
    Push,
    /// Upload the build output.
    Upload,
    /// Ask the service to publish `head` from the bundle `bundle_id`.
    Publish { head: String, bundle_id: String },
    /// Report the published version.
    Finish,
    /// Stop with this error.
    Stop(UserError),
    /// Nothing: no step remains.
    Nothing,
}

/// Whether `action` is the step that `stage` waits on.
pub open spec fn awaits(stage: PublishStage, action: PublishAction) -> bool {
    match stage {
        PublishStage::Origin => action is ReadOrigin,
        PublishStage::Status => action is ReadStatus,
        PublishStage::Head => action is ReadHead,
        PublishStage::Build => action is Build,
        PublishStage::BuildDiff => action is CheckBuildDiff,
        PublishStage::Push => action is Push,
        PublishStage::Upload => action is Upload,
        PublishStage::Publish => action is Publish,
        PublishStage::Done => action is Nothing,
        PublishStage::Stopped => action is Nothing,
    }
}

impl PublishState {
    /// Each stage is reached only with the checks before it passed.
    #[verifier::type_invariant]
    spec fn checks_before_stage(self) -> bool {
        &&& self.stage is Status ==> self.origin_ok
        &&& self.stage is Head ==> self.origin_ok && self.clean
        &&& (self.stage is Build || self.stage is BuildDiff) ==> self.origin_ok && self.clean
            && self.head_ok
        &&& (self.stage is Push || self.stage is Upload || self.stage is Publish || self.stage is Done)
            ==> self.origin_ok && self.clean && self.head_ok && self.build_clean
        &&& self.head_ok ==> is_commit_sha(self.head@)
    }

    /// The stage the command is in.
    pub closed spec fn stage(self) -> PublishStage {
        self.stage
    }

    /// The app being published.
    pub closed spec fn app(self) -> Seq<char> {
        self.app_id@
    }

    /// The remote `origin` must be.
    pub closed spec fn expected_remote(self) -> Seq<char> {
        self.expected_remote@
    }

    /// The commit read from `HEAD` (empty before it is read).
    pub closed spec fn head(self) -> Seq<char> {
        self.head@
    }

    /// The id of the uploaded bundle (empty before the upload).
    pub closed spec fn bundle(self) -> Seq<char> {
        self.bundle@
    }

    /// `origin` was found to be the app's remote.
    pub closed spec fn origin_checked(self) -> bool {
        self.origin_ok
    }

    /// The worktree was found clean.
    pub closed spec fn clean_checked(self) -> bool {
        self.clean
    }

    /// `HEAD` was found to be a full commit id.
    pub closed spec fn head_checked(self) -> bool {
        self.head_ok
    }

    /// The build was found to leave tracked files as they were.
    pub closed spec fn build_checked(self) -> bool {
        self.build_clean
    }
}

/// Start publishing `app_id`, whose remote must be `expected_remote`: nothing
/// is checked yet, and the first step reads `origin`.
pub fn publish_start(app_id: String, expected_remote: String) -> (r: (PublishState, PublishAction))
    ensures
        r.0.stage() == PublishStage::Origin,
        r.0.app() == app_id@,
        r.0.expected_remote() == expected_remote@,
        r.0.head() == Seq::<char>::empty(),
        r.0.bundle() == Seq::<char>::empty(),
        !r.0.origin_checked() && !r.0.clean_checked() && !r.0.head_checked()
            && !r.0.build_checked(),
        r.1 is ReadOrigin,
{
    (
        PublishState {
            stage: PublishStage::Origin,
            app_id,
            expected_remote,
            head: String::new(),
            bundle: String::new(),
            origin_ok: false,
            clean: false,
            head_ok: false,
            build_clean: false,
        },
        PublishAction::ReadOrigin,
    )
}

/// `origin` names the expected remote, trailing slashes aside.
pub open spec fn remote_matches(configured: Seq<char>, expected: Seq<char>) -> bool {
    trim_end_char(configured, '/') == trim_end_char(expected, '/')
}

/// Whether `event` is what `stage` waits for.
pub open spec fn answers(stage: PublishStage, event: PublishEvent) -> bool {
    match event {
        PublishEvent::Origin(_) => stage is Origin,
        PublishEvent::Status(_) => stage is Status,
        PublishEvent::Head(_) => stage is Head,
        PublishEvent::Built => stage is Build,
        PublishEvent::BuildDiff { .. } => stage is BuildDiff,
        PublishEvent::Pushed => stage is Push,
        PublishEvent::Uploaded(_) => stage is Upload,
        PublishEvent::Published { .. } => stage is Publish,
    }
}

/// Take the outcome of the awaited step and decide the next one. An event
/// that the current stage does not wait for changes nothing. A refused check
/// stops the command with its error; a push is asked for only once `origin`,
/// the worktree, `HEAD` and the build have all been checked.
pub fn publish_next(state: PublishState, event: PublishEvent) -> (r: (PublishState, PublishAction))
    ensures
        r.1 is Push ==> r.0.origin_checked() && r.0.clean_checked() && r.0.head_checked()
            && r.0.build_checked(),
        r.1 is Upload || r.1 is Publish || r.1 is Finish ==> r.0.origin_checked()
            && r.0.clean_checked() && r.0.head_checked() && r.0.build_checked(),
        r.1 matches PublishAction::Publish { head, bundle_id } ==> head@ == r.0.head()
            && bundle_id@ == r.0.bundle() && is_commit_sha(head@),
        r.0.app() == state.app() && r.0.expected_remote() == state.expected_remote(),
        r.0.head_checked() ==> is_commit_sha(r.0.head()),
        r.0.origin_checked() == (state.origin_checked() || (state.stage() is Origin
            && (event matches PublishEvent::Origin(t) && remote_matches(
            t@,
            state.expected_remote(),
        )))),
        r.0.clean_checked() == (state.clean_checked() || (state.stage() is Status
            && (event matches PublishEvent::Status(t) && t@.len() == 0))),
        r.0.head_checked() == (state.head_checked() || (state.stage() is Head
            && (event matches PublishEvent::Head(t) && is_commit_sha(t@)))),
        r.0.build_checked() == (state.build_checked() || (state.stage() is BuildDiff
            && (event matches PublishEvent::BuildDiff { worktree_unchanged, index_unchanged }
            && worktree_unchanged && index_unchanged))),
        !answers(state.stage(), event) ==> r.0 == state && awaits(state.stage(), r.1),
        answers(state.stage(), event) ==> match event {
            PublishEvent::Origin(t) => if remote_matches(t@, state.expected_remote()) {
                r.0.stage() is Status && r.1 is ReadStatus
            } else {
                r.0.stage() is Stopped && (r.1 matches PublishAction::Stop(e) && e is RemoteMismatch)
            },
            PublishEvent::Status(t) => if t@.len() == 0 {
                r.0.stage() is Head && r.1 is ReadHead
            } else {
                r.0.stage() is Stopped && (r.1 matches PublishAction::Stop(e) && e is DirtyWorktree)
            },
            PublishEvent::Head(t) => if is_commit_sha(t@) {
                r.0.stage() is Build && r.1 is Build && r.0.head() == t@
            } else {
                r.0.stage() is Stopped && (r.1 matches PublishAction::Stop(e) && e is NotSha1)
            },
            PublishEvent::Built => r.0.stage() is BuildDiff && r.1 is CheckBuildDiff,
            PublishEvent::BuildDiff { worktree_unchanged, index_unchanged } => if worktree_unchanged
                && index_unchanged {
                r.0.stage() is Push && r.1 is Push
            } else {
                r.0.stage() is Stopped && (r.1 matches PublishAction::Stop(e)
                    && e is BuildModifiedFiles)
            },
            PublishEvent::Pushed => r.0.stage() is Upload && r.1 is Upload,
            PublishEvent::Uploaded(id) => r.0.stage() is Publish && r.0.bundle() == id@
                && (r.1 matches PublishAction::Publish { head, bundle_id } && head@ == state.head()
                && bundle_id@ == id@),
            PublishEvent::Published { app_id, source_commit_sha } => if app_id@ == state.app()
                && (source_commit_sha matches Some(s) && s@ == state.head()) {
                r.0.stage() is Done && r.1 is Finish
            } else {
                r.0.stage() is Stopped && (r.1 matches PublishAction::Stop(e)
                    && e is WrongPublishResult)
            },
        },
        answers(state.stage(), event) && !(event is Head) ==> r.0.head() == state.head(),
        answers(state.stage(), event) && !(event is Uploaded) ==> r.0.bundle() == state.bundle(),
{
    proof {
        use_type_invariant(&state);
    }
    let mut s = state;
    match (s.stage, event) {
        (PublishStage::Origin, PublishEvent::Origin(t)) => match check_origin(
            t.as_str(),
            s.expected_remote.as_str(),
        ) {
            Ok(()) => {
                s.origin_ok = true;
                s.stage = PublishStage::Status;
                (s, PublishAction::ReadStatus)
            },
            Err(e) => {
                s.stage = PublishStage::Stopped;
                (s, PublishAction::Stop(e))
            },
        },
        (PublishStage::Status, PublishEvent::Status(t)) => match check_clean(t.as_str()) {
            Ok(()) => {
                s.clean = true;
                s.stage = PublishStage::Head;
                (s, PublishAction::ReadHead)
            },
            Err(e) => {
                s.stage = PublishStage::Stopped;
                (s, PublishAction::Stop(e))
            },
        },
        (PublishStage::Head, PublishEvent::Head(t)) => match check_head(t.as_str()) {
            Ok(()) => {
                s.head = t;
                s.head_ok = true;
                s.stage = PublishStage::Build;
                (s, PublishAction::Build)
            },
            Err(e) => {
                s.stage = PublishStage::Stopped;
                (s, PublishAction::Stop(e))
            },
        },
        (PublishStage::Build, PublishEvent::Built) => {
            s.stage = PublishStage::BuildDiff;
            (s, PublishAction::CheckBuildDiff)
        },
        (
            PublishStage::BuildDiff,
            PublishEvent::BuildDiff { worktree_unchanged, index_unchanged },
        ) => match check_build_clean(worktree_unchanged, index_unchanged) {
            Ok(()) => {
                s.build_clean = true;
                s.stage = PublishStage::Push;
                (s, PublishAction::Push)
            },
            Err(e) => {
                s.stage = PublishStage::Stopped;
                (s, PublishAction::Stop(e))
            },
        },
        (PublishStage::Push, PublishEvent::Pushed) => {
            s.stage = PublishStage::Upload;
            (s, PublishAction::Upload)
        },
        (PublishStage::Upload, PublishEvent::Uploaded(bundle_id)) => {
            let head = s.head.clone();
            s.bundle = bundle_id.clone();
            s.stage = PublishStage::Publish;
            (s, PublishAction::Publish { head, bundle_id })
        },
        (PublishStage::Publish, PublishEvent::Published { app_id, source_commit_sha }) => {
            let sha = match &source_commit_sha {
                Some(x) => Some(x.as_str()),
                None => None,
            };
            match check_published(s.app_id.as_str(), s.head.as_str(), app_id.as_str(), sha) {
                Ok(()) => {
                    s.stage = PublishStage::Done;
                    (s, PublishAction::Finish)
                },
                Err(e) => {
                    s.stage = PublishStage::Stopped;
                    (s, PublishAction::Stop(e))
                },
            }
        },
        (stage, _) => {
            let action = match stage {
                PublishStage::Origin => PublishAction::ReadOrigin,
                PublishStage::Status => PublishAction::ReadStatus,
                PublishStage::Head => PublishAction::ReadHead,
                PublishStage::Build => PublishAction::Build,
                PublishStage::BuildDiff => PublishAction::CheckBuildDiff,
                PublishStage::Push => PublishAction::Push,
                PublishStage::Upload => PublishAction::Upload,
                PublishStage::Publish => PublishAction::Publish {
                    head: s.head.clone(),
                    bundle_id: s.bundle.clone(),
                },
                PublishStage::Done => PublishAction::Nothing,
                PublishStage::Stopped => PublishAction::Nothing,
            };
            (s, action)
        },
    }
}

// ---------------------------------------------------------------------------
// maypop init
// ---------------------------------------------------------------------------

/// What `maypop init` waits for.
#[derive(Clone, Copy, Debug, PartialEq, Eq, Structural)]
pub enum InitStage {
    /// Whether the repository records an app id and has an `origin` remote.
    Connection,
    /// The login the token belongs to.
    Login,
    /// The `[app]` metadata of an existing `maypop.toml`.
    Metadata,
    /// The end of writing `maypop.toml`.
    Config,
    /// The id of the created app.
    Create,
    /// The end of configuring the repository.
    Configure,
    /// Nothing: the app is created and connected.
    Done,
    /// Nothing: a check refused to go on.
    Stopped,
}

/// What `maypop init` has learnt so far.
pub struct InitState {
    stage: InitStage,
    repository: String,
    name: Option<String>,
    description: Option<String>,
    visibility: Option<String>,
    unconnected: bool,
    identity: bool,
    resolved: bool,
}

/// What the steps of `maypop init` report.
#[derive(Debug)]
pub enum InitEvent {
    /// Whether the repository records an app id and has an `origin` remote.
    Connection { has_app_id: bool, has_origin: bool },
    /// The login the saved or explicit token belongs to.
    SignedIn(CredentialUser),
    /// The `[app]` metadata of an existing `maypop.toml`, if any.
    Metadata(Option<AppConfig>),
    /// `maypop.toml` was written.
    ConfigWritten,
    /// The service created the app under this id.
    Created(String),
    /// The repository now points at the app.
    Configured,
}

/// What `maypop init` does next.
#[derive(Debug)]
pub enum InitAction {
    /// Find whether the repository records an app id and has an `origin` remote.
    CheckConnection,
    /// Look up the token and ask the service whose login it is.
    SignIn,
    /// Read the `[app]` metadata of an existing `maypop.toml`.
    ReadMetadata,
    /// Write `maypop.toml` with this metadata.
    WriteConfig(AppConfig),
    /// Ask the service to create the app with that metadata.
    CreateApp,
    /// Point the repository at the app with this id.
    ConfigureRepository(String),
    /// Report the new app.
    Finish,
    /// Stop with this error.
    Stop(UserError),
    /// Nothing: no step remains.
    Nothing,
}

/// Whether `action` is what repeats the step that `stage` waits on. The
/// metadata to write and the id to configure were handed out with their
/// steps and are not kept, so those steps have nothing to repeat.
pub open spec fn init_awaits(stage: InitStage, action: InitAction) -> bool {
    match stage {
        InitStage::Connection => action is CheckConnection,
        InitStage::Login => action is SignIn,
        InitStage::Metadata => action is ReadMetadata,
        InitStage::Config => action is Nothing,
        InitStage::Create => action is CreateApp,
        InitStage::Configure => action is Nothing,
        InitStage::Done => action is Nothing,
        InitStage::Stopped => action is Nothing,
    }
}

/// Whether `event` is what `stage` waits for.
pub open spec fn init_answers(stage: InitStage, event: InitEvent) -> bool {
    match event {
        InitEvent::Connection { .. } => stage is Connection,
        InitEvent::SignedIn(_) => stage is Login,
        InitEvent::Metadata(_) => stage is Metadata,
        InitEvent::ConfigWritten => stage is Config,
        InitEvent::Created(_) => stage is Create,
        InitEvent::Configured => stage is Configure,
    }
}

impl InitState {
    /// Each stage is reached only with the checks before it passed.
    #[verifier::type_invariant]
    spec fn checks_before_stage(self) -> bool {
        &&& self.stage is Login ==> self.unconnected
        &&& self.stage is Metadata ==> self.unconnected && self.identity
        &&& (self.stage is Config || self.stage is Create || self.stage is Configure
            || self.stage is Done) ==> self.unconnected && self.identity && self.resolved
    }

    /// The stage the command is in.
    pub closed spec fn stage(self) -> InitStage {
        self.stage
    }

    /// The repository directory.
    pub closed spec fn repository(self) -> Seq<char> {
        self.repository@
    }

    /// The name, description and visibility given as flags.
    pub closed spec fn flags(self) -> (Option<Seq<char>>, Option<Seq<char>>, Option<Seq<char>>) {
        (name_view_of(self.name), name_view_of(self.description), name_view_of(self.visibility))
    }

    /// The repository was found to hold no app and no `origin`.
    pub closed spec fn unconnected_checked(self) -> bool {
        self.unconnected
    }

    /// The login was found to have a Git identity.
    pub closed spec fn identity_checked(self) -> bool {
        self.identity
    }

    /// The app's metadata was resolved.
    pub closed spec fn metadata_resolved(self) -> bool {
        self.resolved
    }
}

/// The view of an optional owned string.
pub open spec fn name_view_of(o: Option<String>) -> Option<Seq<char>> {
    match o {
        Some(s) => Some(s@),
        None => None,
    }
}

fn as_text(o: &Option<String>) -> (r: Option<&str>)
    ensures
        name_view(r) == name_view_of(*o),
{
    match o {
        Some(s) => Some(s.as_str()),
        None => None,
    }
}

/// Start `maypop init` in `repository` with the given flags: nothing is
/// checked yet, and the first step looks at the repository's connection.
pub fn init_start(
    repository: String,
    name: Option<String>,
    description: Option<String>,
    visibility: Option<String>,
) -> (r: (InitState, InitAction))
    ensures
        r.0.stage() == InitStage::Connection,
        r.0.repository() == repository@,
        r.0.flags() == (name_view_of(name), name_view_of(description), name_view_of(visibility)),
        !r.0.unconnected_checked() && !r.0.identity_checked() && !r.0.metadata_resolved(),
        r.1 is CheckConnection,
{
    (
        InitState {
            stage: InitStage::Connection,
            repository,
            name,
            description,
            visibility,
            unconnected: false,
            identity: false,
            resolved: false,
        },
        InitAction::CheckConnection,
    )
}

/// Take the outcome of the awaited step and decide the next one. An event
/// that the current stage does not wait for changes nothing. A connected
/// repository is refused before any token is looked up or request made; a
/// login without a Git identity before anything is written; and the app is
/// created only once its metadata is resolved and written.
pub fn init_next(state: InitState, event: InitEvent) -> (r: (InitState, InitAction))
    ensures
        r.1 is SignIn ==> r.0.unconnected_checked(),
        r.1 is ReadMetadata ==> r.0.unconnected_checked() && r.0.identity_checked(),
        r.1 is WriteConfig || r.1 is CreateApp || r.1 is ConfigureRepository || r.1 is Finish
            ==> r.0.unconnected_checked() && r.0.identity_checked() && r.0.metadata_resolved(),
        r.0.repository() == state.repository() && r.0.flags() == state.flags(),
        r.0.unconnected_checked() == (state.unconnected_checked() || (state.stage() is Connection
            && (event matches InitEvent::Connection { has_app_id, has_origin } && !has_app_id
            && !has_origin))),
        r.0.identity_checked() == (state.identity_checked() || (state.stage() is Login
            && (event matches InitEvent::SignedIn(u) && u.git_user_id@.len() > 0))),
        !init_answers(state.stage(), event) ==> r.0 == state && init_awaits(state.stage(), r.1),
        init_answers(state.stage(), event) ==> match event {
            InitEvent::Connection { has_app_id, has_origin } => if has_app_id {
                r.0.stage() is Stopped && (r.1 matches InitAction::Stop(e) && e is AlreadyConnected)
            } else if has_origin {
                r.0.stage() is Stopped && (r.1 matches InitAction::Stop(e) && e is HasOrigin)
            } else {
                r.0.stage() is Login && r.1 is SignIn
            },
            InitEvent::SignedIn(u) => if u.git_user_id@.len() > 0 {
                r.0.stage() is Metadata && r.1 is ReadMetadata
            } else {
                r.0.stage() is Stopped && (r.1 matches InitAction::Stop(e) && e is LoginPredatesGit)
            },
            InitEvent::Metadata(configured) => if initial_name(
                state.repository(),
                opt_view(configured_or_empty(configured).name),
                state.flags().0,
            ) is Some {
                r.0.stage() is Config && r.0.metadata_resolved() && (
                r.1 matches InitAction::WriteConfig(app) && initial_app_of(
                    app,
                    state.repository(),
                    configured,
                    state.flags().0,
                    state.flags().1,
                    state.flags().2,
                ))
            } else {
                r.0.stage() is Stopped && (r.1 matches InitAction::Stop(e) && e is NoAppName)
            },
            InitEvent::ConfigWritten => r.0.stage() is Create && r.1 is CreateApp,
            InitEvent::Created(id) => r.0.stage() is Configure && (r.1 matches InitAction::ConfigureRepository(
                a,
            ) && a@ == id@),
            InitEvent::Configured => r.0.stage() is Done && r.1 is Finish,
        },
{
    proof {
        use_type_invariant(&state);
    }
    let mut s = state;
    match (s.stage, event) {
        (InitStage::Connection, InitEvent::Connection { has_app_id, has_origin }) => match check_unconnected(has_app_id, has_origin) {
            Ok(()) => {
                s.unconnected = true;
                s.stage = InitStage::Login;
                (s, InitAction::SignIn)
            },
            Err(e) => {
                s.stage = InitStage::Stopped;
                (s, InitAction::Stop(e))
            },
        },
        (InitStage::Login, InitEvent::SignedIn(user)) => match check_git_identity(&user) {
            Ok(()) => {
                s.identity = true;
                s.stage = InitStage::Metadata;
                (s, InitAction::ReadMetadata)
            },
            Err(e) => {
                s.stage = InitStage::Stopped;
                (s, InitAction::Stop(e))
            },
        },
        (InitStage::Metadata, InitEvent::Metadata(configured)) => {
            let resolved = resolve_initial_app(
                s.repository.as_str(),
                configured,
                as_text(&s.name),
                as_text(&s.description),
                as_text(&s.visibility),
            );
            match resolved {
                Ok(app) => {
                    s.resolved = true;
                    s.stage = InitStage::Config;
                    (s, InitAction::WriteConfig(app))
                },
                Err(e) => {
                    s.stage = InitStage::Stopped;
                    (s, InitAction::Stop(e))
                },
            }
        },
        (InitStage::Config, InitEvent::ConfigWritten) => {
            s.stage = InitStage::Create;
            (s, InitAction::CreateApp)
        },
        (InitStage::Create, InitEvent::Created(app_id)) => {
            s.stage = InitStage::Configure;
            (s, InitAction::ConfigureRepository(app_id))
        },
        (InitStage::Configure, InitEvent::Configured) => {
            s.stage = InitStage::Done;
            (s, InitAction::Finish)
        },
        (stage, _) => {
            let action = match stage {
                InitStage::Connection => InitAction::CheckConnection,
                InitStage::Login => InitAction::SignIn,
                InitStage::Metadata => InitAction::ReadMetadata,
                InitStage::Config => InitAction::Nothing,
                InitStage::Create => InitAction::CreateApp,
                InitStage::Configure => InitAction::Nothing,
                InitStage::Done => InitAction::Nothing,
                InitStage::Stopped => InitAction::Nothing,
            };
            (s, action)
        },
    }
}

// ---------------------------------------------------------------------------
// maypop apply
// ---------------------------------------------------------------------------

/// What `maypop apply` waits for.
#[derive(Clone, Copy, Debug, PartialEq, Eq, Structural)]
pub enum ApplyStage {
    /// The `[app]` metadata of `maypop.toml`.
    Metadata,
    /// The resolved repository and thumbnail paths.
    Thumbnail,
    /// The content id of the uploaded thumbnail.
    Upload,
    /// The service's answer to the update.
    Update,
    /// Nothing: the metadata is applied.
    Done,
    /// Nothing: a check refused to go on.
    Stopped,
}

/// What `maypop apply` has learnt so far.
pub struct ApplyState {
    stage: ApplyStage,
    config: Option<AppConfig>,
    thumbnail_inside: bool,
}

/// What the steps of `maypop apply` report.
#[derive(Debug)]
pub enum ApplyEvent {
    /// The `[app]` metadata of `maypop.toml`, if it has that table.
    Metadata(Option<AppConfig>),
    /// The repository and the thumbnail, both resolved to canonical paths.
    ThumbnailPaths { repository: String, thumbnail: String },
    /// The thumbnail was uploaded under this content id.
    ThumbnailUploaded(String),
    /// The service accepted the update.
    Updated,
}

/// What `maypop apply` does next.
#[derive(Debug)]
pub enum ApplyAction {
    /// Read the `[app]` metadata of `maypop.toml`.
    ReadMetadata,
    /// Resolve the repository and this thumbnail path to canonical paths.
    ResolveThumbnail(String),
    /// Upload the thumbnail at this canonical path.
    UploadThumbnail(String),
    /// Send these fields as the app's new metadata.
    Update(Vec<(String, AppField)>),
    /// Report the updated app.
    Finish,
    /// Stop with this error.
    Stop(UserError),
    /// Nothing: no step remains.
    Nothing,
}

/// Whether `event` is what `stage` waits for.
pub open spec fn apply_answers(stage: ApplyStage, event: ApplyEvent) -> bool {
    match event {
        ApplyEvent::Metadata(_) => stage is Metadata,
        ApplyEvent::ThumbnailPaths { .. } => stage is Thumbnail,
        ApplyEvent::ThumbnailUploaded(_) => stage is Upload,
        ApplyEvent::Updated => stage is Update,
    }
}

/// Whether `action` is what repeats the step that `stage` waits on. The
/// thumbnail path, its resolved path and the fields were handed out with
/// their steps; only reading the metadata can be repeated.
pub open spec fn apply_awaits(stage: ApplyStage, action: ApplyAction) -> bool {
    match stage {
        ApplyStage::Metadata => action is ReadMetadata,
        _ => action is Nothing,
    }
}

/// The update that `config` asks for with the thumbnail's content id, or
/// the refusal when it sets nothing.
pub open spec fn update_or_refusal(
    config: AppConfig,
    cid: Option<Seq<char>>,
    stage: ApplyStage,
    action: ApplyAction,
) -> bool {
    if app_fields_spec(config, cid).len() > 0 {
        stage is Update && (action matches ApplyAction::Update(f) && field_models(f@)
            == app_fields_spec(config, cid))
    } else {
        stage is Stopped && (action matches ApplyAction::Stop(e) && e is NothingToApply)
    }
}

impl ApplyState {
    /// The metadata is kept while its thumbnail is handled, and the upload
    /// comes only after the thumbnail was found inside the repository.
    #[verifier::type_invariant]
    spec fn thumbnail_before_upload(self) -> bool {
        &&& (self.stage is Thumbnail || self.stage is Upload) ==> self.config is Some
        &&& self.stage is Upload ==> self.thumbnail_inside
    }

    /// The stage the command is in.
    pub closed spec fn stage(self) -> ApplyStage {
        self.stage
    }

    /// The metadata kept while its thumbnail is handled.
    pub closed spec fn config(self) -> Option<AppConfig> {
        self.config
    }

    /// The thumbnail was found inside the repository.
    pub closed spec fn thumbnail_checked(self) -> bool {
        self.thumbnail_inside
    }
}

/// Start `maypop apply`: the first step reads the metadata.
pub fn apply_start() -> (r: (ApplyState, ApplyAction))
    ensures
        r.0.stage() == ApplyStage::Metadata,
        r.0.config() is None,
        !r.0.thumbnail_checked(),
        r.1 is ReadMetadata,
{
    (
        ApplyState { stage: ApplyStage::Metadata, config: None, thumbnail_inside: false },
        ApplyAction::ReadMetadata,
    )
}

/// Take the outcome of the awaited step and decide the next one. An event
/// that the current stage does not wait for changes nothing. Without an
/// `[app]` table nothing is sent; a thumbnail is uploaded only once it is
/// found inside the repository; and the update carries exactly the fields
/// the table sets, with the thumbnail's content id when there is one.
pub fn apply_next(state: ApplyState, event: ApplyEvent) -> (r: (ApplyState, ApplyAction))
    ensures
        r.1 is UploadThumbnail ==> r.0.thumbnail_checked(),
        r.0.thumbnail_checked() == (state.thumbnail_checked() || (state.stage() is Thumbnail
            && (event matches ApplyEvent::ThumbnailPaths { repository, thumbnail }
            && is_component_prefix(components(repository@), components(thumbnail@))))),
        !apply_answers(state.stage(), event) ==> r.0 == state && apply_awaits(state.stage(), r.1),
        apply_answers(state.stage(), event) ==> match event {
            ApplyEvent::Metadata(None) => r.0.stage() is Stopped && (r.1 matches ApplyAction::Stop(
                e,
            ) && e is NoAppTable),
            ApplyEvent::Metadata(Some(c)) => match c.thumbnail {
                Some(t) => r.0.stage() is Thumbnail && r.0.config() == Some(c) && (
                r.1 matches ApplyAction::ResolveThumbnail(p) && p@ == t@),
                None => update_or_refusal(c, None, r.0.stage(), r.1),
            },
            ApplyEvent::ThumbnailPaths { repository, thumbnail } => if is_component_prefix(
                components(repository@),
                components(thumbnail@),
            ) {
                r.0.stage() is Upload && r.0.config() == state.config() && (
                r.1 matches ApplyAction::UploadThumbnail(p) && p@ == thumbnail@)
            } else {
                r.0.stage() is Stopped && (r.1 matches ApplyAction::Stop(e)
                    && e is ThumbnailOutsideRepository)
            },
            ApplyEvent::ThumbnailUploaded(cid) => state.config() matches Some(c)
                && update_or_refusal(c, Some(cid@), r.0.stage(), r.1),
            ApplyEvent::Updated => r.0.stage() is Done && r.1 is Finish,
        },
{
    proof {
        use_type_invariant(&state);
    }
    let mut s = state;
    match (s.stage, event) {
        (ApplyStage::Metadata, ApplyEvent::Metadata(None)) => {
            s.stage = ApplyStage::Stopped;
            (s, ApplyAction::Stop(UserError::NoAppTable))
        },
        (ApplyStage::Metadata, ApplyEvent::Metadata(Some(c))) => {
            match &c.thumbnail {
                Some(t) => {
                    let path = t.clone();
                    s.config = Some(c);
                    s.stage = ApplyStage::Thumbnail;
                    (s, ApplyAction::ResolveThumbnail(path))
                },
                None => match app_update_fields(c, None) {
                    Ok(fields) => {
                        s.stage = ApplyStage::Update;
                        (s, ApplyAction::Update(fields))
                    },
                    Err(e) => {
                        s.stage = ApplyStage::Stopped;
                        (s, ApplyAction::Stop(e))
                    },
                },
            }
        },
        (ApplyStage::Thumbnail, ApplyEvent::ThumbnailPaths { repository, thumbnail }) => {
            match check_thumbnail_inside(repository.as_str(), thumbnail.as_str()) {
                Ok(()) => {
                    s.thumbnail_inside = true;
                    s.stage = ApplyStage::Upload;
                    (s, ApplyAction::UploadThumbnail(thumbnail))
                },
                Err(e) => {
                    s.stage = ApplyStage::Stopped;
                    (s, ApplyAction::Stop(e))
                },
            }
        },
        (ApplyStage::Upload, ApplyEvent::ThumbnailUploaded(cid)) => {
            let ApplyState { config, thumbnail_inside, .. } = s;
            match config {
                Some(c) => match app_update_fields(c, Some(cid)) {
                    Ok(fields) => (
                        ApplyState { stage: ApplyStage::Update, config: None, thumbnail_inside },
                        ApplyAction::Update(fields),
                    ),
                    Err(e) => (
                        ApplyState { stage: ApplyStage::Stopped, config: None, thumbnail_inside },
                        ApplyAction::Stop(e),
                    ),
                },
                None => (
                    ApplyState { stage: ApplyStage::Stopped, config: None, thumbnail_inside },
                    ApplyAction::Nothing,
                ),
            }
        },
        (ApplyStage::Update, ApplyEvent::Updated) => {
            s.stage = ApplyStage::Done;
            (s, ApplyAction::Finish)
        },
        (stage, _) => {
            let action = match stage {
                ApplyStage::Metadata => ApplyAction::ReadMetadata,
                _ => ApplyAction::Nothing,
            };
            (s, action)
        },
    }
}

} // verus!
