use maypop::user_commands::UserError;
use maypop::workflow::{publish_next, publish_start, PublishAction, PublishEvent, PublishState};

const SHA: &str = "0123456789abcdef0123456789abcdef01234567";
const REMOTE: &str = "https://git.maypop.ai/u1/app-1.git";

fn step(state: PublishState, event: PublishEvent) -> (PublishState, PublishAction) {
    publish_next(state, event)
}

fn at_build_diff() -> PublishState {
    let (state, action) = publish_start("app-1".into(), REMOTE.into());
    assert!(matches!(action, PublishAction::ReadOrigin));
    let (state, action) = step(state, PublishEvent::Origin(format!("{REMOTE}/")));
    assert!(matches!(action, PublishAction::ReadStatus));
    let (state, action) = step(state, PublishEvent::Status(String::new()));
    assert!(matches!(action, PublishAction::ReadHead));
    let (state, action) = step(state, PublishEvent::Head(SHA.into()));
    assert!(matches!(action, PublishAction::Build));
    let (state, action) = step(state, PublishEvent::Built);
    assert!(matches!(action, PublishAction::CheckBuildDiff));
    state
}

#[test]
fn a_clean_checked_commit_is_pushed_uploaded_and_published() {
    let state = at_build_diff();
    let (state, action) = step(
        state,
        PublishEvent::BuildDiff {
            worktree_unchanged: true,
            index_unchanged: true,
        },
    );
    assert!(matches!(action, PublishAction::Push));
    let (state, action) = step(state, PublishEvent::Pushed);
    assert!(matches!(action, PublishAction::Upload));
    let (state, action) = step(state, PublishEvent::Uploaded("bundle-9".into()));
    match &action {
        PublishAction::Publish { head, bundle_id } => {
            assert_eq!(head, SHA);
            assert_eq!(bundle_id, "bundle-9");
        }
        other => panic!("expected the publish request, got {other:?}"),
    }
    let (state, action) = step(
        state,
        PublishEvent::Published {
            app_id: "app-1".into(),
            source_commit_sha: Some(SHA.into()),
        },
    );
    assert!(matches!(action, PublishAction::Finish));
    let (_, action) = step(state, PublishEvent::Pushed);
    assert!(matches!(action, PublishAction::Nothing));
}

#[test]
fn each_refused_check_stops_before_the_push() {
    let (state, _) = publish_start("app-1".into(), REMOTE.into());
    let (state, action) = step(state, PublishEvent::Origin("https://elsewhere/x.git".into()));
    assert!(matches!(action, PublishAction::Stop(UserError::RemoteMismatch)));
    let (_, action) = step(state, PublishEvent::Status(String::new()));
    assert!(matches!(action, PublishAction::Nothing));

    let (state, _) = publish_start("app-1".into(), REMOTE.into());
    let (state, _) = step(state, PublishEvent::Origin(REMOTE.into()));
    let (_, action) = step(state, PublishEvent::Status(" M src/main.ts\n".into()));
    assert!(matches!(action, PublishAction::Stop(UserError::DirtyWorktree)));

    let (state, _) = publish_start("app-1".into(), REMOTE.into());
    let (state, _) = step(state, PublishEvent::Origin(REMOTE.into()));
    let (state, _) = step(state, PublishEvent::Status(String::new()));
    let (_, action) = step(state, PublishEvent::Head("abc123".into()));
    assert!(matches!(action, PublishAction::Stop(UserError::NotSha1)));

    let (_, action) = step(
        at_build_diff(),
        PublishEvent::BuildDiff {
            worktree_unchanged: true,
            index_unchanged: false,
        },
    );
    assert!(matches!(action, PublishAction::Stop(UserError::BuildModifiedFiles)));
}

#[test]
fn an_answer_for_another_commit_is_refused() {
    let (state, _) = step(
        at_build_diff(),
        PublishEvent::BuildDiff {
            worktree_unchanged: true,
            index_unchanged: true,
        },
    );
    let (state, _) = step(state, PublishEvent::Pushed);
    let (state, _) = step(state, PublishEvent::Uploaded("bundle-9".into()));
    let (_, action) = step(
        state,
        PublishEvent::Published {
            app_id: "app-1".into(),
            source_commit_sha: Some("f".repeat(40)),
        },
    );
    assert!(matches!(action, PublishAction::Stop(UserError::WrongPublishResult)));
}

#[test]
fn an_unexpected_event_repeats_the_awaited_step() {
    let (state, _) = publish_start("app-1".into(), REMOTE.into());
    let (state, action) = step(state, PublishEvent::Pushed);
    assert!(matches!(action, PublishAction::ReadOrigin));
    let (_, action) = step(
        state,
        PublishEvent::BuildDiff {
            worktree_unchanged: true,
            index_unchanged: true,
        },
    );
    assert!(matches!(action, PublishAction::ReadOrigin));
}

use maypop::credentials::CredentialUser;
use maypop::workflow::{init_next, init_start, InitAction, InitEvent};

fn user(git_user_id: &str) -> CredentialUser {
    CredentialUser {
        id: "u1".into(),
        username: "ana".into(),
        name: None,
        email: "ana@example.com".into(),
        git_user_id: git_user_id.into(),
        git_server_url: "https://git.maypop.ai".into(),
    }
}

#[test]
fn init_creates_the_app_only_after_every_check() {
    let (state, action) = init_start("/work/demo".into(), None, None, Some("public".into()));
    assert!(matches!(action, InitAction::CheckConnection));
    let (state, action) = init_next(
        state,
        InitEvent::Connection {
            has_app_id: false,
            has_origin: false,
        },
    );
    assert!(matches!(action, InitAction::SignIn));
    let (state, action) = init_next(state, InitEvent::SignedIn(user("g1")));
    assert!(matches!(action, InitAction::ReadMetadata));
    let (state, action) = init_next(state, InitEvent::Metadata(None));
    let app = match action {
        InitAction::WriteConfig(app) => app,
        other => panic!("expected the configuration, got {other:?}"),
    };
    assert_eq!(app.name.as_deref(), Some("demo"));
    assert_eq!(app.visibility.as_deref(), Some("public"));
    let (state, action) = init_next(state, InitEvent::ConfigWritten);
    assert!(matches!(action, InitAction::CreateApp));
    let (state, action) = init_next(state, InitEvent::Created("app-7".into()));
    assert!(matches!(&action, InitAction::ConfigureRepository(id) if id == "app-7"));
    let (state, action) = init_next(state, InitEvent::Configured);
    assert!(matches!(action, InitAction::Finish));
    let (_, action) = init_next(state, InitEvent::Configured);
    assert!(matches!(action, InitAction::Nothing));
}

#[test]
fn init_refuses_a_connected_repository_before_signing_in() {
    let (state, _) = init_start("/work/demo".into(), None, None, None);
    let (state, action) = init_next(
        state,
        InitEvent::Connection {
            has_app_id: true,
            has_origin: true,
        },
    );
    assert!(matches!(action, InitAction::Stop(UserError::AlreadyConnected)));
    let (_, action) = init_next(state, InitEvent::SignedIn(user("g1")));
    assert!(matches!(action, InitAction::Nothing));

    let (state, _) = init_start("/work/demo".into(), None, None, None);
    let (_, action) = init_next(
        state,
        InitEvent::Connection {
            has_app_id: false,
            has_origin: true,
        },
    );
    assert!(matches!(action, InitAction::Stop(UserError::HasOrigin)));
}

#[test]
fn init_refuses_a_login_without_git_before_writing() {
    let (state, _) = init_start("/work/demo".into(), None, None, None);
    let (state, _) = init_next(
        state,
        InitEvent::Connection {
            has_app_id: false,
            has_origin: false,
        },
    );
    let (state, action) = init_next(state, InitEvent::Metadata(None));
    assert!(matches!(action, InitAction::SignIn));
    let (_, action) = init_next(state, InitEvent::SignedIn(user("")));
    assert!(matches!(action, InitAction::Stop(UserError::LoginPredatesGit)));
}

use maypop::project::AppConfig;
use maypop::user_commands::AppField;
use maypop::workflow::{apply_next, apply_start, ApplyAction, ApplyEvent};

fn metadata(thumbnail: Option<&str>) -> AppConfig {
    AppConfig {
        name: Some("Demo".into()),
        description: None,
        visibility: None,
        link_access: None,
        allow_remixing: None,
        tags: None,
        thumbnail: thumbnail.map(str::to_string),
    }
}

#[test]
fn apply_uploads_an_inside_thumbnail_before_the_update() {
    let (state, action) = apply_start();
    assert!(matches!(action, ApplyAction::ReadMetadata));
    let (state, action) = apply_next(state, ApplyEvent::Metadata(Some(metadata(Some("thumb.png")))));
    assert!(matches!(&action, ApplyAction::ResolveThumbnail(p) if p == "thumb.png"));
    let (state, action) = apply_next(
        state,
        ApplyEvent::ThumbnailPaths {
            repository: "/work/demo".into(),
            thumbnail: "/work/demo/thumb.png".into(),
        },
    );
    assert!(matches!(&action, ApplyAction::UploadThumbnail(p) if p == "/work/demo/thumb.png"));
    let (state, action) = apply_next(state, ApplyEvent::ThumbnailUploaded("cid-1".into()));
    let fields = match action {
        ApplyAction::Update(fields) => fields,
        other => panic!("expected the update, got {other:?}"),
    };
    assert_eq!(fields.len(), 2);
    assert_eq!(fields[0].0, "name");
    assert!(matches!(&fields[0].1, AppField::Text(t) if t == "Demo"));
    assert_eq!(fields[1].0, "thumbnailCid");
    assert!(matches!(&fields[1].1, AppField::Text(t) if t == "cid-1"));
    let (_, action) = apply_next(state, ApplyEvent::Updated);
    assert!(matches!(action, ApplyAction::Finish));
}

#[test]
fn apply_refuses_before_sending_anything() {
    let (state, _) = apply_start();
    let (_, action) = apply_next(state, ApplyEvent::Metadata(None));
    assert!(matches!(action, ApplyAction::Stop(UserError::NoAppTable)));

    let (state, _) = apply_start();
    let (state, _) = apply_next(state, ApplyEvent::Metadata(Some(metadata(Some("../x.png")))));
    let (_, action) = apply_next(
        state,
        ApplyEvent::ThumbnailPaths {
            repository: "/work/demo".into(),
            thumbnail: "/work/x.png".into(),
        },
    );
    assert!(matches!(action, ApplyAction::Stop(UserError::ThumbnailOutsideRepository)));

    let mut empty = metadata(None);
    empty.name = None;
    let (state, _) = apply_start();
    let (_, action) = apply_next(state, ApplyEvent::Metadata(Some(empty)));
    assert!(matches!(action, ApplyAction::Stop(UserError::NothingToApply)));

    let (state, _) = apply_start();
    let (_, action) = apply_next(state, ApplyEvent::Updated);
    assert!(matches!(action, ApplyAction::ReadMetadata));
}

#[test]
fn init_stops_only_when_no_name_can_be_found() {
    let (state, _) = init_start("/".into(), None, None, None);
    let (state, _) = init_next(
        state,
        InitEvent::Connection {
            has_app_id: false,
            has_origin: false,
        },
    );
    let (state, _) = init_next(state, InitEvent::SignedIn(user("g1")));
    let (_, action) = init_next(state, InitEvent::Metadata(None));
    assert!(matches!(action, InitAction::Stop(UserError::NoAppName)));

    let (state, _) = init_start("/".into(), Some("Named".into()), None, None);
    let (state, _) = init_next(
        state,
        InitEvent::Connection {
            has_app_id: false,
            has_origin: false,
        },
    );
    let (state, _) = init_next(state, InitEvent::SignedIn(user("g1")));
    let (_, action) = init_next(state, InitEvent::Metadata(None));
    assert!(matches!(&action, InitAction::WriteConfig(app) if app.name.as_deref() == Some("Named")));
}
