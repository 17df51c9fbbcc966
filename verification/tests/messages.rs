use maypop::ai::AiError;
use maypop::bundle_upload::BundleError;
use maypop::credentials::CredentialError;
use maypop::messages::quoted;
use maypop::paths::PathIssue;
use maypop::project::ProjectError;
use maypop::user_commands::UserError;

#[test]
fn media_errors_name_the_output_and_the_way_out() {
    assert_eq!(
        AiError::OutputExists.message("out/image.png", "png", "image"),
        "out/image.png already exists; pass `--force` to replace it"
    );
    assert_eq!(
        AiError::WrongExtension.message("a.jpg", "png, webp", "image"),
        "output must use one of these extensions: png, webp"
    );
    assert_eq!(
        AiError::FormatMismatch {
            format: "mp3".into(),
            extension: "wav".into()
        }
        .message("a.wav", "", "audio"),
        "audio format `mp3` does not match the .wav output path"
    );
    assert_eq!(
        AiError::InvalidMedia.message("a.mp4", "", "video"),
        "Maypop returned invalid base64 video data"
    );
}

#[test]
fn bundle_errors_name_the_output() {
    assert_eq!(
        BundleError::MissingEntry {
            entry: "index.html".into()
        }
        .message("/repo/dist"),
        "build output /repo/dist does not contain its entry point index.html"
    );
    assert_eq!(
        BundleError::UnsafePath {
            path: "../x".into()
        }
        .message("/repo/dist"),
        "build output contains an unsafe path: ../x"
    );
}

#[test]
fn profile_errors_say_how_to_recover() {
    assert_eq!(
        CredentialError::UnknownProfile {
            profile: "work".into()
        }
        .message("profiles.json"),
        "profile `work` does not exist; authenticate it with `maypop --profile work --url <url> auth`"
    );
    assert_eq!(
        CredentialError::UnsupportedVersion { version: 7 }.message("/home/a/profiles.json"),
        "profiles file at /home/a/profiles.json has unsupported version 7"
    );
    assert_eq!(
        UserError::Credentials(CredentialError::MissingDefault {
            default_profile: "x".into()
        })
        .message(),
        "profiles file at profiles.json selects missing default profile `x`"
    );
}

#[test]
fn workflow_errors_say_how_to_recover() {
    assert_eq!(
        UserError::NotAuthenticated {
            profile: Some("work".into()),
            api_url: "https://api.example".into()
        }
        .message(),
        "profile `work` is not authenticated; run `maypop --profile work --url https://api.example auth`"
    );
    assert_eq!(
        UserError::NotAuthenticated {
            profile: None,
            api_url: "https://api.example".into()
        }
        .message(),
        "not authenticated for https://api.example; run `maypop --url https://api.example auth`"
    );
    assert_eq!(
        UserError::DirtyWorktree.message(),
        "the Git worktree is not clean; commit or stash changes before publishing"
    );
}

#[test]
fn configuration_errors_name_the_field() {
    assert_eq!(
        ProjectError::UnknownFramework {
            value: "svelte".into()
        }
        .message("", ""),
        "unknown build.framework \"svelte\" in maypop.toml"
    );
    assert_eq!(
        ProjectError::UnsafePath {
            field: "app.thumbnail".into(),
            issue: PathIssue::Escapes
        }
        .message("", ""),
        "app.thumbnail must stay inside the Git repository"
    );
    assert_eq!(
        ProjectError::MissingOutput.message("vite", "dist"),
        "vite build output dist does not exist; override build.output in maypop.toml if needed"
    );
}

#[test]
fn quoting_escapes_like_debug_output() {
    for value in ["plain", "a\"b", "back\\slash", "line\nbreak\ttab\r"] {
        assert_eq!(quoted(value), format!("{value:?}"));
    }
}
