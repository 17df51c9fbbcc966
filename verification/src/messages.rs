//! The text shown to the user for each error of the library.
use crate::ai::AiError;
use crate::bundle_upload::BundleError;
use crate::credentials::CredentialError;
use crate::paths::PathIssue;
use crate::project::ProjectError;
use crate::text::{concat, decimal, decimal_text, owned, replace, replace_char};
use crate::user_commands::UserError;
use vstd::prelude::*;

verus! {

fn join3(a: &str, b: &str, c: &str) -> (r: String)
    ensures
        r@ == a@ + b@ + c@,
{
    concat(concat(a, b).as_str(), c)
}

fn join5(a: &str, b: &str, c: &str, d: &str, e: &str) -> (r: String)
    ensures
        r@ == a@ + b@ + c@ + d@ + e@,
{
    concat(concat(join3(a, b, c).as_str(), d).as_str(), e)
}

// ---------------------------------------------------------------------------
// Quoted text
// ---------------------------------------------------------------------------

/// `s` between double quotes, with backslashes, double quotes, newlines,
/// carriage returns and tabs written as their backslash escapes.
pub open spec fn quoted_spec(s: Seq<char>) -> Seq<char> {
    let a = replace_char(s, '\\', "\\\\"@);
    let b = replace_char(a, '"', "\\\""@);
    let c = replace_char(b, '\n', "\\n"@);
    let d = replace_char(c, '\r', "\\r"@);
    let e = replace_char(d, '\t', "\\t"@);
    "\""@ + e + "\""@
}

/// `s` quoted as `quoted_spec` says.
pub fn quoted(s: &str) -> (r: String)
    ensures
        r@ == quoted_spec(s@),
{
    let a = replace(s, '\\', "\\\\");
    let b = replace(a.as_str(), '"', "\\\"");
    let c = replace(b.as_str(), '\n', "\\n");
    let d = replace(c.as_str(), '\r', "\\r");
    let e = replace(d.as_str(), '\t', "\\t");
    join3("\"", e.as_str(), "\"")
}

// ---------------------------------------------------------------------------
// Media generation
// ---------------------------------------------------------------------------

/// The text of a media-generation error about the output at `path`, where
/// `extensions` lists the accepted extensions and `kind` names the media.
pub open spec fn ai_message(e: AiError, path: Seq<char>, extensions: Seq<char>, kind: Seq<char>) -> Seq<
    char,
> {
    match e {
        AiError::EmptyPrompt => "prompt cannot be empty"@,
        AiError::NoExtension => path + " has no valid file extension"@,
        AiError::WrongExtension => "output must use one of these extensions: "@ + extensions,
        AiError::OutputExists => path + " already exists; pass `--force` to replace it"@,
        AiError::OutputIsDirectory => path + " is a directory"@,
        AiError::NotAudioPath => "audio output must end in .mp3 or .wav"@,
        AiError::FormatMismatch { format, extension } => "audio format `"@ + format@
            + "` does not match the ."@ + extension@ + " output path"@,
        AiError::FastVideoTooLong =>
            "fast video generation supports at most 15 seconds; use `--model quality`"@,
        AiError::NoImageData => "Maypop returned no image data"@,
        AiError::InvalidMedia => "Maypop returned invalid base64 "@ + kind + " data"@,
    }
}

impl AiError {
    /// The message shown for this error about the output at `path`.
    pub fn message(&self, path: &str, extensions: &str, kind: &str) -> (r: String)
        ensures
            r@ == ai_message(*self, path@, extensions@, kind@),
    {
        match self {
            AiError::EmptyPrompt => owned("prompt cannot be empty"),
            AiError::NoExtension => concat(path, " has no valid file extension"),
            AiError::WrongExtension => concat("output must use one of these extensions: ", extensions),
            AiError::OutputExists => concat(path, " already exists; pass `--force` to replace it"),
            AiError::OutputIsDirectory => concat(path, " is a directory"),
            AiError::NotAudioPath => owned("audio output must end in .mp3 or .wav"),
            AiError::FormatMismatch { format, extension } => join5(
                "audio format `",
                format.as_str(),
                "` does not match the .",
                extension.as_str(),
                " output path",
            ),
            AiError::FastVideoTooLong => owned(
                "fast video generation supports at most 15 seconds; use `--model quality`",
            ),
            AiError::NoImageData => owned("Maypop returned no image data"),
            AiError::InvalidMedia => join3("Maypop returned invalid base64 ", kind, " data"),
        }
    }
}

// ---------------------------------------------------------------------------
// Bundles
// ---------------------------------------------------------------------------

/// The text of a bundle or thumbnail error about the directory or file at
/// `location`.
pub open spec fn bundle_message(e: BundleError, location: Seq<char>) -> Seq<char> {
    match e {
        BundleError::UnsafePath { path } => "build output contains an unsafe path: "@ + path@,
        BundleError::NoFiles => "build output "@ + location + " has no files"@,
        BundleError::MissingEntry { entry } => "build output "@ + location
            + " does not contain its entry point "@ + entry@,
        BundleError::NotAFile => "thumbnail "@ + location + " is not a file"@,
        BundleError::NotAnImage => "thumbnail "@ + location + " is not a recognized image"@,
    }
}

impl BundleError {
    /// The message shown for this error about the directory or file at `location`.
    pub fn message(&self, location: &str) -> (r: String)
        ensures
            r@ == bundle_message(*self, location@),
    {
        match self {
            BundleError::UnsafePath { path } => concat(
                "build output contains an unsafe path: ",
                path.as_str(),
            ),
            BundleError::NoFiles => join3("build output ", location, " has no files"),
            BundleError::MissingEntry { entry } => concat(
                join3("build output ", location, " does not contain its entry point ").as_str(),
                entry.as_str(),
            ),
            BundleError::NotAFile => join3("thumbnail ", location, " is not a file"),
            BundleError::NotAnImage => join3("thumbnail ", location, " is not a recognized image"),
        }
    }
}

// ---------------------------------------------------------------------------
// Profiles
// ---------------------------------------------------------------------------

/// The text of a profile-store error, where `file` names the profiles file.
pub open spec fn credential_message(e: CredentialError, file: Seq<char>) -> Seq<char> {
    match e {
        CredentialError::InvalidProfileName =>
            "profile names may contain only letters, numbers, `-`, and `_`"@,
        CredentialError::NoConfigDirectory =>
            "cannot find a config directory; set MAYPOP_CONFIG_DIR"@,
        CredentialError::UnknownProfile { profile } => "profile `"@ + profile@
            + "` does not exist; authenticate it with `maypop --profile "@ + profile@
            + " --url <url> auth`"@,
        CredentialError::ProfileUrlMismatch { profile, profile_url, app_url } => "profile `"@
            + profile@ + "` uses "@ + profile_url@ + ", but this app uses "@ + app_url@,
        CredentialError::NoProfiles => "no Maypop profiles are configured"@,
        CredentialError::UnsupportedVersion { version } => "profiles file at "@ + file
            + " has unsupported version "@ + decimal(version as int),
        CredentialError::MissingDefault { default_profile } => "profiles file at "@ + file
            + " selects missing default profile `"@ + default_profile@ + "`"@,
    }
}

impl CredentialError {
    /// The message shown for this error, where `file` names the profiles file.
    pub fn message(&self, file: &str) -> (r: String)
        ensures
            r@ == credential_message(*self, file@),
    {
        match self {
            CredentialError::InvalidProfileName => owned(
                "profile names may contain only letters, numbers, `-`, and `_`",
            ),
            CredentialError::NoConfigDirectory => owned(
                "cannot find a config directory; set MAYPOP_CONFIG_DIR",
            ),
            CredentialError::UnknownProfile { profile } => join5(
                "profile `",
                profile.as_str(),
                "` does not exist; authenticate it with `maypop --profile ",
                profile.as_str(),
                " --url <url> auth`",
            ),
            CredentialError::ProfileUrlMismatch { profile, profile_url, app_url } => concat(
                join5(
                    "profile `",
                    profile.as_str(),
                    "` uses ",
                    profile_url.as_str(),
                    ", but this app uses ",
                ).as_str(),
                app_url.as_str(),
            ),
            CredentialError::NoProfiles => owned("no Maypop profiles are configured"),
            CredentialError::UnsupportedVersion { version } => {
                let number = decimal_text(*version as i32);
                concat(
                    join3("profiles file at ", file, " has unsupported version ").as_str(),
                    number.as_str(),
                )
            },
            CredentialError::MissingDefault { default_profile } => join5(
                "profiles file at ",
                file,
                " selects missing default profile `",
                default_profile.as_str(),
                "`",
            ),
        }
    }
}

// ---------------------------------------------------------------------------
// App workflows
// ---------------------------------------------------------------------------

/// The text of an app-workflow error.
pub open spec fn user_message(e: UserError) -> Seq<char> {
    match e {
        UserError::Credentials(c) => credential_message(c, "profiles.json"@),
        UserError::NotAuthenticated { profile, api_url } => match profile {
            Some(p) => "profile `"@ + p@ + "` is not authenticated; run `maypop --profile "@ + p@
                + " --url "@ + api_url@ + " auth`"@,
            None => "not authenticated for "@ + api_url@ + "; run `maypop --url "@ + api_url@
                + " auth`"@,
        },
        UserError::NoAppName =>
            "could not infer an app name; pass --name or set app.name in maypop.toml"@,
        UserError::AlreadyConnected => "this repository is already connected to a Maypop app"@,
        UserError::HasOrigin => "this repository already has an origin remote"@,
        UserError::LoginPredatesGit =>
            "your saved login predates Git access; run `maypop auth` again"@,
        UserError::InvalidRemoteUrl => "invalid Maypop Git remote URL"@,
        UserError::InvalidServerUrl => "invalid Maypop Git server URL"@,
        UserError::RemoteTooLong => "the Maypop Git remote URL is too long"@,
        UserError::NotConnected =>
            "this repository is not connected to Maypop; run `maypop init`"@,
        UserError::RemoteMismatch =>
            "origin is not the Maypop Git remote configured for this app"@,
        UserError::DirtyWorktree =>
            "the Git worktree is not clean; commit or stash changes before publishing"@,
        UserError::NotSha1 => "Git HEAD is not a SHA-1 commit"@,
        UserError::BuildModifiedFiles =>
            "the build modified tracked files; restore or commit them before publishing"@,
        UserError::WrongPublishResult =>
            "Maypop returned a publish result for a different app or commit"@,
        UserError::NoAppTable =>
            "maypop.toml has no [app] table; add one or run `maypop init` in a new project"@,
        UserError::NothingToApply => "maypop.toml [app] has no fields to apply"@,
        UserError::ThumbnailOutsideRepository =>
            "app.thumbnail must stay inside the Git repository"@,
    }
}

impl UserError {
    /// The message shown for this error.
    pub fn message(&self) -> (r: String)
        ensures
            r@ == user_message(*self),
    {
        match self {
            UserError::Credentials(c) => c.message("profiles.json"),
            UserError::NotAuthenticated { profile, api_url } => match profile {
                Some(p) => concat(
                    join5(
                        "profile `",
                        p.as_str(),
                        "` is not authenticated; run `maypop --profile ",
                        p.as_str(),
                        " --url ",
                    ).as_str(),
                    concat(api_url.as_str(), " auth`").as_str(),
                ),
                None => join5(
                    "not authenticated for ",
                    api_url.as_str(),
                    "; run `maypop --url ",
                    api_url.as_str(),
                    " auth`",
                ),
            },
            UserError::NoAppName => owned(
                "could not infer an app name; pass --name or set app.name in maypop.toml",
            ),
            UserError::AlreadyConnected => owned(
                "this repository is already connected to a Maypop app",
            ),
            UserError::HasOrigin => owned("this repository already has an origin remote"),
            UserError::LoginPredatesGit => owned(
                "your saved login predates Git access; run `maypop auth` again",
            ),
            UserError::InvalidRemoteUrl => owned("invalid Maypop Git remote URL"),
            UserError::InvalidServerUrl => owned("invalid Maypop Git server URL"),
            UserError::RemoteTooLong => owned("the Maypop Git remote URL is too long"),
            UserError::NotConnected => owned(
                "this repository is not connected to Maypop; run `maypop init`",
            ),
            UserError::RemoteMismatch => owned(
                "origin is not the Maypop Git remote configured for this app",
            ),
            UserError::DirtyWorktree => owned(
                "the Git worktree is not clean; commit or stash changes before publishing",
            ),
            UserError::NotSha1 => owned("Git HEAD is not a SHA-1 commit"),
            UserError::BuildModifiedFiles => owned(
                "the build modified tracked files; restore or commit them before publishing",
            ),
            UserError::WrongPublishResult => owned(
                "Maypop returned a publish result for a different app or commit",
            ),
            UserError::NoAppTable => owned(
                "maypop.toml has no [app] table; add one or run `maypop init` in a new project",
            ),
            UserError::NothingToApply => owned("maypop.toml [app] has no fields to apply"),
            UserError::ThumbnailOutsideRepository => owned(
                "app.thumbnail must stay inside the Git repository",
            ),
        }
    }
}

// ---------------------------------------------------------------------------
// Configuration and build
// ---------------------------------------------------------------------------

/// The text of a configuration or build error, where `framework` names the
/// framework being built and `output` its output directory.
pub open spec fn project_message(e: ProjectError, framework: Seq<char>, output: Seq<char>) -> Seq<
    char,
> {
    match e {
        ProjectError::UnknownFramework { value } => "unknown build.framework "@ + quoted_spec(
            value@,
        ) + " in maypop.toml"@,
        ProjectError::MissingBuildTable => "maypop.toml must contain a [build] table"@,
        ProjectError::FrameworkNotString => "maypop.toml build.framework must be a string"@,
        ProjectError::CommandNotArray => "maypop.toml build.command must be an array of strings"@,
        ProjectError::CommandNotStrings => "maypop.toml build.command must contain only strings"@,
        ProjectError::FieldNotString { field } => "maypop.toml "@ + field@ + " must be a string"@,
        ProjectError::FieldNotBoolean { field } => "maypop.toml "@ + field@
            + " must be a boolean"@,
        ProjectError::AppNotTable => "maypop.toml [app] must be a table"@,
        ProjectError::EmptyAppName => "maypop.toml app.name cannot be empty"@,
        ProjectError::InvalidVisibility =>
            "maypop.toml app.visibility must be private, unlisted, or public"@,
        ProjectError::InvalidLinkAccess =>
            "maypop.toml app.link_access must be request, view, or use"@,
        ProjectError::TagsNotArray => "maypop.toml app.tags must be an array of strings"@,
        ProjectError::TagsNotStrings => "maypop.toml app.tags must contain only strings"@,
        ProjectError::UnsafePath { field, issue } => match issue {
            PathIssue::NotRelative => field@ + " must be a relative path"@,
            _ => field@ + " must stay inside the Git repository"@,
        },
        ProjectError::InvalidPackageJson => "invalid package.json"@,
        ProjectError::InvalidToml => "invalid maypop.toml"@,
        ProjectError::NoFrameworkDetected =>
            "could not detect Vite, Next.js, or Rsbuild; set build.framework in maypop.toml"@,
        ProjectError::AutoAdapter => "auto must be resolved before selecting an adapter"@,
        ProjectError::EmptyCommand => "build.command in maypop.toml cannot be empty"@,
        ProjectError::MissingOutput => framework + " build output "@ + output
            + " does not exist; override build.output in maypop.toml if needed"@,
        ProjectError::NextWithoutExport => "Next.js produced .next but no "@ + output
            + "; set output: \"export\" in next.config and run publish again"@,
        ProjectError::OutputOutsideRepository =>
            "build.output must stay inside the Git repository"@,
        ProjectError::MissingEntryFile => output + " build output does not contain its entry file"@,
    }
}

impl ProjectError {
    /// The message shown for this error, where `framework` names the
    /// framework being built and `output` its output directory.
    pub fn message(&self, framework: &str, output: &str) -> (r: String)
        ensures
            r@ == project_message(*self, framework@, output@),
    {
        match self {
            ProjectError::UnknownFramework { value } => {
                let q = quoted(value.as_str());
                join3("unknown build.framework ", q.as_str(), " in maypop.toml")
            },
            ProjectError::MissingBuildTable => owned("maypop.toml must contain a [build] table"),
            ProjectError::FrameworkNotString => owned(
                "maypop.toml build.framework must be a string",
            ),
            ProjectError::CommandNotArray => owned(
                "maypop.toml build.command must be an array of strings",
            ),
            ProjectError::CommandNotStrings => owned(
                "maypop.toml build.command must contain only strings",
            ),
            ProjectError::FieldNotString { field } => join3(
                "maypop.toml ",
                field.as_str(),
                " must be a string",
            ),
            ProjectError::FieldNotBoolean { field } => join3(
                "maypop.toml ",
                field.as_str(),
                " must be a boolean",
            ),
            ProjectError::AppNotTable => owned("maypop.toml [app] must be a table"),
            ProjectError::EmptyAppName => owned("maypop.toml app.name cannot be empty"),
            ProjectError::InvalidVisibility => owned(
                "maypop.toml app.visibility must be private, unlisted, or public",
            ),
            ProjectError::InvalidLinkAccess => owned(
                "maypop.toml app.link_access must be request, view, or use",
            ),
            ProjectError::TagsNotArray => owned("maypop.toml app.tags must be an array of strings"),
            ProjectError::TagsNotStrings => owned("maypop.toml app.tags must contain only strings"),
            ProjectError::UnsafePath { field, issue } => match issue {
                PathIssue::NotRelative => concat(field.as_str(), " must be a relative path"),
                _ => concat(field.as_str(), " must stay inside the Git repository"),
            },
            ProjectError::InvalidPackageJson => owned("invalid package.json"),
            ProjectError::InvalidToml => owned("invalid maypop.toml"),
            ProjectError::NoFrameworkDetected => owned(
                "could not detect Vite, Next.js, or Rsbuild; set build.framework in maypop.toml",
            ),
            ProjectError::AutoAdapter => owned("auto must be resolved before selecting an adapter"),
            ProjectError::EmptyCommand => owned("build.command in maypop.toml cannot be empty"),
            ProjectError::MissingOutput => concat(
                join3(framework, " build output ", output).as_str(),
                " does not exist; override build.output in maypop.toml if needed",
            ),
            ProjectError::NextWithoutExport => join3(
                "Next.js produced .next but no ",
                output,
                "; set output: \"export\" in next.config and run publish again",
            ),
            ProjectError::OutputOutsideRepository => owned(
                "build.output must stay inside the Git repository",
            ),
            ProjectError::MissingEntryFile => concat(
                output,
                " build output does not contain its entry file",
            ),
        }
    }
}

} // verus!
