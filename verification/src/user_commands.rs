//! The decisions behind the app workflows on a local Git repository: which
//! credential a command uses, the metadata a new app starts with, the Git
//! settings that connect a repository, what the Git credential helper
//! answers, and the checks around publishing a version.
//!
//! Running Git, reading the environment and talking to the API happen in the
//! program around this library; each function here takes what those steps
//! produced and decides what comes next.

use crate::credentials::{
    all_for, load_for, name_view, selection, selection_error, serving_in_order, store_view, token_for,
    CredentialError, CredentialStore, CredentialUser, Credentials, StoreModel,
};
use crate::paths::{components, file_name, file_name_spec, is_component_prefix, path_starts_with};
use crate::project::{clone_list, clone_opt, opt_view, opt_views, views, AppConfig};
use crate::text::{
    chars_of, concat, decimal, decimal_text, has_prefix, join, join_strings, lines, lines_spec,
    owned, prefix_of, replace, replace_char, same_text, split_once, split_once_spec, starts_with,
    string_of, string_views, trim, trim_end_char, trim_end_matching, trim_start_char,
    trim_start_matching, trim_url, trim_ws,
};
use vstd::prelude::*;

verus! {

/// Why an app workflow stopped.
#[derive(Debug)]
pub enum UserError {
    /// The profile store refused the request.
    Credentials(CredentialError),
    /// No token is available for the API origin (and the profile, when one was named).
    NotAuthenticated { profile: Option<String>, api_url: String },
    /// Neither a flag, the configuration nor the directory name gives the app a name.
    NoAppName,
    /// The repository already records an app id.
    AlreadyConnected,
    /// The repository already has an `origin` remote.
    HasOrigin,
    /// The saved login has no Git identity.
    LoginPredatesGit,
    /// The Git remote is not a URL.
    InvalidRemoteUrl,
    /// The Git server is not a URL.
    InvalidServerUrl,
    /// The Git server, user id and app id are too long to make a remote from.
    RemoteTooLong,
    /// The repository records no app id or API origin.
    NotConnected,
    /// `origin` is not the remote configured for the app.
    RemoteMismatch,
    /// The worktree has uncommitted changes.
    DirtyWorktree,
    /// `HEAD` is not a forty-digit hexadecimal commit id.
    NotSha1,
    /// The build changed tracked files.
    BuildModifiedFiles,
    /// The service answered for another app or commit.
    WrongPublishResult,
    /// `maypop.toml` has no `[app]` table.
    NoAppTable,
    /// The `[app]` table sets nothing.
    NothingToApply,
    /// `app.thumbnail` resolves outside the repository.
    ThumbnailOutsideRepository,
}

// ---------------------------------------------------------------------------
// Credentials for a command
// ---------------------------------------------------------------------------

/// The token saved for `url` (and `profile`), or `Err` when the store refuses the lookup.
pub open spec fn saved_token(store: Option<StoreModel>, url: Seq<char>, profile: Option<
    Seq<char>,
>) -> Result<Option<Seq<char>>, ()> {
    match store {
        None => Ok(None),
        Some(s) => match selection(s, url, profile) {
            Ok(Some(c)) => Ok(Some(c.token@)),
            Ok(None) => Ok(None),
            Err(_) => Err(()),
        },
    }
}

/// The token a command uses: the explicit one, else the saved one; without
/// either the command cannot run.
pub fn required_token(
    store: Option<&CredentialStore>,
    api_url: &str,
    profile: Option<&str>,
    explicit: Option<&str>,
) -> (r: Result<String, UserError>)
    ensures
        explicit matches Some(t) ==> (r matches Ok(s) && s@ == t@),
        explicit is None ==> match saved_token(store_view(store), api_url@, name_view(profile)) {
            Ok(Some(t)) => r matches Ok(s) && s@ == t,
            Ok(None) => r matches Err(e) && e matches UserError::NotAuthenticated {
                profile: p,
                api_url: u,
            } && opt_view(p) == name_view(profile) && u@ == api_url@,
            Err(_) => r matches Err(UserError::Credentials(e)) && selection_error(
                store->0@,
                api_url@,
                name_view(profile),
                e,
            ),
        },
{
    if let Some(t) = explicit {
        return Ok(owned(t));
    }
    match token_for(store, api_url, profile) {
        Ok(Some(t)) => Ok(t),
        Ok(None) => Err(
            UserError::NotAuthenticated {
                profile: match profile {
                    Some(p) => Some(owned(p)),
                    None => None,
                },
                api_url: owned(api_url),
            },
        ),
        Err(e) => Err(UserError::Credentials(e)),
    }
}

/// The token `status` reports on: the explicit one, else the saved one, if any.
pub fn status_token(
    store: Option<&CredentialStore>,
    api_url: &str,
    profile: Option<&str>,
    explicit: Option<&str>,
) -> (r: Result<Option<String>, UserError>)
    ensures
        explicit matches Some(t) ==> (r matches Ok(o) && o matches Some(s) && s@ == t@),
        explicit is None ==> match saved_token(
            store_view(store),
            trim_end_char(api_url@, '/'),
            name_view(profile),
        ) {
            Ok(Some(t)) => r matches Ok(o) && o matches Some(s) && s@ == t,
            Ok(None) => r matches Ok(o) && o is None,
            Err(_) => r matches Err(UserError::Credentials(e)) && selection_error(
                store->0@,
                trim_end_char(api_url@, '/'),
                name_view(profile),
                e,
            ),
        },
{
    if let Some(t) = explicit {
        return Ok(Some(owned(t)));
    }
    let url = trim_url(api_url);
    match token_for(store, url.as_str(), profile) {
        Ok(t) => Ok(t),
        Err(e) => Err(UserError::Credentials(e)),
    }
}

// ---------------------------------------------------------------------------
// The metadata of a new app
// ---------------------------------------------------------------------------

/// An app configuration with nothing set.
pub open spec fn empty_app() -> AppConfig {
    AppConfig {
        name: None,
        description: None,
        visibility: None,
        link_access: None,
        allow_remixing: None,
        tags: None,
        thumbnail: None,
    }
}

/// The configured metadata, or nothing.
pub open spec fn configured_or_empty(configured: Option<AppConfig>) -> AppConfig {
    match configured {
        Some(c) => c,
        None => empty_app(),
    }
}

/// A `--name` flag counts once trimmed, and only when something is left.
pub open spec fn flag_name(name: Option<Seq<char>>) -> Option<Seq<char>> {
    match name {
        Some(n) => if trim_ws(n).len() > 0 {
            Some(trim_ws(n))
        } else {
            None
        },
        None => None,
    }
}

/// The name of a new app: the flag, else the configured name, else the directory's name.
pub open spec fn initial_name(
    repository: Seq<char>,
    configured: Option<Seq<char>>,
    name: Option<Seq<char>>,
) -> Option<Seq<char>> {
    match flag_name(name) {
        Some(n) => Some(n),
        None => match configured {
            Some(c) => Some(c),
            None => file_name_spec(repository),
        },
    }
}

/// The description of a new app: the flag, else the configured one.
pub open spec fn initial_description(configured: Option<Seq<char>>, flag: Option<Seq<char>>) -> Option<
    Seq<char>,
> {
    match flag {
        Some(d) => Some(d),
        None => configured,
    }
}

/// The visibility of a new app: the flag, else the configured one, else `private`.
pub open spec fn initial_visibility(configured: Option<Seq<char>>, flag: Option<Seq<char>>) -> Seq<
    char,
> {
    match flag {
        Some(v) => v,
        None => match configured {
            Some(c) => c,
            None => "private"@,
        },
    }
}

/// Public apps can be viewed by link; any other app asks for access.
pub open spec fn default_link_access(visibility: Seq<char>) -> Seq<char> {
    if visibility == "public"@ {
        "view"@
    } else {
        "request"@
    }
}

/// The link access of a new app: the configured one, else the default for its visibility.
pub open spec fn initial_link_access(configured: Option<Seq<char>>, visibility: Seq<char>) -> Seq<
    char,
> {
    match configured {
        Some(l) => l,
        None => default_link_access(visibility),
    }
}

/// The metadata a new app is created with.
pub open spec fn initial_app_of(
    app: AppConfig,
    repository: Seq<char>,
    configured: Option<AppConfig>,
    name: Option<Seq<char>>,
    description: Option<Seq<char>>,
    visibility: Option<Seq<char>>,
) -> bool {
    let base = configured_or_empty(configured);
    let vis = initial_visibility(opt_view(base.visibility), visibility);
    &&& opt_view(app.name) == initial_name(repository, opt_view(base.name), name)
    &&& opt_view(app.description) == initial_description(opt_view(base.description), description)
    &&& opt_view(app.visibility) == Some(vis)
    &&& opt_view(app.link_access) == Some(initial_link_access(opt_view(base.link_access), vis))
    &&& app.allow_remixing == Some(
        match base.allow_remixing {
            Some(b) => b,
            None => true,
        },
    )
    &&& opt_views(app.tags) == Some(
        match opt_views(base.tags) {
            Some(t) => t,
            None => Seq::<Seq<char>>::empty(),
        },
    )
    &&& opt_view(app.thumbnail) == opt_view(base.thumbnail)
}

/// The metadata a new app starts with: flags override the configured `[app]`
/// table, which overrides the defaults; the name falls back to the
/// repository directory's name, and without any name the app cannot be made.
pub fn resolve_initial_app(
    repository: &str,
    configured: Option<AppConfig>,
    name: Option<&str>,
    description: Option<&str>,
    visibility: Option<&str>,
) -> (r: Result<AppConfig, UserError>)
    ensures
        r is Ok <==> initial_name(
            repository@,
            opt_view(configured_or_empty(configured).name),
            name_view(name),
        ) is Some,
        r matches Ok(app) ==> initial_app_of(
            app,
            repository@,
            configured,
            name_view(name),
            name_view(description),
            name_view(visibility),
        ),
        r matches Err(e) ==> e is NoAppName,
{
    let mut app = match configured {
        Some(c) => c,
        None => AppConfig {
            name: None,
            description: None,
            visibility: None,
            link_access: None,
            allow_remixing: None,
            tags: None,
            thumbnail: None,
        },
    };
    let flagged = match name {
        Some(n) => {
            let t = trim(n);
            if t.as_str().is_empty() {
                None
            } else {
                Some(t)
            }
        },
        None => None,
    };
    if flagged.is_some() {
        app.name = flagged;
    } else if app.name.is_none() {
        app.name = file_name(repository);
    }
    if let Some(d) = description {
        app.description = Some(owned(d));
    }
    let vis = match visibility {
        Some(v) => owned(v),
        None => match &app.visibility {
            Some(c) => c.clone(),
            None => owned("private"),
        },
    };
    if app.link_access.is_none() {
        app.link_access = Some(
            if same_text(vis.as_str(), "public") {
                owned("view")
            } else {
                owned("request")
            },
        );
    }
    app.visibility = Some(vis);
    if app.allow_remixing.is_none() {
        app.allow_remixing = Some(true);
    }
    if app.tags.is_none() {
        let none: Vec<String> = Vec::new();
        assert(views(none@) =~= Seq::<Seq<char>>::empty());
        app.tags = Some(none);
    }
    if app.name.is_none() {
        return Err(UserError::NoAppName);
    }
    Ok(app)
}

// ---------------------------------------------------------------------------
// Connecting a repository
// ---------------------------------------------------------------------------

/// The Git server for a login: the one it names, else `/git` under the API origin.
pub open spec fn git_server_url_spec(user_server: Seq<char>, api_url: Seq<char>) -> Seq<char> {
    if user_server.len() == 0 {
        trim_end_char(api_url, '/') + "/git"@
    } else {
        trim_end_char(user_server, '/')
    }
}

/// The Git server that hosts the user's app repositories.
pub fn git_server_url(user: &CredentialUser, api_url: &str) -> (r: String)
    ensures
        r@ == git_server_url_spec(user.git_server_url@, api_url@),
{
    if user.git_server_url.as_str().is_empty() {
        let base = trim_url(api_url);
        concat(base.as_str(), "/git")
    } else {
        trim_url(user.git_server_url.as_str())
    }
}

/// `value` in single quotes for a POSIX shell, each quote in it closed, quoted and reopened.
pub open spec fn shell_quote_spec(value: Seq<char>) -> Seq<char> {
    "'"@ + replace_char(value, '\'', "'\"'\"'"@) + "'"@
}

/// `value` quoted for a POSIX shell.
pub fn shell_quote(value: &str) -> (r: String)
    ensures
        r@ == shell_quote_spec(value@),
{
    let inner = replace(value, '\'', "'\"'\"'");
    let opened = concat("'", inner.as_str());
    concat(opened.as_str(), "'")
}

/// How a POSIX shell is reading a word: outside quotes, inside single
/// quotes, or inside double quotes.
#[derive(Clone, Copy, Debug, PartialEq, Eq, Structural)]
pub enum QuoteMode {
    Unquoted,
    Single,
    Double,
}

/// A character a POSIX shell takes literally outside quotes.
pub open spec fn is_plain_char(c: char) -> bool {
    ('a' <= c <= 'z') || ('A' <= c <= 'Z') || ('0' <= c <= '9') || c == '-' || c == '_' || c
        == '.' || c == '/' || c == ':' || c == '@' || c == '%' || c == '+' || c == ','
}

/// The word a POSIX shell reads from `s`, begun in `mode`, when `s` is a
/// single word made of plain characters, single-quoted text (taken as it is)
/// and double-quoted text without `$`, backquotes or backslashes (taken as it
/// is); `None` for any other text: an unquoted blank would end the word and
/// another special character would mean something else, and a quote must be
/// closed.
pub open spec fn shell_word(s: Seq<char>, mode: QuoteMode) -> Option<Seq<char>>
    decreases s.len(),
{
    if s.len() == 0 {
        if mode is Unquoted {
            Some(Seq::empty())
        } else {
            None
        }
    } else {
        let c = s[0];
        let rest = s.drop_first();
        match mode {
            QuoteMode::Unquoted => if c == '\'' {
                shell_word(rest, QuoteMode::Single)
            } else if c == '"' {
                shell_word(rest, QuoteMode::Double)
            } else if is_plain_char(c) {
                prepend_char(c, shell_word(rest, QuoteMode::Unquoted))
            } else {
                None
            },
            QuoteMode::Single => if c == '\'' {
                shell_word(rest, QuoteMode::Unquoted)
            } else {
                prepend_char(c, shell_word(rest, QuoteMode::Single))
            },
            QuoteMode::Double => if c == '"' {
                shell_word(rest, QuoteMode::Unquoted)
            } else if c == '\\' || c == '$' || c == '`' {
                None
            } else {
                prepend_char(c, shell_word(rest, QuoteMode::Double))
            },
        }
    }
}

/// `c` before a word that was read, if one was.
pub open spec fn prepend_char(c: char, w: Option<Seq<char>>) -> Option<Seq<char>> {
    match w {
        Some(t) => Some(seq![c] + t),
        None => None,
    }
}

/// A repository path of a Git request that belongs to `user`.
pub open spec fn owns_path(git_user_id: Seq<char>, path: Seq<char>) -> bool {
    git_user_id.len() > 0 && has_prefix(
        trim_start_char(path, '/'),
        "git/"@ + git_user_id + "/"@,
    )
}

/// Whether a saved login may answer a Git request for `path`.
pub fn credential_matches(user: &CredentialUser, path: &str) -> (r: bool)
    ensures
        r == owns_path(user.git_user_id@, path@),
{
    if user.git_user_id.as_str().is_empty() {
        return false;
    }
    let head = concat("git/", user.git_user_id.as_str());
    let expected = concat(head.as_str(), "/");
    let rest = trim_start_matching(path, '/');
    starts_with(rest.as_str(), expected.as_str())
}


/// The path of the URL `text` as the `url` crate parses and normalises it,
/// or `None` when `text` is not a URL.
pub uninterp spec fn url_path(text: Seq<char>) -> Option<Seq<char>>;

/// Parses `text` with `reqwest::Url::parse` (the `url` crate) and returns
/// the parsed URL's `path()`. The result depends on `text` alone; the
/// normalisation the parser applies is left to the `url` crate.
#[verifier::external_body]
fn parsed_path(text: &str) -> (r: Option<String>)
    ensures
        match r {
            Some(s) => url_path(text@) == Some(s@),
            None => url_path(text@) is None,
        },
{
    match reqwest::Url::parse(text) {
        Ok(url) => Some(url.path().to_string()),
        Err(_) => None,
    }
}

/// The URL `text` with its path set to `path` and without query or fragment,
/// serialised; `None` when `text` is not a URL.
pub uninterp spec fn url_with_path(text: Seq<char>, path: Seq<char>) -> Option<Seq<char>>;

/// Parses `text` with `reqwest::Url::parse`, then `set_path(path)`,
/// `set_query(None)` and `set_fragment(None)`, and serialises the URL. It
/// fails exactly when parsing fails, as `parsed_path` does on the same text.
/// The `url` crate keeps positions as `u32` and panics once the serialised
/// URL passes 4 GiB. A character takes at most 12 bytes once UTF-8 encoded
/// and percent-escaped, so text and path of fewer than 2^28 characters
/// together stay below that.
#[verifier::external_body]
fn replaced_path(text: &str, path: &str) -> (r: Option<String>)
    requires
        text@.len() + path@.len() < 0x1000_0000,
    ensures
        match r {
            Some(s) => url_with_path(text@, path@) == Some(s@),
            None => url_with_path(text@, path@) is None,
        },
        r is Some <==> url_path(text@) is Some,
{
    match reqwest::Url::parse(text) {
        Ok(mut url) => {
            url.set_path(path);
            url.set_query(None);
            url.set_fragment(None);
            Some(url.to_string())
        },
        Err(_) => None,
    }
}

/// The path of an app's remote under a Git server path.
pub open spec fn remote_path(server_path: Seq<char>, git_user_id: Seq<char>, app_id: Seq<char>) -> Seq<
    char,
> {
    trim_end_char(server_path, '/') + "/"@ + git_user_id + "/"@ + app_id
}

/// The remote of an app under the Git server `base`, whose path is
/// `server_path`: the user's Git id and the app id appended to that path.
pub fn remote_url_under(base: &str, server_path: &str, git_user_id: &str, app_id: &str) -> (r:
    Result<String, UserError>)
    requires
        base@.len() + server_path@.len() + git_user_id@.len() + app_id@.len() + 2 < 0x1000_0000,
    ensures
        match url_with_path(base@, remote_path(server_path@, git_user_id@, app_id@)) {
            Some(u) => r matches Ok(s) && s@ == u,
            None => r matches Err(e) && e is InvalidServerUrl,
        },
{
    let trimmed = trim_end_matching(server_path, '/');
    let a = concat(trimmed.as_str(), "/");
    let b = concat(a.as_str(), git_user_id);
    let c = concat(b.as_str(), "/");
    let path = concat(c.as_str(), app_id);
    proof {
        lemma_trim_end_char_len(server_path@, '/');
        reveal_strlit("/");
    }
    assert(path@ =~= remote_path(server_path@, git_user_id@, app_id@));
    match replaced_path(base, path.as_str()) {
        Some(u) => Ok(u),
        None => Err(UserError::InvalidServerUrl),
    }
}

/// Trimming never lengthens text.
proof fn lemma_trim_end_char_len(s: Seq<char>, c: char)
    ensures
        trim_end_char(s, c).len() <= s.len(),
    decreases s.len(),
{
    if s.len() > 0 && s.last() == c {
        lemma_trim_end_char_len(s.drop_last(), c);
    }
}

/// What the remote of an app is: an error when the server is not a URL or
/// the remote would be too long to build, else the remote under the server's path.
pub open spec fn git_remote_spec(server: Seq<char>, git_user_id: Seq<char>, app_id: Seq<char>) -> Result<
    Seq<char>,
    UserError,
> {
    let base = trim_end_char(server, '/');
    match url_path(base) {
        None => Err(UserError::InvalidServerUrl),
        Some(p) => if base.len() + p.len() + git_user_id.len() + app_id.len() + 2 >= 0x1000_0000 {
            Err(UserError::RemoteTooLong)
        } else {
            match url_with_path(base, remote_path(p, git_user_id, app_id)) {
                Some(u) => Ok(u),
                None => Err(UserError::InvalidServerUrl),
            }
        },
    }
}

/// The remote of an app on a Git server: the server's URL (trailing slashes
/// dropped) with the user's Git id and the app id appended to its path, and
/// no query or fragment.
pub fn git_remote_url(git_server_url: &str, git_user_id: &str, app_id: &str) -> (r: Result<
    String,
    UserError,
>)
    ensures
        match git_remote_spec(git_server_url@, git_user_id@, app_id@) {
            Ok(u) => r matches Ok(s) && s@ == u,
            Err(UserError::RemoteTooLong) => r matches Err(e) && e is RemoteTooLong,
            Err(_) => r matches Err(e) && e is InvalidServerUrl,
        },
{
    let base = trim_url(git_server_url);
    let path = match parsed_path(base.as_str()) {
        Some(p) => p,
        None => {
            return Err(UserError::InvalidServerUrl);
        },
    };
    let b = chars_of(base.as_str()).len();
    let p = chars_of(path.as_str()).len();
    let u = chars_of(git_user_id).len();
    let a = chars_of(app_id).len();
    let limit: usize = 0x1000_0000 - 2;
    if b >= limit || p >= limit - b || u >= limit - b - p || a >= limit - b - p - u {
        return Err(UserError::RemoteTooLong);
    }
    remote_url_under(base.as_str(), path.as_str(), git_user_id, app_id)
}

/// The ASCII serialisation of the origin of the URL `text` (scheme, host and,
/// unless it is the scheme's default, port), or `None` when `text` is not a URL.
pub uninterp spec fn url_origin(text: Seq<char>) -> Option<Seq<char>>;

/// Parses `text` with `reqwest::Url::parse` (the `url` crate) and serialises
/// the parsed URL's `origin()` with `Origin::ascii_serialization`. The result
/// depends on `text` alone; what it is for a given URL is left to the `url`
/// crate and not stated here.
#[verifier::external_body]
fn parsed_origin(text: &str) -> (r: Option<String>)
    ensures
        match r {
            Some(s) => url_origin(text@) == Some(s@),
            None => url_origin(text@) is None,
        },
{
    match reqwest::Url::parse(text) {
        Ok(url) => Some(url.origin().ascii_serialization()),
        Err(_) => None,
    }
}

/// The scope under which Git looks up the credential helper for `remote`: its origin.
pub fn credential_scope(remote: &str) -> (r: Result<String, UserError>)
    ensures
        match url_origin(remote@) {
            Some(o) => r matches Ok(s) && s@ == o,
            None => r matches Err(e) && e is InvalidRemoteUrl,
        },
{
    match parsed_origin(remote) {
        Some(o) => Ok(o),
        None => Err(UserError::InvalidRemoteUrl),
    }
}

/// One Git invocation: its arguments, and whether its failure stops the workflow.
#[derive(Debug)]
pub struct GitCommand {
    pub args: Vec<String>,
    pub must_succeed: bool,
}

/// The arguments and the failure rule of each command.
pub open spec fn command_views(v: Seq<GitCommand>) -> Seq<(Seq<Seq<char>>, bool)> {
    v.map_values(|c: GitCommand| (views(c.args@), c.must_succeed))
}

/// The Git configuration key that records the app id.
pub open spec fn app_id_key() -> Seq<char> {
    "maypop.app-id"@
}

/// The Git configuration key that records the API origin.
pub open spec fn api_url_key() -> Seq<char> {
    "maypop.api-url"@
}

/// The Git configuration key that records the app id.
pub fn app_id_config_key() -> (r: String)
    ensures
        r@ == app_id_key(),
{
    owned("maypop.app-id")
}

/// The Git configuration key that records the API origin.
pub fn api_url_config_key() -> (r: String)
    ensures
        r@ == api_url_key(),
{
    owned("maypop.api-url")
}

/// The commands that make `remote` the repository's `origin` and record the app.
pub open spec fn connection_commands_spec(
    api_url: Seq<char>,
    app_id: Seq<char>,
    remote: Seq<char>,
) -> Seq<(Seq<Seq<char>>, bool)> {
    seq![
        (seq!["remote"@, "add"@, "origin"@, remote], true),
        (seq!["config"@, "--local"@, app_id_key(), app_id], true),
        (seq!["config"@, "--local"@, api_url_key(), trim_end_char(api_url, '/')], true),
    ]
}

/// A command that must succeed.
fn required(args: Vec<String>) -> (r: GitCommand)
    ensures
        r.args@ == args@,
        r.must_succeed,
{
    GitCommand { args, must_succeed: true }
}

/// The commands that connect a repository to the app, before its credential helper is set.
pub fn connection_commands(api_url: &str, app_id: &str, remote: &str) -> (r: Vec<GitCommand>)
    ensures
        command_views(r@) == connection_commands_spec(api_url@, app_id@, remote@),
{
    let first = required(vec![owned("remote"), owned("add"), owned("origin"), owned(remote)]);
    let second = required(
        vec![owned("config"), owned("--local"), app_id_config_key(), owned(app_id)],
    );
    let third = required(
        vec![owned("config"), owned("--local"), api_url_config_key(), trim_url(api_url)],
    );
    assert(views(first.args@) =~= seq!["remote"@, "add"@, "origin"@, remote@]);
    assert(views(second.args@) =~= seq!["config"@, "--local"@, app_id_key(), app_id@]);
    assert(views(third.args@) =~= seq![
        "config"@,
        "--local"@,
        api_url_key(),
        trim_end_char(api_url@, '/'),
    ]);
    let r = vec![first, second, third];
    assert(command_views(r@) =~= connection_commands_spec(api_url@, app_id@, remote@));
    r
}

/// The key that names the credential helper for a scope.
pub open spec fn helper_key_spec(scope: Seq<char>) -> Seq<char> {
    "credential."@ + scope + ".helper"@
}

/// The helper command Git runs for Maypop remotes.
pub open spec fn helper_command_spec(api_url: Seq<char>) -> Seq<char> {
    "!maypop --url="@ + shell_quote_spec(trim_end_char(api_url, '/')) + " git-credential"@
}

/// The commands that make this program the only credential helper for the remote's origin.
pub open spec fn helper_commands_spec(api_url: Seq<char>, scope: Seq<char>) -> Seq<
    (Seq<Seq<char>>, bool),
> {
    let key = helper_key_spec(scope);
    seq![
        (seq!["config"@, "--local"@, "--unset-all"@, key], false),
        (seq!["config"@, "--local"@, "--add"@, key, Seq::<char>::empty()], true),
        (seq!["config"@, "--local"@, "--add"@, key, helper_command_spec(api_url)], true),
        (seq!["config"@, "--local"@, "credential.useHttpPath"@, "true"@], true),
    ]
}

/// The commands that install the credential helper for remotes whose origin
/// is `scope`: earlier helpers for that origin are removed (that removal may
/// fail), an empty entry resets inherited helpers, this program is added,
/// and Git is told to pass request paths.
pub fn helper_commands_for(api_url: &str, scope: &str) -> (r: Vec<GitCommand>)
    ensures
        command_views(r@) == helper_commands_spec(api_url@, scope@),
{
    let head = concat("credential.", scope);
    let key = concat(head.as_str(), ".helper");
    let quoted = shell_quote(trim_url(api_url).as_str());
    let opened = concat("!maypop --url=", quoted.as_str());
    let helper = concat(opened.as_str(), " git-credential");
    let unset = GitCommand {
        args: vec![owned("config"), owned("--local"), owned("--unset-all"), key.clone()],
        must_succeed: false,
    };
    let reset = required(
        vec![owned("config"), owned("--local"), owned("--add"), key.clone(), String::new()],
    );
    let add = required(vec![owned("config"), owned("--local"), owned("--add"), key, helper]);
    let paths = required(
        vec![owned("config"), owned("--local"), owned("credential.useHttpPath"), owned("true")],
    );
    let ghost k = helper_key_spec(scope@);
    assert(views(unset.args@) =~= seq!["config"@, "--local"@, "--unset-all"@, k]);
    assert(views(reset.args@) =~= seq!["config"@, "--local"@, "--add"@, k, Seq::<char>::empty()]);
    assert(views(add.args@) =~= seq![
        "config"@,
        "--local"@,
        "--add"@,
        k,
        helper_command_spec(api_url@),
    ]);
    assert(views(paths.args@) =~= seq![
        "config"@,
        "--local"@,
        "credential.useHttpPath"@,
        "true"@,
    ]);
    let r = vec![unset, reset, add, paths];
    assert(command_views(r@) =~= helper_commands_spec(api_url@, scope@));
    r
}

/// The commands that install the credential helper for `remote`, scoped to its origin.
pub fn credential_helper_commands(api_url: &str, remote: &str) -> (r: Result<
    Vec<GitCommand>,
    UserError,
>)
    ensures
        match url_origin(remote@) {
            Some(o) => r matches Ok(v) && command_views(v@) == helper_commands_spec(api_url@, o),
            None => r matches Err(e) && e is InvalidRemoteUrl,
        },
{
    let scope = credential_scope(remote)?;
    Ok(helper_commands_for(api_url, scope.as_str()))
}

/// Whether a URL is the legacy remote that should be replaced by the expected one.
pub open spec fn needs_repair(configured: Seq<char>, legacy: Seq<char>, expected: Seq<char>) -> bool {
    trim_end_char(configured, '/') == trim_end_char(legacy, '/') && trim_end_char(legacy, '/')
        != trim_end_char(expected, '/')
}

/// Whether `origin` still points at the legacy remote under the API origin
/// and has to be moved to the expected Git server.
pub fn needs_remote_repair(configured: &str, legacy: &str, expected: &str) -> (r: bool)
    ensures
        r == needs_repair(configured@, legacy@, expected@),
{
    let c = trim_url(configured);
    let l = trim_url(legacy);
    let e = trim_url(expected);
    same_text(c.as_str(), l.as_str()) && !same_text(l.as_str(), e.as_str())
}

/// The command that points `origin` at `remote`.
pub fn set_origin_command(remote: &str) -> (r: GitCommand)
    ensures
        views(r.args@) == seq!["remote"@, "set-url"@, "origin"@, remote@],
        r.must_succeed,
{
    let r = required(vec![owned("remote"), owned("set-url"), owned("origin"), owned(remote)]);
    assert(views(r.args@) =~= seq!["remote"@, "set-url"@, "origin"@, remote@]);
    r
}

/// The value of a Git configuration lookup: nothing when Git reported no
/// value, else its output without surrounding white space.
pub fn git_config_value(success: bool, stdout: &str) -> (r: Option<String>)
    ensures
        !success ==> r is None,
        success ==> (r matches Some(v) && v@ == trim_ws(stdout@)),
{
    if !success {
        return None;
    }
    Some(trim(stdout))
}


// ---------------------------------------------------------------------------
// The Git credential helper
// ---------------------------------------------------------------------------

/// The `key=value` lines of a credential request, in order; other lines are ignored.
pub open spec fn field_pairs(lines: Seq<Seq<char>>) -> Seq<(Seq<char>, Seq<char>)>
    decreases lines.len(),
{
    if lines.len() == 0 {
        Seq::empty()
    } else {
        let earlier = field_pairs(lines.drop_last());
        match split_once_spec(lines.last(), '=') {
            Some(p) => earlier.push(p),
            None => earlier,
        }
    }
}

/// The value of the last field named `key`.
pub open spec fn field_value(pairs: Seq<(Seq<char>, Seq<char>)>, key: Seq<char>) -> Option<
    Seq<char>,
>
    decreases pairs.len(),
{
    if pairs.len() == 0 {
        None
    } else if pairs.last().0 == key {
        Some(pairs.last().1)
    } else {
        field_value(pairs.drop_last(), key)
    }
}

/// The URL and path of a credential request, when it names a protocol, a host and a path.
pub open spec fn credential_request_spec(input: Seq<char>) -> Option<(Seq<char>, Seq<char>)> {
    let fields = field_pairs(lines_spec(input));
    match (
        field_value(fields, "protocol"@),
        field_value(fields, "host"@),
        field_value(fields, "path"@),
    ) {
        (Some(protocol), Some(host), Some(path)) => Some((protocol + "://"@ + host, path)),
        _ => None,
    }
}

/// The views of a list of fields.
pub open spec fn pair_views(v: Seq<(String, String)>) -> Seq<(Seq<char>, Seq<char>)> {
    v.map_values(|p: (String, String)| (p.0@, p.1@))
}

/// The `key=value` fields of a credential request.
pub fn credential_fields(input: &str) -> (r: Vec<(String, String)>)
    ensures
        pair_views(r@) == field_pairs(lines_spec(input@)),
{
    let all = lines(input);
    let ghost ls = lines_spec(input@);
    let mut r: Vec<(String, String)> = Vec::new();
    let mut i: usize = 0;
    while i < all.len()
        invariant
            i <= all.len(),
            string_views(all@) == ls,
            pair_views(r@) == field_pairs(ls.take(i as int)),
        decreases all.len() - i,
    {
        assert(ls.take(i + 1).drop_last() =~= ls.take(i as int));
        assert(ls.take(i + 1).last() == all@[i as int]@);
        let ghost before = pair_views(r@);
        match split_once(all[i].as_str(), '=') {
            Some(p) => {
                r.push(p);
                assert(pair_views(r@) =~= before.push((p.0@, p.1@)));
            },
            None => {},
        }
        i = i + 1;
    }
    assert(ls.take(all.len() as int) =~= ls);
    r
}

/// The value of the last field named `key`.
pub fn field(fields: &Vec<(String, String)>, key: &str) -> (r: Option<String>)
    ensures
        match field_value(pair_views(fields@), key@) {
            Some(v) => r matches Some(s) && s@ == v,
            None => r is None,
        },
{
    let ghost all = pair_views(fields@);
    let mut k: usize = fields.len();
    assert(all.take(k as int) =~= all);
    while k > 0
        invariant
            k <= fields.len(),
            all == pair_views(fields@),
            field_value(all, key@) == field_value(all.take(k as int), key@),
        decreases k,
    {
        let ghost front = all.take(k as int);
        assert(front.last() == (fields@[k - 1].0@, fields@[k - 1].1@));
        if same_text(fields[k - 1].0.as_str(), key) {
            return Some(fields[k - 1].1.clone());
        }
        assert(front.drop_last() =~= all.take(k - 1));
        k = k - 1;
    }
    None
}

/// The URL (`protocol://host`) and path of a Git credential request.
pub fn credential_request(input: &str) -> (r: Option<(String, String)>)
    ensures
        match credential_request_spec(input@) {
            Some(q) => r matches Some(p) && p.0@ == q.0 && p.1@ == q.1,
            None => r is None,
        },
{
    let fields = credential_fields(input);
    let protocol = field(&fields, "protocol")?;
    let host = field(&fields, "host")?;
    let path = field(&fields, "path")?;
    let scheme = concat(protocol.as_str(), "://");
    Some((concat(scheme.as_str(), host.as_str()), path))
}

/// What the credential helper does with a request before any saved login is read.
#[derive(Debug)]
pub enum HelperStep {
    /// Answer nothing.
    Ignore,
    /// Answer with this token.
    Answer(String),
    /// Look for a saved login that owns this repository path.
    LookUp(String),
}

/// A request path under the Git server.
pub open spec fn is_git_path(path: Seq<char>) -> bool {
    has_prefix(trim_start_char(path, '/'), "git/"@)
}

/// The first step of the credential helper: only `get` requests with a
/// protocol, host and path are answered; a token handed down in the
/// environment for the same API origin answers any Git path; else a saved
/// login is looked up.
pub fn credential_step(
    operation: &str,
    input: &str,
    env_token: Option<&str>,
    env_url: Option<&str>,
    api_url: &str,
) -> (r: HelperStep)
    ensures
        operation@ != "get"@ ==> r is Ignore,
        operation@ == "get"@ ==> match credential_request_spec(input@) {
            None => r is Ignore,
            Some((_, path)) => if env_token is Some && env_url is Some && trim_end_char(
                env_url->0@,
                '/',
            ) == trim_end_char(api_url@, '/') && is_git_path(path) {
                r matches HelperStep::Answer(t) && t@ == env_token->0@
            } else {
                r matches HelperStep::LookUp(p) && p@ == path
            },
        },
{
    if !same_text(operation, "get") {
        return HelperStep::Ignore;
    }
    let (_url, path) = match credential_request(input) {
        Some(q) => q,
        None => {
            return HelperStep::Ignore;
        },
    };
    if let (Some(token), Some(configured)) = (env_token, env_url) {
        let a = trim_url(configured);
        let b = trim_url(api_url);
        let rest = trim_start_matching(path.as_str(), '/');
        if same_text(a.as_str(), b.as_str()) && starts_with(rest.as_str(), "git/") {
            return HelperStep::Answer(owned(token));
        }
    }
    HelperStep::LookUp(path)
}

/// The first login of `logins` that owns `path`.
pub open spec fn first_owner(logins: Seq<Credentials>, path: Seq<char>) -> Option<Credentials>
    decreases logins.len(),
{
    if logins.len() == 0 {
        None
    } else if owns_path(logins[0].user.git_user_id@, path) {
        Some(logins[0])
    } else {
        first_owner(logins.drop_first(), path)
    }
}

/// The saved token that answers a Git request for `path`, from the named
/// profile, or else from the first profile (by name) that serves the API
/// origin and owns the path.
pub open spec fn saved_answer(
    store: Option<StoreModel>,
    api_url: Seq<char>,
    profile: Option<Seq<char>>,
    path: Seq<char>,
) -> Result<Option<Seq<char>>, ()> {
    match store {
        None => Ok(None),
        Some(s) => match profile {
            Some(_) => match selection(s, api_url, profile) {
                Err(_) => Err(()),
                Ok(Some(c)) => if owns_path(c.user.git_user_id@, path) {
                    Ok(Some(c.token@))
                } else {
                    Ok(None)
                },
                Ok(None) => Ok(None),
            },
            None => match first_owner(serving_in_order(s.names, s.profiles, api_url), path) {
                Some(c) => Ok(Some(c.token@)),
                None => Ok(None),
            },
        },
    }
}

/// The token of a saved login that may answer a Git request for `path`.
pub fn saved_credential(
    store: Option<&CredentialStore>,
    api_url: &str,
    profile: Option<&str>,
    path: &str,
) -> (r: Result<Option<String>, UserError>)
    ensures
        match saved_answer(store_view(store), api_url@, name_view(profile), path@) {
            Ok(Some(t)) => r matches Ok(o) && o matches Some(s) && s@ == t,
            Ok(None) => r matches Ok(o) && o is None,
            Err(_) => r matches Err(UserError::Credentials(e)) && selection_error(
                store->0@,
                api_url@,
                name_view(profile),
                e,
            ),
        },
{
    if profile.is_some() {
        let found = match load_for(store, api_url, profile) {
            Ok(f) => f,
            Err(e) => {
                return Err(UserError::Credentials(e));
            },
        };
        match found {
            Some(c) => if credential_matches(&c.user, path) {
                Ok(Some(c.token))
            } else {
                Ok(None)
            },
            None => Ok(None),
        }
    } else {
        let all = all_for(store, api_url);
        let ghost logins = all@;
        let mut i: usize = 0;
        assert(logins.skip(0) =~= logins);
        while i < all.len()
            invariant
                i <= all.len(),
                logins == all@,
                store is None ==> logins.len() == 0,
                store matches Some(st) ==> logins == serving_in_order(
                    st@.names,
                    st@.profiles,
                    api_url@,
                ),
                profile is None,
                first_owner(logins, path@) == first_owner(logins.skip(i as int), path@),
            decreases all.len() - i,
        {
            assert(logins.skip(i as int)[0] == all@[i as int]);
            if credential_matches(&all[i].user, path) {
                return Ok(Some(all[i].token.clone()));
            }
            assert(logins.skip(i as int).drop_first() =~= logins.skip(i + 1));
            i = i + 1;
        }
        Ok(None)
    }
}


// ---------------------------------------------------------------------------
// Starting a new app
// ---------------------------------------------------------------------------

/// A repository can start a new app only when it records no app and has no `origin`.
pub fn check_unconnected(has_app_id: bool, has_origin: bool) -> (r: Result<(), UserError>)
    ensures
        has_app_id ==> (r matches Err(e) && e is AlreadyConnected),
        !has_app_id && has_origin ==> (r matches Err(e) && e is HasOrigin),
        !has_app_id && !has_origin ==> r is Ok,
{
    if has_app_id {
        return Err(UserError::AlreadyConnected);
    }
    if has_origin {
        return Err(UserError::HasOrigin);
    }
    Ok(())
}

/// A login can create an app only when it has a Git identity.
pub fn check_git_identity(user: &CredentialUser) -> (r: Result<(), UserError>)
    ensures
        r is Ok <==> user.git_user_id@.len() > 0,
        r matches Err(e) ==> e is LoginPredatesGit,
{
    if user.git_user_id.as_str().is_empty() {
        Err(UserError::LoginPredatesGit)
    } else {
        Ok(())
    }
}

// ---------------------------------------------------------------------------
// Publishing
// ---------------------------------------------------------------------------

/// `origin` must be the app's remote, trailing slashes aside.
pub fn check_origin(configured: &str, expected: &str) -> (r: Result<(), UserError>)
    ensures
        r is Ok <==> trim_end_char(configured@, '/') == trim_end_char(expected@, '/'),
        r matches Err(e) ==> e is RemoteMismatch,
{
    let a = trim_url(configured);
    let b = trim_url(expected);
    if same_text(a.as_str(), b.as_str()) {
        Ok(())
    } else {
        Err(UserError::RemoteMismatch)
    }
}

/// The worktree must be clean: `git status --porcelain` printed nothing.
pub fn check_clean(porcelain: &str) -> (r: Result<(), UserError>)
    ensures
        r is Ok <==> porcelain@.len() == 0,
        r matches Err(e) ==> e is DirtyWorktree,
{
    if porcelain.is_empty() {
        Ok(())
    } else {
        Err(UserError::DirtyWorktree)
    }
}

/// An ASCII hexadecimal digit.
pub open spec fn is_hex_digit(c: char) -> bool {
    ('0' <= c <= '9') || ('a' <= c <= 'f') || ('A' <= c <= 'F')
}

/// Forty hexadecimal digits. Such text is forty bytes long, and forty bytes
/// that are all hexadecimal digits are such text, so this is the byte check
/// on a SHA-1 commit id.
pub open spec fn is_commit_sha(s: Seq<char>) -> bool {
    s.len() == 40 && forall|i: int| 0 <= i < s.len() ==> is_hex_digit(#[trigger] s[i])
}

/// `HEAD` must be a full SHA-1 commit id.
pub fn check_head(head: &str) -> (r: Result<(), UserError>)
    ensures
        r is Ok <==> is_commit_sha(head@),
        r matches Err(e) ==> e is NotSha1,
{
    let v = chars_of(head);
    if v.len() != 40 {
        return Err(UserError::NotSha1);
    }
    let mut i: usize = 0;
    while i < v.len()
        invariant
            i <= v.len() == 40,
            v@ == head@,
            forall|j: int| 0 <= j < i ==> is_hex_digit(#[trigger] head@[j]),
        decreases v.len() - i,
    {
        let c = v[i];
        if !(('0' <= c && c <= '9') || ('a' <= c && c <= 'f') || ('A' <= c && c <= 'F')) {
            return Err(UserError::NotSha1);
        }
        i = i + 1;
    }
    Ok(())
}

/// The build must leave tracked files as they were: neither `git diff --quiet`
/// nor, when that passed, `git diff --cached --quiet` may report changes.
pub fn check_build_clean(worktree_unchanged: bool, index_unchanged: bool) -> (r: Result<
    (),
    UserError,
>)
    ensures
        r is Ok <==> worktree_unchanged && index_unchanged,
        r matches Err(e) ==> e is BuildModifiedFiles,
{
    if worktree_unchanged && index_unchanged {
        Ok(())
    } else {
        Err(UserError::BuildModifiedFiles)
    }
}

/// The service's answer must name the app and the commit that were published.
pub fn check_published(
    app_id: &str,
    head: &str,
    published_app_id: &str,
    published_sha: Option<&str>,
) -> (r: Result<(), UserError>)
    ensures
        r is Ok <==> (published_app_id@ == app_id@ && (published_sha matches Some(s) && s@
            == head@)),
        r matches Err(e) ==> e is WrongPublishResult,
{
    if !same_text(published_app_id, app_id) {
        return Err(UserError::WrongPublishResult);
    }
    match published_sha {
        Some(s) => if same_text(s, head) {
            Ok(())
        } else {
            Err(UserError::WrongPublishResult)
        },
        None => Err(UserError::WrongPublishResult),
    }
}

/// The number of bytes UTF-8 uses for `c`.
pub open spec fn utf8_len(c: char) -> int {
    let u = c as u32;
    if u < 0x80 {
        1
    } else if u < 0x800 {
        2
    } else if u < 0x10000 {
        3
    } else {
        4
    }
}

/// The leading characters of `s` that take exactly `n` bytes, if a character
/// boundary lies there (what `str::get(..n)` returns).
pub open spec fn byte_prefix(s: Seq<char>, n: int) -> Option<Seq<char>>
    decreases s.len(),
{
    if n == 0 {
        Some(Seq::empty())
    } else if n < 0 || s.len() == 0 {
        None
    } else {
        match byte_prefix(s.drop_first(), n - utf8_len(s[0])) {
            Some(p) => Some(seq![s[0]] + p),
            None => None,
        }
    }
}

/// The first eight bytes of a commit id, or the whole id when they do not end on a character.
pub open spec fn short_sha_spec(sha: Seq<char>) -> Seq<char> {
    match byte_prefix(sha, 8) {
        Some(p) => p,
        None => sha,
    }
}

/// The UTF-8 length of `c`.
fn char_width(c: char) -> (r: usize)
    ensures
        r == utf8_len(c),
{
    let u = c as u32;
    if u < 0x80 {
        1
    } else if u < 0x800 {
        2
    } else if u < 0x10000 {
        3
    } else {
        4
    }
}

/// The abbreviated commit id shown after publishing.
pub fn short_sha(sha: &str) -> (r: String)
    ensures
        r@ == short_sha_spec(sha@),
{
    let v = chars_of(sha);
    let ghost s = sha@;
    let mut i: usize = 0;
    let mut used: usize = 0;
    assert(s.take(0) + s.skip(0) =~= s);
    while used < 8 && i < v.len()
        invariant
            i <= v.len(),
            v@ == s,
            used <= 8 + 4,
            byte_prefix(s, 8) == match byte_prefix(s.skip(i as int), 8 - used) {
                Some(p) => Some(s.take(i as int) + p),
                None => None::<Seq<char>>,
            },
        decreases v.len() - i,
    {
        let ghost rest = s.skip(i as int);
        assert(rest.drop_first() =~= s.skip(i + 1));
        assert(rest[0] == v@[i as int]);
        proof {
            let n = 8 - used;
            match byte_prefix(s.skip(i + 1), n - utf8_len(rest[0])) {
                Some(p) => {
                    assert(s.take(i as int) + (seq![rest[0]] + p) =~= s.take(i + 1) + p);
                },
                None => {},
            }
        }
        used = used + char_width(v[i]);
        i = i + 1;
    }
    if used == 8 {
        assert(s.take(i as int) + Seq::<char>::empty() =~= s.take(i as int));
        string_of(&prefix_of(&v, i))
    } else {
        proof {
            if used < 8 {
                assert(i == v.len());
                assert(s.skip(i as int).len() == 0);
            }
        }
        owned(sha)
    }
}

// ---------------------------------------------------------------------------
// Applying the `[app]` table
// ---------------------------------------------------------------------------

/// A value sent for one app field.
#[derive(Debug)]
pub enum AppField {
    Text(String),
    Flag(bool),
    List(Vec<String>),
}

/// The model of a field value.
pub enum AppFieldModel {
    Text(Seq<char>),
    Flag(bool),
    List(Seq<Seq<char>>),
}

/// The model of a field value.
pub open spec fn field_model(f: AppField) -> AppFieldModel {
    match f {
        AppField::Text(s) => AppFieldModel::Text(s@),
        AppField::Flag(b) => AppFieldModel::Flag(b),
        AppField::List(v) => AppFieldModel::List(views(v@)),
    }
}

/// The models of a list of named fields.
pub open spec fn field_models(v: Seq<(String, AppField)>) -> Seq<(Seq<char>, AppFieldModel)> {
    v.map_values(|p: (String, AppField)| (p.0@, field_model(p.1)))
}

/// `key` with `value`, when there is a value.
pub open spec fn text_field(key: Seq<char>, value: Option<String>) -> Seq<(Seq<char>, AppFieldModel)> {
    match value {
        Some(v) => seq![(key, AppFieldModel::Text(v@))],
        None => Seq::empty(),
    }
}

/// The fields an `[app]` table sets on the remote app, in this order: name,
/// description, visibility, link access, remixing, tags, and the uploaded
/// thumbnail's content id.
pub open spec fn app_fields_spec(c: AppConfig, thumbnail_cid: Option<Seq<char>>) -> Seq<
    (Seq<char>, AppFieldModel),
> {
    text_field("name"@, c.name) + text_field("description"@, c.description) + text_field(
        "visibility"@,
        c.visibility,
    ) + text_field("linkAccess"@, c.link_access) + match c.allow_remixing {
        Some(b) => seq![("allowRemixing"@, AppFieldModel::Flag(b))],
        None => Seq::empty(),
    } + match c.tags {
        Some(t) => seq![("tags"@, AppFieldModel::List(views(t@)))],
        None => Seq::empty(),
    } + match thumbnail_cid {
        Some(cid) => seq![("thumbnailCid"@, AppFieldModel::Text(cid))],
        None => Seq::empty(),
    }
}

/// Append `key` with `value`, when there is a value.
fn push_text(fields: &mut Vec<(String, AppField)>, key: &str, value: Option<String>)
    ensures
        field_models(final(fields)@) == field_models(old(fields)@) + text_field(key@, value),
{
    let ghost before = field_models(fields@);
    match value {
        Some(v) => {
            fields.push((owned(key), AppField::Text(v)));
            assert(field_models(fields@) =~= before + text_field(key@, value));
        },
        None => {
            assert(field_models(fields@) =~= before + text_field(key@, value));
        },
    }
}

/// The fields to update on the remote app from its `[app]` table; a table
/// that sets nothing is refused.
pub fn app_update_fields(config: AppConfig, thumbnail_cid: Option<String>) -> (r: Result<
    Vec<(String, AppField)>,
    UserError,
>)
    ensures
        app_fields_spec(config, opt_view(thumbnail_cid)).len() == 0 ==> (r matches Err(e)
            && e is NothingToApply),
        app_fields_spec(config, opt_view(thumbnail_cid)).len() > 0 ==> (r matches Ok(v)
            && field_models(v@) == app_fields_spec(config, opt_view(thumbnail_cid))),
{
    let mut fields: Vec<(String, AppField)> = Vec::new();
    assert(field_models(fields@) =~= Seq::<(Seq<char>, AppFieldModel)>::empty());
    push_text(&mut fields, "name", config.name);
    push_text(&mut fields, "description", config.description);
    push_text(&mut fields, "visibility", config.visibility);
    push_text(&mut fields, "linkAccess", config.link_access);
    let ghost before = field_models(fields@);
    match config.allow_remixing {
        Some(b) => {
            fields.push((owned("allowRemixing"), AppField::Flag(b)));
        },
        None => {},
    }
    assert(field_models(fields@) =~= before + match config.allow_remixing {
        Some(b) => seq![("allowRemixing"@, AppFieldModel::Flag(b))],
        None => Seq::empty(),
    });
    let ghost before = field_models(fields@);
    match config.tags {
        Some(t) => {
            fields.push((owned("tags"), AppField::List(t)));
        },
        None => {},
    }
    assert(field_models(fields@) =~= before + match config.tags {
        Some(t) => seq![("tags"@, AppFieldModel::List(views(t@)))],
        None => Seq::empty(),
    });
    let ghost before = field_models(fields@);
    match thumbnail_cid {
        Some(cid) => {
            fields.push((owned("thumbnailCid"), AppField::Text(cid)));
        },
        None => {},
    }
    assert(field_models(fields@) =~= before + match opt_view(thumbnail_cid) {
        Some(cid) => seq![("thumbnailCid"@, AppFieldModel::Text(cid))],
        None => Seq::empty(),
    });
    assert(field_models(fields@) =~= app_fields_spec(config, opt_view(thumbnail_cid)));
    if fields.len() == 0 {
        return Err(UserError::NothingToApply);
    }
    Ok(fields)
}

/// The `[app]` table written into a new or extended `maypop.toml`, in this
/// order: name, description, visibility, link access, remixing, tags and
/// thumbnail, each only when set.
pub open spec fn app_table_spec(c: AppConfig) -> Seq<(Seq<char>, AppFieldModel)> {
    text_field("name"@, c.name) + text_field("description"@, c.description) + text_field(
        "visibility"@,
        c.visibility,
    ) + text_field("link_access"@, c.link_access) + match c.allow_remixing {
        Some(b) => seq![("allow_remixing"@, AppFieldModel::Flag(b))],
        None => Seq::empty(),
    } + match c.tags {
        Some(t) => seq![("tags"@, AppFieldModel::List(views(t@)))],
        None => Seq::empty(),
    } + text_field("thumbnail"@, c.thumbnail)
}

/// The keys and values of the `[app]` table for `config`.
pub fn app_table_fields(config: &AppConfig) -> (r: Vec<(String, AppField)>)
    ensures
        field_models(r@) == app_table_spec(*config),
{
    let mut fields: Vec<(String, AppField)> = Vec::new();
    assert(field_models(fields@) =~= Seq::<(Seq<char>, AppFieldModel)>::empty());
    push_text(&mut fields, "name", clone_opt(&config.name));
    push_text(&mut fields, "description", clone_opt(&config.description));
    push_text(&mut fields, "visibility", clone_opt(&config.visibility));
    push_text(&mut fields, "link_access", clone_opt(&config.link_access));
    let ghost before = field_models(fields@);
    match config.allow_remixing {
        Some(b) => {
            fields.push((owned("allow_remixing"), AppField::Flag(b)));
        },
        None => {},
    }
    assert(field_models(fields@) =~= before + match config.allow_remixing {
        Some(b) => seq![("allow_remixing"@, AppFieldModel::Flag(b))],
        None => Seq::empty(),
    });
    let ghost before = field_models(fields@);
    match &config.tags {
        Some(t) => {
            fields.push((owned("tags"), AppField::List(clone_list(t))));
        },
        None => {},
    }
    assert(field_models(fields@) =~= before + match config.tags {
        Some(t) => seq![("tags"@, AppFieldModel::List(views(t@)))],
        None => Seq::empty(),
    });
    push_text(&mut fields, "thumbnail", clone_opt(&config.thumbnail));
    assert(field_models(fields@) =~= app_table_spec(*config));
    fields
}

/// The resolved thumbnail must lie inside the resolved repository.
pub fn check_thumbnail_inside(repository: &str, thumbnail: &str) -> (r: Result<(), UserError>)
    ensures
        r is Ok <==> is_component_prefix(components(repository@), components(thumbnail@)),
        r matches Err(e) ==> e is ThumbnailOutsideRepository,
{
    if path_starts_with(thumbnail, repository) {
        Ok(())
    } else {
        Err(UserError::ThumbnailOutsideRepository)
    }
}


// ---------------------------------------------------------------------------
// Showing an app
// ---------------------------------------------------------------------------

/// What the service reports about an app.
#[derive(Debug)]
pub struct AppSummary {
    pub id: String,
    pub name: String,
    pub description: Option<String>,
    pub visibility: String,
    pub link_access: String,
    pub allow_remixing: bool,
    pub tags: Vec<String>,
    pub thumbnail_cid: Option<String>,
    pub latest_version: i32,
    pub stable_version: i32,
}

/// A value, or a dash when there is none.
pub open spec fn or_dash(value: Option<Seq<char>>) -> Seq<char> {
    match value {
        Some(v) => v,
        None => "—"@,
    }
}

/// The lines that describe an app, in order.
pub open spec fn app_info_spec(app: AppSummary, api_url: Seq<char>) -> Seq<Seq<char>> {
    seq![
        "App: "@ + app.name@,
        "ID: "@ + app.id@,
        "Description: "@ + or_dash(opt_view(app.description)),
        "Visibility: "@ + app.visibility@,
        "Link access: "@ + app.link_access@,
        "Allow remixing: "@ + (if app.allow_remixing {
            "yes"@
        } else {
            "no"@
        }),
        "Tags: "@ + (if app.tags@.len() == 0 {
            "—"@
        } else {
            join(string_views(app.tags@), ", "@)
        }),
        "Thumbnail: "@ + or_dash(opt_view(app.thumbnail_cid)),
        "Versions: latest "@ + decimal(app.latest_version as int) + ", stable "@ + decimal(
            app.stable_version as int,
        ),
        "API: "@ + trim_end_char(api_url, '/'),
    ]
}

/// `label` followed by the value or a dash.
fn labelled_or_dash(label: &str, value: &Option<String>) -> (r: String)
    ensures
        r@ == label@ + or_dash(opt_view(*value)),
{
    match value {
        Some(v) => concat(label, v.as_str()),
        None => concat(label, "—"),
    }
}

/// The lines that describe an app and the API it lives on.
pub fn app_info_lines(app: &AppSummary, api_url: &str) -> (r: Vec<String>)
    ensures
        string_views(r@) == app_info_spec(*app, api_url@),
{
    let remixing = concat("Allow remixing: ", if app.allow_remixing {
        "yes"
    } else {
        "no"
    });
    let tags = if app.tags.len() == 0 {
        concat("Tags: ", "—")
    } else {
        let joined = join_strings(&app.tags, ", ");
        concat("Tags: ", joined.as_str())
    };
    let latest = decimal_text(app.latest_version);
    let stable = decimal_text(app.stable_version);
    let v1 = concat("Versions: latest ", latest.as_str());
    let v2 = concat(v1.as_str(), ", stable ");
    let versions = concat(v2.as_str(), stable.as_str());
    let base = trim_url(api_url);
    let r = vec![
        concat("App: ", app.name.as_str()),
        concat("ID: ", app.id.as_str()),
        labelled_or_dash("Description: ", &app.description),
        concat("Visibility: ", app.visibility.as_str()),
        concat("Link access: ", app.link_access.as_str()),
        remixing,
        tags,
        labelled_or_dash("Thumbnail: ", &app.thumbnail_cid),
        versions,
        concat("API: ", base.as_str()),
    ];
    assert(string_views(r@) =~= app_info_spec(*app, api_url@));
    r
}

} // verus!
