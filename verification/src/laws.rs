//! Properties that hold across the operations of the library: how saved
//! logins are found again, what the Git credential helper may answer, how
//! names, identifiers and bundle paths round-trip, and which choices win
//! when a new app or a build is set up.

use crate::ai::{output_outcome, MediaKind};
use crate::paths::extension_spec;
use crate::credentials::{
    inserted_all, lemma_ascending_no_duplicates, model_wf, normalized, selection, serves,
    serving_in_order, valid_profile_name, Credentials, StoreModel,
};
use crate::mcp::{first_id, IntegrationIdentity};
use crate::paths::{
    all_normal, components, cur_part, file_name_spec, is_normal_part, is_rooted, join_parts,
    kept_segments, lemma_kept_segments_shape, root_part,
};
use crate::project::{
    detected_framework, PackageInfo,
    all_strings, app_config_of, app_config_problem, app_config_valid, before_at, framework_name,
    framework_named, opt_view, opt_views, package_manager_spec, scalar_texts, string_field,
    table_value, views, AppConfig, Framework, PackageJson, ProjectFiles, TomlEntry, TomlValue,
};
use crate::text::{
    ascii_lower, has_char, has_prefix, lemma_split_state_pieces, replace_char, split_char, split_state,
};
use crate::user_commands::{
    configured_or_empty,
    app_fields_spec, app_table_spec, byte_prefix, first_owner, flag_name, initial_app_of, owns_path,
    saved_answer, shell_quote_spec, shell_word, short_sha_spec, text_field, utf8_len,
    AppFieldModel, QuoteMode, prepend_char,
};
use vstd::prelude::*;

verus! {

/// A login saved under a valid profile name is exactly what that profile
/// selects afterwards for the login's own API origin, whatever else the
/// store held.
pub proof fn saved_login_is_selected(
    before: Map<Seq<char>, Credentials>,
    after: StoreModel,
    profile: Seq<char>,
    login: Credentials,
)
    requires
        valid_profile_name(profile),
        after.profiles == before.insert(profile, login),
    ensures
        selection(after, login.api_url@, Some(profile)) == Ok::<Option<Credentials>, ()>(
            Some(login),
        ),
{
}

/// Saving a login under one profile leaves every other profile as it was.
pub proof fn saving_keeps_other_profiles(
    before: Map<Seq<char>, Credentials>,
    after: StoreModel,
    profile: Seq<char>,
    login: Credentials,
    other: Seq<char>,
)
    requires
        after.profiles == before.insert(profile, login),
        other != profile,
    ensures
        after.profiles.dom().contains(other) == before.dom().contains(other),
        before.dom().contains(other) ==> after.profiles[other] == before[other],
{
}

/// The first login saved becomes the default, so commands that name no
/// profile use it for its API origin.
pub proof fn first_login_becomes_default(after: StoreModel, profile: Seq<char>, login: Credentials)
    requires
        after.default_profile == profile,
        after.profiles == Map::<Seq<char>, Credentials>::empty().insert(profile, login),
    ensures
        selection(after, login.api_url@, None) == Ok::<Option<Credentials>, ()>(Some(login)),
{
}

/// After a saved profile is made the default, commands that name no profile
/// use its login for every API origin that login serves.
pub proof fn new_default_is_selected(
    before: StoreModel,
    after: StoreModel,
    profile: Seq<char>,
    url: Seq<char>,
)
    requires
        before.profiles.dom().contains(profile),
        after.default_profile == profile,
        after.profiles == before.profiles,
        serves(before.profiles[profile], url),
    ensures
        selection(after, url, None) == Ok::<Option<Credentials>, ()>(
            Some(before.profiles[profile]),
        ),
{
}

/// A selected login always belongs to the requested API origin, whether a
/// profile was named, the default served it, or another profile did.
pub proof fn selected_login_serves_origin(
    store: StoreModel,
    url: Seq<char>,
    profile: Option<Seq<char>>,
    login: Credentials,
)
    requires
        selection(store, url, profile) == Ok::<Option<Credentials>, ()>(Some(login)),
    ensures
        serves(login, url),
{
}

/// A named profile saved for another API origin is refused rather than used.
pub proof fn foreign_profile_is_refused(store: StoreModel, url: Seq<char>, profile: Seq<char>)
    requires
        valid_profile_name(profile),
        store.profiles.dom().contains(profile),
        !serves(store.profiles[profile], url),
    ensures
        selection(store, url, Some(profile)) is Err,
{
}

/// Removing trailing slashes twice is removing them once.
pub proof fn normalization_is_idempotent(url: Seq<char>)
    ensures
        normalized(normalized(url)) == normalized(url),
    decreases url.len(),
{
    if url.len() > 0 && url.last() == '/' {
        normalization_is_idempotent(url.drop_last());
    }
}

/// Every framework's configuration name reads back as that framework.
pub proof fn framework_names_round_trip(f: Framework)
    ensures
        framework_named(framework_name(f)) == Some(f),
{
    reveal_strlit("auto");
    reveal_strlit("vite");
    reveal_strlit("next");
    reveal_strlit("rsbuild");
    reveal_strlit("static");
    assert("auto"@[0] == 'a');
    assert("vite"@[0] == 'v');
    assert("next"@[0] == 'n');
    assert("rsbuild"@[0] == 'r');
    assert("static"@[0] == 's');
}

/// An integration can always be selected by its own ID: the selection lands
/// on an integration with that ID, at or before it.
pub proof fn an_id_always_selects<T: IntegrationIdentity>(items: Seq<T>, i: int)
    requires
        0 <= i < items.len(),
    ensures
        first_id(items, items[i].spec_id()) matches Some(j) && 0 <= j <= i && items[j].spec_id()
            == items[i].spec_id(),
    decreases i,
{
    let sel = items[i].spec_id();
    if i > 0 && items[0].spec_id() != sel {
        assert(items.drop_first()[i - 1] == items[i]);
        an_id_always_selects(items.drop_first(), i - 1);
        let j = first_id(items.drop_first(), sel)->0;
        assert(items.drop_first()[j] == items[j + 1]);
    }
}

/// A login chosen by owner among `logins` is one of them and owns the path.
proof fn first_owner_owns(logins: Seq<Credentials>, path: Seq<char>)
    requires
        first_owner(logins, path) is Some,
    ensures
        logins.contains(first_owner(logins, path)->0),
        owns_path(first_owner(logins, path)->0.user.git_user_id@, path),
    decreases logins.len(),
{
    if !owns_path(logins[0].user.git_user_id@, path) {
        first_owner_owns(logins.drop_first(), path);
        let c = first_owner(logins, path)->0;
        let k = choose|k: int| 0 <= k < logins.drop_first().len() && logins.drop_first()[k] == c;
        assert(logins[k + 1] == c);
    } else {
        assert(logins[0] == first_owner(logins, path)->0);
    }
}

/// The logins listed for an API origin all serve it.
proof fn listed_logins_serve(
    names: Seq<Seq<char>>,
    m: Map<Seq<char>, Credentials>,
    url: Seq<char>,
    c: Credentials,
)
    requires
        serving_in_order(names, m, url).contains(c),
    ensures
        serves(c, url),
    decreases names.len(),
{
    if names.len() > 0 {
        let earlier = serving_in_order(names.drop_last(), m, url);
        if serves(m[names.last()], url) {
            if c != m[names.last()] {
                let k = choose|k: int|
                    0 <= k < serving_in_order(names, m, url).len() && serving_in_order(
                        names,
                        m,
                        url,
                    )[k] == c;
                assert(earlier[k] == c);
                listed_logins_serve(names.drop_last(), m, url, c);
            }
        } else {
            listed_logins_serve(names.drop_last(), m, url, c);
        }
    }
}

/// The credential helper answers a Git request only with the token of a
/// saved login for the same API origin whose account owns the requested path.
pub proof fn helper_answers_only_for_the_owner(
    store: Option<StoreModel>,
    url: Seq<char>,
    profile: Option<Seq<char>>,
    path: Seq<char>,
    token: Seq<char>,
)
    requires
        saved_answer(store, url, profile, path) == Ok::<Option<Seq<char>>, ()>(Some(token)),
    ensures
        exists|c: Credentials|
            serves(c, url) && owns_path(#[trigger] c.user.git_user_id@, path) && c.token@ == token,
{
    let s = store->0;
    match profile {
        Some(_) => {
            let c = selection(s, url, profile)->Ok_0->0;
            assert(serves(c, url) && owns_path(c.user.git_user_id@, path) && c.token@ == token);
        },
        None => {
            let logins = serving_in_order(s.names, s.profiles, url);
            first_owner_owns(logins, path);
            let c = first_owner(logins, path)->0;
            listed_logins_serve(s.names, s.profiles, url, c);
            assert(serves(c, url) && owns_path(c.user.git_user_id@, path) && c.token@ == token);
        },
    }
}

/// The characters that take the first `n` bytes of `s` begin `s`.
proof fn byte_prefix_is_prefix(s: Seq<char>, n: int)
    requires
        byte_prefix(s, n) is Some,
    ensures
        has_prefix(s, byte_prefix(s, n)->0),
    decreases s.len(),
{
    if n != 0 {
        let rest = s.drop_first();
        byte_prefix_is_prefix(rest, n - utf8_len(s[0]));
        let p = byte_prefix(rest, n - utf8_len(s[0]))->0;
        assert(s.take(p.len() as int + 1) =~= seq![s[0]] + rest.take(p.len() as int));
    } else {
        assert(s.take(0) =~= Seq::<char>::empty());
    }
}

/// The abbreviated commit id shown after publishing begins the full id.
pub proof fn short_commit_id_begins_the_id(sha: Seq<char>)
    ensures
        has_prefix(sha, short_sha_spec(sha)),
{
    if byte_prefix(sha, 8) is Some {
        byte_prefix_is_prefix(sha, 8);
    } else {
        assert(sha.take(sha.len() as int) =~= sha);
    }
}


/// Replacing characters works from the front as well as from the back.
proof fn replace_char_front(x: char, s: Seq<char>, c: char, r: Seq<char>)
    ensures
        replace_char(seq![x] + s, c, r) =~= (if x == c {
            r
        } else {
            seq![x]
        }) + replace_char(s, c, r),
    decreases s.len(),
{
    let t = seq![x] + s;
    let piece = |y: char| if y == c {
        r
    } else {
        seq![y]
    };
    assert(replace_char(t, c, r) == replace_char(t.drop_last(), c, r) + piece(t.last()));
    if s.len() == 0 {
        assert(t.drop_last() =~= Seq::<char>::empty());
        assert(t.last() == x);
        assert(replace_char(s, c, r) =~= Seq::<char>::empty());
    } else {
        assert(t.drop_last() =~= seq![x] + s.drop_last());
        assert(t.last() == s.last());
        assert(replace_char(s, c, r) == replace_char(s.drop_last(), c, r) + piece(s.last()));
        replace_char_front(x, s.drop_last(), c, r);
    }
}

/// Inside single quotes, the quoted text of `v` followed by the closing
/// quote reads back as `v`.
proof fn quoted_text_reads_back(v: Seq<char>)
    ensures
        shell_word(replace_char(v, '\'', "'\"'\"'"@) + "'"@, QuoteMode::Single) == Some(v),
    decreases v.len(),
{
    let q = "'\"'\"'"@;
    reveal_strlit("'");
    reveal_strlit("'\"'\"'");
    if v.len() == 0 {
        assert(replace_char(v, '\'', q) =~= Seq::<char>::empty());
        assert(replace_char(v, '\'', q) + "'"@ =~= seq!['\'']);
        assert(seq!['\''].drop_first() =~= Seq::<char>::empty());
        assert(v =~= Seq::<char>::empty());
        assert(shell_word(seq!['\''], QuoteMode::Single) == shell_word(
            Seq::<char>::empty(),
            QuoteMode::Unquoted,
        ));
    } else {
        let x = v[0];
        let w = v.drop_first();
        assert(v =~= seq![x] + w);
        replace_char_front(x, w, '\'', q);
        quoted_text_reads_back(w);
        let rest = replace_char(w, '\'', q) + "'"@;
        if x == '\'' {
            let s0 = q + rest;
            assert(replace_char(v, '\'', q) + "'"@ =~= s0);
            let s1 = s0.drop_first();
            let s2 = s1.drop_first();
            let s3 = s2.drop_first();
            let s4 = s3.drop_first();
            let s5 = s4.drop_first();
            assert(s0[0] == '\'' && s1[0] == '"' && s2[0] == '\'' && s3[0] == '"' && s4[0]
                == '\'');
            assert(s5 =~= rest);
            assert(shell_word(s4, QuoteMode::Unquoted) == Some(w));
            assert(shell_word(s3, QuoteMode::Double) == Some(w));
            assert(shell_word(s2, QuoteMode::Double) == Some(seq!['\''] + w));
            assert(shell_word(s1, QuoteMode::Unquoted) == Some(seq!['\''] + w));
            assert(shell_word(s0, QuoteMode::Single) == Some(seq!['\''] + w));
        } else {
            let s0 = seq![x] + rest;
            assert(replace_char(v, '\'', q) + "'"@ =~= s0);
            assert(s0[0] == x);
            assert(s0.drop_first() =~= rest);
            assert(shell_word(s0, QuoteMode::Single) == prepend_char(x, Some(w)));
        }
    }
}

/// A POSIX shell reads what `shell_quote` makes of any text as exactly one
/// word, equal to that text.
pub proof fn shell_quoting_reads_back(v: Seq<char>)
    ensures
        shell_word(shell_quote_spec(v), QuoteMode::Unquoted) == Some(v),
{
    reveal_strlit("'");
    quoted_text_reads_back(v);
    let inner = replace_char(v, '\'', "'\"'\"'"@) + "'"@;
    assert(shell_quote_spec(v) =~= seq!['\''] + inner);
    assert((seq!['\''] + inner).drop_first() =~= inner);
}

/// Appending text free of the separator extends the piece in progress.
proof fn split_state_append(t: Seq<char>, y: Seq<char>, sep: char)
    requires
        !has_char(y, sep),
    ensures
        split_state(t + y, sep) == (split_state(t, sep).0, split_state(t, sep).1 + y),
    decreases y.len(),
{
    if y.len() == 0 {
        assert(t + y =~= t);
        assert(split_state(t, sep).1 + y =~= split_state(t, sep).1);
    } else {
        let y0 = y.drop_last();
        assert(!has_char(y0, sep)) by {
            if has_char(y0, sep) {
                let i = choose|i: int| 0 <= i < y0.len() && y0[i] == sep;
                assert(y[i] == sep);
            }
        }
        split_state_append(t, y0, sep);
        assert((t + y).drop_last() =~= t + y0);
        assert((t + y).last() == y.last());
        assert(y.last() != sep) by {
            assert(y[y.len() - 1] == y.last());
        }
        assert((split_state(t, sep).1 + y0).push(y.last()) =~= split_state(t, sep).1 + y);
    }
}

/// Splitting `t`, a separator and separator-free `y` gives the pieces of `t` and then `y`.
proof fn split_after_separator(t: Seq<char>, y: Seq<char>)
    requires
        !has_char(y, '/'),
    ensures
        split_char(t + seq!['/'] + y, '/') == split_char(t, '/').push(y),
{
    let ts = t + seq!['/'];
    assert(ts.drop_last() =~= t);
    assert(ts.last() == '/');
    split_state_append(ts, y, '/');
    assert(Seq::<char>::empty() + y =~= y);
}

/// Joining separator-free parts with `/` and splitting at `/` gives the parts back.
proof fn split_of_join(cs: Seq<Seq<char>>)
    requires
        cs.len() > 0,
        forall|i: int| 0 <= i < cs.len() ==> !has_char(#[trigger] cs[i], '/'),
    ensures
        split_char(join_parts(cs), '/') == cs,
    decreases cs.len(),
{
    if cs.len() == 1 {
        split_state_append(Seq::<char>::empty(), cs[0], '/');
        assert(Seq::<char>::empty() + cs[0] =~= cs[0]);
        assert(seq![cs[0]] =~= cs);
    } else {
        let front = cs.drop_last();
        assert forall|i: int| 0 <= i < front.len() implies !has_char(#[trigger] front[i], '/') by {
            assert(front[i] == cs[i]);
        }
        split_of_join(front);
        assert(!has_char(cs[cs.len() - 1], '/'));
        split_after_separator(join_parts(front), cs.last());
        assert(front.push(cs.last()) =~= cs);
    }
}

/// Parts that are neither empty nor `.` are all kept.
proof fn kept_segments_of_names(cs: Seq<Seq<char>>)
    requires
        forall|i: int| 0 <= i < cs.len() ==> (#[trigger] cs[i]).len() > 0 && cs[i] != cur_part(),
    ensures
        kept_segments(cs) == cs,
    decreases cs.len(),
{
    if cs.len() > 0 {
        let front = cs.drop_last();
        assert forall|i: int| 0 <= i < front.len() implies (#[trigger] front[i]).len() > 0
            && front[i] != cur_part() by {
            assert(front[i] == cs[i]);
        }
        kept_segments_of_names(front);
        assert(cs[cs.len() - 1] == cs.last());
        assert(front.push(cs.last()) =~= cs);
    }
}

/// Every kept segment is one of the segments.
proof fn kept_segments_come_from(s: Seq<Seq<char>>)
    ensures
        forall|i: int| 0 <= i < kept_segments(s).len() ==> s.contains(#[trigger] kept_segments(s)[i]),
    decreases s.len(),
{
    if s.len() > 0 {
        let front = s.drop_last();
        kept_segments_come_from(front);
        let r = kept_segments(front);
        assert forall|i: int| 0 <= i < kept_segments(s).len() implies s.contains(
            #[trigger] kept_segments(s)[i],
        ) by {
            if i < r.len() {
                assert(kept_segments(s)[i] == r[i]);
                let j = choose|j: int| 0 <= j < front.len() && front[j] == r[i];
                assert(s[j] == front[j]);
            } else {
                assert(kept_segments(s)[i] == s.last());
                assert(s[s.len() - 1] == s.last());
            }
        }
    }
}

/// A relative path of ordinary names, written with `/` between its names (as
/// bundle paths are), reads back as the same names.
pub proof fn bundle_paths_keep_their_names(p: Seq<char>)
    requires
        all_normal(components(p)),
    ensures
        components(join_parts(components(p))) == components(p),
{
    let cs = components(p);
    let segs = split_char(p, '/');
    if is_rooted(p) {
        assert(cs[0] == root_part());
        assert(!is_normal_part(cs[0]));
    } else if segs[0] == cur_part() {
        assert(cs[0] == cur_part());
        assert(!is_normal_part(cs[0]));
    } else {
        assert(cs == kept_segments(segs));
        lemma_kept_segments_shape(segs);
        kept_segments_come_from(segs);
        lemma_split_state_pieces(p, '/');
        assert forall|i: int| 0 <= i < cs.len() implies !has_char(#[trigger] cs[i], '/') by {
            assert(segs.contains(cs[i]));
            let j = choose|j: int| 0 <= j < segs.len() && segs[j] == cs[i];
            let st = split_state(p, '/');
            if j < st.0.len() {
                assert(segs[j] == st.0[j]);
            } else {
                assert(segs[j] == st.1);
            }
        }
        kept_segments_of_names(cs);
        if cs.len() == 0 {
            let e = Seq::<char>::empty();
            assert(join_parts(cs) == e);
            assert(split_state(e, '/') == (Seq::<Seq<char>>::empty(), e));
            assert(split_char(e, '/') =~= seq![e]);
            assert(!is_rooted(e));
            assert(seq![e][0] != cur_part());
            assert(seq![e].drop_last() =~= Seq::<Seq<char>>::empty());
            assert(kept_segments(seq![e]) =~= Seq::<Seq<char>>::empty());
        } else {
            split_of_join(cs);
            let j = join_parts(cs);
            join_starts_with_first(cs);
            assert(cs[0].len() > 0);
            assert(j[0] == cs[0][0]);
            assert(cs[0][0] != '/') by {
                assert(!has_char(cs[0], '/'));
            }
            assert(!is_rooted(j));
            assert(split_char(j, '/')[0] == cs[0]);
        }
    }
}

/// Joined parts begin with the first part.
proof fn join_starts_with_first(cs: Seq<Seq<char>>)
    requires
        cs.len() > 0,
    ensures
        has_prefix(join_parts(cs), cs[0]),
    decreases cs.len(),
{
    if cs.len() == 1 {
        assert(join_parts(cs).take(cs[0].len() as int) =~= cs[0]);
    } else {
        let front = cs.drop_last();
        join_starts_with_first(front);
        assert(front[0] == cs[0]);
        let a = join_parts(front);
        let j = join_parts(cs);
        assert(j == a + seq!['/'] + cs.last());
        assert(j.take(cs[0].len() as int) =~= a.take(cs[0].len() as int));
    }
}


/// Flags given to `init` win over the configured `[app]` values: a non-blank
/// name (trimmed), a description and a visibility are taken as given.
pub proof fn init_flags_override_configuration(
    app: AppConfig,
    repository: Seq<char>,
    configured: Option<AppConfig>,
    name: Option<Seq<char>>,
    description: Option<Seq<char>>,
    visibility: Option<Seq<char>>,
)
    requires
        initial_app_of(app, repository, configured, name, description, visibility),
    ensures
        flag_name(name) is Some ==> opt_view(app.name) == flag_name(name),
        description is Some ==> opt_view(app.description) == description,
        visibility matches Some(v) ==> opt_view(app.visibility) == Some(v),
{
}

/// Without configuration or flags a new app is named after its directory,
/// has no description, is private, asks for access, allows remixing and has
/// no tags.
pub proof fn init_defaults_without_configuration_or_flags(app: AppConfig, repository: Seq<char>)
    requires
        initial_app_of(app, repository, None, None, None, None),
    ensures
        opt_view(app.name) == file_name_spec(repository),
        app.description is None,
        opt_view(app.visibility) == Some("private"@),
        opt_view(app.link_access) == Some("request"@),
        app.allow_remixing == Some(true),
        opt_views(app.tags) == Some(Seq::<Seq<char>>::empty()),
        app.thumbnail is None,
{
    reveal_strlit("private");
    reveal_strlit("public");
    assert("private"@ != "public"@) by {
        assert("private"@[1] == 'r');
        assert("public"@[1] == 'u');
    }
}

/// An existing output file is never replaced without `--force`.
pub proof fn outputs_are_kept_without_force(path: Seq<char>, kind: MediaKind, is_dir: bool)
    ensures
        output_outcome(path, kind, false, true, is_dir) is Some,
{
}

/// A `packageManager` declaration naming a known manager decides the
/// package manager whatever lockfiles lie beside it.
pub proof fn declared_package_manager_wins(files: ProjectFiles, other: ProjectFiles, declared: Seq<char>)
    requires
        files.package_json == other.package_json,
        files.package_json matches PackageJson::Parsed(p) && p.package_manager matches Some(m)
            && m@ == declared,
        before_at(declared) == "pnpm"@ || before_at(declared) == "yarn"@ || before_at(declared)
            == "bun"@ || before_at(declared) == "npm"@,
    ensures
        package_manager_spec(files) == package_manager_spec(other),
{
}


/// The keys an `[app]` table sends, and whether each is set in `c` (or, for
/// the thumbnail's content id, uploaded).
pub open spec fn field_is_set(c: AppConfig, cid: Option<Seq<char>>, key: Seq<char>) -> bool {
    &&& key == "name"@ ==> c.name is Some
    &&& key == "description"@ ==> c.description is Some
    &&& key == "visibility"@ ==> c.visibility is Some
    &&& key == "linkAccess"@ ==> c.link_access is Some
    &&& key == "allowRemixing"@ ==> c.allow_remixing is Some
    &&& key == "tags"@ ==> c.tags is Some
    &&& key == "thumbnailCid"@ ==> cid is Some
}

/// Applying the `[app]` table sends only the fields it sets: every omitted
/// field is left as it is on the service.
pub proof fn omitted_fields_are_not_sent(c: AppConfig, cid: Option<Seq<char>>, i: int)
    requires
        0 <= i < app_fields_spec(c, cid).len(),
    ensures
        field_is_set(c, cid, app_fields_spec(c, cid)[i].0),
{
    reveal_strlit("name");
    reveal_strlit("description");
    reveal_strlit("visibility");
    reveal_strlit("linkAccess");
    reveal_strlit("allowRemixing");
    reveal_strlit("tags");
    reveal_strlit("thumbnailCid");
    let k = app_fields_spec(c, cid)[i].0;
    let names = seq![
        "name"@,
        "description"@,
        "visibility"@,
        "linkAccess"@,
        "allowRemixing"@,
        "tags"@,
        "thumbnailCid"@,
    ];
    assert(names[0][0] == 'n' && names[1][0] == 'd' && names[2][0] == 'v' && names[3][0] == 'l'
        && names[4][0] == 'a');
    assert(names[5].len() == 4 && names[6].len() == 12 && names[5][0] == 't');
    let s1 = text_field("name"@, c.name);
    let s2 = text_field("description"@, c.description);
    let s3 = text_field("visibility"@, c.visibility);
    let s4 = text_field("linkAccess"@, c.link_access);
    let s5: Seq<(Seq<char>, AppFieldModel)> = match c.allow_remixing {
        Some(b) => seq![("allowRemixing"@, AppFieldModel::Flag(b))],
        None => Seq::empty(),
    };
    let s6: Seq<(Seq<char>, AppFieldModel)> = match c.tags {
        Some(t) => seq![("tags"@, AppFieldModel::List(views(t@)))],
        None => Seq::empty(),
    };
    let s7: Seq<(Seq<char>, AppFieldModel)> = match cid {
        Some(x) => seq![("thumbnailCid"@, AppFieldModel::Text(x))],
        None => Seq::empty(),
    };
    let all = app_fields_spec(c, cid);
    assert(all == s1 + s2 + s3 + s4 + s5 + s6 + s7);
    let a1 = s1;
    let a2 = a1 + s2;
    let a3 = a2 + s3;
    let a4 = a3 + s4;
    let a5 = a4 + s5;
    let a6 = a5 + s6;
    if i < a1.len() {
        assert(k == s1[i].0);
    } else if i < a2.len() {
        assert(a2[i] == s2[i - a1.len()]);
        assert(k == s2[i - a1.len()].0);
    } else if i < a3.len() {
        assert(a3[i] == s3[i - a2.len()]);
        assert(k == s3[i - a2.len()].0);
    } else if i < a4.len() {
        assert(a4[i] == s4[i - a3.len()]);
        assert(k == s4[i - a3.len()].0);
    } else if i < a5.len() {
        assert(a5[i] == s5[i - a4.len()]);
        assert(k == s5[i - a4.len()].0);
    } else if i < a6.len() {
        assert(a6[i] == s6[i - a5.len()]);
        assert(k == s6[i - a5.len()].0);
    } else {
        assert(all[i] == s7[i - a6.len()]);
        assert(k == s7[i - a6.len()].0);
    }
}


/// Inserting pairs with distinct names, one after the other, adds exactly
/// those names with their logins.
proof fn inserted_all_distinct(m: Map<Seq<char>, Credentials>, pairs: Seq<(String, Credentials)>)
    requires
        forall|i: int, j: int|
            0 <= i < j < pairs.len() ==> (#[trigger] pairs[i]).0@ != (#[trigger] pairs[j]).0@,
    ensures
        forall|k: Seq<char>|
            #[trigger] inserted_all(m, pairs).dom().contains(k) <==> (m.dom().contains(k)
                || exists|i: int| 0 <= i < pairs.len() && pairs[i].0@ == k),
        forall|i: int|
            0 <= i < pairs.len() ==> inserted_all(m, pairs)[(#[trigger] pairs[i]).0@]
                == pairs[i].1,
        forall|k: Seq<char>|
            m.dom().contains(k) && !(exists|i: int| 0 <= i < pairs.len() && pairs[i].0@ == k)
                ==> #[trigger] inserted_all(m, pairs)[k] == m[k],
    decreases pairs.len(),
{
    if pairs.len() > 0 {
        let rest = pairs.drop_first();
        let m1 = m.insert(pairs[0].0@, pairs[0].1);
        assert forall|i: int, j: int| 0 <= i < j < rest.len() implies (#[trigger] rest[i]).0@
            != (#[trigger] rest[j]).0@ by {
            assert(rest[i] == pairs[i + 1] && rest[j] == pairs[j + 1]);
        }
        inserted_all_distinct(m1, rest);
        let r = inserted_all(m, pairs);
        assert(r == inserted_all(m1, rest));
        assert forall|k: Seq<char>| #[trigger] r.dom().contains(k) <==> (m.dom().contains(k)
            || exists|i: int| 0 <= i < pairs.len() && pairs[i].0@ == k) by {
            if exists|i: int| 0 <= i < rest.len() && rest[i].0@ == k {
                let i = choose|i: int| 0 <= i < rest.len() && rest[i].0@ == k;
                assert(pairs[i + 1] == rest[i]);
            }
            if exists|i: int| 0 <= i < pairs.len() && pairs[i].0@ == k {
                let i = choose|i: int| 0 <= i < pairs.len() && pairs[i].0@ == k;
                if i > 0 {
                    assert(rest[i - 1] == pairs[i]);
                }
            }
        }
        assert forall|i: int| 0 <= i < pairs.len() implies r[(#[trigger] pairs[i]).0@]
            == pairs[i].1 by {
            if i > 0 {
                assert(rest[i - 1] == pairs[i]);
            } else {
                assert forall|j: int| 0 <= j < rest.len() implies rest[j].0@ != pairs[0].0@ by {
                    assert(rest[j] == pairs[j + 1]);
                }
                assert(m1.dom().contains(pairs[0].0@));
                assert(r[pairs[0].0@] == m1[pairs[0].0@]);
            }
        }
        assert forall|k: Seq<char>|
            m.dom().contains(k) && !(exists|i: int| 0 <= i < pairs.len() && pairs[i].0@ == k)
                implies #[trigger] r[k] == m[k] by {
            assert(k != pairs[0].0@);
            if exists|i: int| 0 <= i < rest.len() && rest[i].0@ == k {
                let i = choose|i: int| 0 <= i < rest.len() && rest[i].0@ == k;
                assert(pairs[i + 1] == rest[i]);
            }
            assert(m1.dom().contains(k));
        }
    }
}

/// Writing a store's profiles out in name order, each with its login, and
/// reading them back in that order gives the same logins under the same names.
pub proof fn listed_profiles_read_back(store: StoreModel, pairs: Seq<(String, Credentials)>)
    requires
        model_wf(store),
        pairs.len() == store.names.len(),
        forall|i: int|
            0 <= i < pairs.len() ==> (#[trigger] pairs[i]).0@ == store.names[i] && pairs[i].1
                == store.profiles[store.names[i]],
    ensures
        inserted_all(Map::empty(), pairs) == store.profiles,
{
    lemma_ascending_no_duplicates(store.names);
    assert forall|i: int, j: int| 0 <= i < j < pairs.len() implies (#[trigger] pairs[i]).0@
        != (#[trigger] pairs[j]).0@ by {
        assert(pairs[i].0@ == store.names[i] && pairs[j].0@ == store.names[j]);
    }
    inserted_all_distinct(Map::empty(), pairs);
    let r = inserted_all(Map::<Seq<char>, Credentials>::empty(), pairs);
    assert forall|k: Seq<char>| #[trigger] r.dom().contains(k) <==> store.profiles.dom().contains(
        k,
    ) by {
        if r.dom().contains(k) {
            let i = choose|i: int| 0 <= i < pairs.len() && pairs[i].0@ == k;
            assert(store.names[i] == k);
            assert(store.names.contains(k));
        }
        if store.profiles.dom().contains(k) {
            assert(store.names.contains(k));
            let i = choose|i: int| 0 <= i < store.names.len() && store.names[i] == k;
            assert(pairs[i].0@ == k);
        }
    }
    assert forall|k: Seq<char>| #[trigger] r.dom().contains(k) implies r[k] == store.profiles[k] by {
        let i = choose|i: int| 0 <= i < pairs.len() && pairs[i].0@ == k;
        assert(r[pairs[i].0@] == pairs[i].1);
    }
    assert(r =~= store.profiles);
}


/// A TOML value read as a field value, when it is one.
pub open spec fn toml_field_model(v: TomlValue) -> Option<AppFieldModel> {
    match v {
        TomlValue::Str(s) => Some(AppFieldModel::Text(s@)),
        TomlValue::Bool(b) => Some(AppFieldModel::Flag(b)),
        TomlValue::Array(a) => if all_strings(a@) {
            Some(AppFieldModel::List(scalar_texts(a@)))
        } else {
            None
        },
        TomlValue::Other => None,
    }
}

/// The first value written under `key`.
pub open spec fn written_value(fields: Seq<(Seq<char>, AppFieldModel)>, key: Seq<char>) -> Option<
    AppFieldModel,
>
    decreases fields.len(),
{
    if fields.len() == 0 {
        None
    } else if fields[0].0 == key {
        Some(fields[0].1)
    } else {
        written_value(fields.drop_first(), key)
    }
}

/// The table `t` holds `fields`, in order.
pub open spec fn table_holds(t: Seq<TomlEntry>, fields: Seq<(Seq<char>, AppFieldModel)>) -> bool {
    &&& t.len() == fields.len()
    &&& forall|i: int|
        0 <= i < t.len() ==> (#[trigger] t[i]).key@ == fields[i].0 && toml_field_model(t[i].value)
            == Some(fields[i].1)
}

/// Looking a key up in a table reads the value written under it.
proof fn table_value_reads_written(
    t: Seq<TomlEntry>,
    fields: Seq<(Seq<char>, AppFieldModel)>,
    key: Seq<char>,
)
    requires
        table_holds(t, fields),
    ensures
        match table_value(t, key) {
            None => written_value(fields, key) is None,
            Some(v) => written_value(fields, key) is Some && toml_field_model(v) == written_value(
                fields,
                key,
            ),
        },
    decreases t.len(),
{
    if t.len() > 0 {
        let (t1, f1) = (t.drop_first(), fields.drop_first());
        assert forall|i: int| 0 <= i < t1.len() implies (#[trigger] t1[i]).key@ == f1[i].0
            && toml_field_model(t1[i].value) == Some(f1[i].1) by {
            assert(t1[i] == t[i + 1] && f1[i] == fields[i + 1]);
        }
        assert(t[0].key@ == fields[0].0);
        table_value_reads_written(t1, f1, key);
    }
}

/// The first value under `key` in two lists one after the other.
proof fn written_value_concat(
    a: Seq<(Seq<char>, AppFieldModel)>,
    b: Seq<(Seq<char>, AppFieldModel)>,
    key: Seq<char>,
)
    ensures
        written_value(a + b, key) == match written_value(a, key) {
            Some(v) => Some(v),
            None => written_value(b, key),
        },
    decreases a.len(),
{
    if a.len() == 0 {
        assert(a + b =~= b);
    } else {
        assert((a + b).drop_first() =~= a.drop_first() + b);
        assert((a + b)[0] == a[0]);
        written_value_concat(a.drop_first(), b, key);
    }
}

/// A text value as a field value.
pub open spec fn text_model(value: Option<String>) -> Option<AppFieldModel> {
    match value {
        Some(v) => Some(AppFieldModel::Text(v@)),
        None => None,
    }
}

/// What the `[app]` table written for `c` holds under `key`.
pub open spec fn expected_field(c: AppConfig, key: Seq<char>) -> Option<AppFieldModel> {
    if key == "name"@ {
        text_model(c.name)
    } else if key == "description"@ {
        text_model(c.description)
    } else if key == "visibility"@ {
        text_model(c.visibility)
    } else if key == "link_access"@ {
        text_model(c.link_access)
    } else if key == "allow_remixing"@ {
        match c.allow_remixing {
            Some(b) => Some(AppFieldModel::Flag(b)),
            None => None,
        }
    } else if key == "tags"@ {
        match c.tags {
            Some(t) => Some(AppFieldModel::List(views(t@))),
            None => None,
        }
    } else if key == "thumbnail"@ {
        text_model(c.thumbnail)
    } else {
        None
    }
}

/// The value a singleton list holds under `key`.
proof fn written_value_single(k: Seq<char>, v: AppFieldModel, key: Seq<char>)
    ensures
        written_value(seq![(k, v)], key) == (if k == key {
            Some(v)
        } else {
            None::<AppFieldModel>
        }),
{
    let e = Seq::<(Seq<char>, AppFieldModel)>::empty();
    assert(seq![(k, v)].drop_first() =~= e);
    assert(seq![(k, v)][0] == (k, v));
    assert(written_value(e, key) is None);
}

/// The written `[app]` table holds, under each key, the value of its field.
proof fn app_table_values(c: AppConfig, key: Seq<char>)
    ensures
        written_value(app_table_spec(c), key) == expected_field(c, key),
{
    reveal_strlit("name");
    reveal_strlit("description");
    reveal_strlit("visibility");
    reveal_strlit("link_access");
    reveal_strlit("allow_remixing");
    reveal_strlit("tags");
    reveal_strlit("thumbnail");
    assert("name"@[0] == 'n' && "description"@[0] == 'd' && "visibility"@[0] == 'v'
        && "link_access"@[0] == 'l' && "allow_remixing"@[0] == 'a' && "tags"@[0] == 't'
        && "thumbnail"@[0] == 't' && "tags"@.len() == 4 && "thumbnail"@.len() == 9);
    let s1 = text_field("name"@, c.name);
    let s2 = text_field("description"@, c.description);
    let s3 = text_field("visibility"@, c.visibility);
    let s4 = text_field("link_access"@, c.link_access);
    let s5: Seq<(Seq<char>, AppFieldModel)> = match c.allow_remixing {
        Some(b) => seq![("allow_remixing"@, AppFieldModel::Flag(b))],
        None => Seq::empty(),
    };
    let s6: Seq<(Seq<char>, AppFieldModel)> = match c.tags {
        Some(t) => seq![("tags"@, AppFieldModel::List(views(t@)))],
        None => Seq::empty(),
    };
    let s7 = text_field("thumbnail"@, c.thumbnail);
    assert(app_table_spec(c) == s1 + s2 + s3 + s4 + s5 + s6 + s7);
    written_value_concat(s1 + s2 + s3 + s4 + s5 + s6, s7, key);
    written_value_concat(s1 + s2 + s3 + s4 + s5, s6, key);
    written_value_concat(s1 + s2 + s3 + s4, s5, key);
    written_value_concat(s1 + s2 + s3, s4, key);
    written_value_concat(s1 + s2, s3, key);
    written_value_concat(s1, s2, key);
    let e = Seq::<(Seq<char>, AppFieldModel)>::empty();
    assert(written_value(e, key) is None);
    match c.name {
        Some(v) => written_value_single("name"@, AppFieldModel::Text(v@), key),
        None => {},
    }
    match c.description {
        Some(v) => written_value_single("description"@, AppFieldModel::Text(v@), key),
        None => {},
    }
    match c.visibility {
        Some(v) => written_value_single("visibility"@, AppFieldModel::Text(v@), key),
        None => {},
    }
    match c.link_access {
        Some(v) => written_value_single("link_access"@, AppFieldModel::Text(v@), key),
        None => {},
    }
    match c.allow_remixing {
        Some(b) => written_value_single("allow_remixing"@, AppFieldModel::Flag(b), key),
        None => {},
    }
    match c.tags {
        Some(t) => written_value_single("tags"@, AppFieldModel::List(views(t@)), key),
        None => {},
    }
    match c.thumbnail {
        Some(v) => written_value_single("thumbnail"@, AppFieldModel::Text(v@), key),
        None => {},
    }
}

/// A string field read from a table that holds the written fields.
proof fn read_text_field(t: Seq<TomlEntry>, c: AppConfig, key: Seq<char>, value: Option<String>)
    requires
        table_holds(t, app_table_spec(c)),
        expected_field(c, key) == text_model(value),
    ensures
        string_field(table_value(t, key)) == Ok::<Option<Seq<char>>, ()>(opt_view(value)),
{
    app_table_values(c, key);
    table_value_reads_written(t, app_table_spec(c), key);
}

/// The `[app]` table written for an acceptable configuration reads back as
/// that configuration, with nothing to complain about.
pub proof fn written_app_tables_read_back(c: AppConfig, t: Seq<TomlEntry>)
    requires
        app_config_valid(c),
        table_holds(t, app_table_spec(c)),
    ensures
        app_config_problem(t) is None,
        app_config_of(t, c),
{
    reveal_strlit("name");
    reveal_strlit("description");
    reveal_strlit("visibility");
    reveal_strlit("link_access");
    reveal_strlit("allow_remixing");
    reveal_strlit("tags");
    reveal_strlit("thumbnail");
    assert("name"@[0] == 'n' && "description"@[0] == 'd' && "visibility"@[0] == 'v'
        && "link_access"@[0] == 'l' && "allow_remixing"@[0] == 'a' && "tags"@[0] == 't'
        && "thumbnail"@[0] == 't' && "tags"@.len() == 4 && "thumbnail"@.len() == 9);
    read_text_field(t, c, "name"@, c.name);
    read_text_field(t, c, "description"@, c.description);
    read_text_field(t, c, "visibility"@, c.visibility);
    read_text_field(t, c, "link_access"@, c.link_access);
    read_text_field(t, c, "thumbnail"@, c.thumbnail);
    app_table_values(c, "allow_remixing"@);
    table_value_reads_written(t, app_table_spec(c), "allow_remixing"@);
    app_table_values(c, "tags"@);
    table_value_reads_written(t, app_table_spec(c), "tags"@);
}


/// Applying the `[app]` table sends every field it sets, under the service's
/// name for it and with the configured value, and the thumbnail's content id
/// when one was uploaded.
pub proof fn set_fields_are_sent(c: AppConfig, cid: Option<Seq<char>>)
    ensures
        c.name matches Some(v) ==> app_fields_spec(c, cid).contains(
            ("name"@, AppFieldModel::Text(v@)),
        ),
        c.description matches Some(v) ==> app_fields_spec(c, cid).contains(
            ("description"@, AppFieldModel::Text(v@)),
        ),
        c.visibility matches Some(v) ==> app_fields_spec(c, cid).contains(
            ("visibility"@, AppFieldModel::Text(v@)),
        ),
        c.link_access matches Some(v) ==> app_fields_spec(c, cid).contains(
            ("linkAccess"@, AppFieldModel::Text(v@)),
        ),
        c.allow_remixing matches Some(b) ==> app_fields_spec(c, cid).contains(
            ("allowRemixing"@, AppFieldModel::Flag(b)),
        ),
        c.tags matches Some(t) ==> app_fields_spec(c, cid).contains(
            ("tags"@, AppFieldModel::List(views(t@))),
        ),
        cid matches Some(x) ==> app_fields_spec(c, cid).contains(
            ("thumbnailCid"@, AppFieldModel::Text(x)),
        ),
{
    let s1 = text_field("name"@, c.name);
    let s2 = text_field("description"@, c.description);
    let s3 = text_field("visibility"@, c.visibility);
    let s4 = text_field("linkAccess"@, c.link_access);
    let s5: Seq<(Seq<char>, AppFieldModel)> = match c.allow_remixing {
        Some(b) => seq![("allowRemixing"@, AppFieldModel::Flag(b))],
        None => Seq::empty(),
    };
    let s6: Seq<(Seq<char>, AppFieldModel)> = match c.tags {
        Some(t) => seq![("tags"@, AppFieldModel::List(views(t@)))],
        None => Seq::empty(),
    };
    let s7: Seq<(Seq<char>, AppFieldModel)> = match cid {
        Some(x) => seq![("thumbnailCid"@, AppFieldModel::Text(x))],
        None => Seq::empty(),
    };
    let all = app_fields_spec(c, cid);
    let a1 = s1;
    let a2 = a1 + s2;
    let a3 = a2 + s3;
    let a4 = a3 + s4;
    let a5 = a4 + s5;
    let a6 = a5 + s6;
    assert(all =~= a6 + s7);
    if c.name is Some {
        assert(all[0] == s1[0]);
    }
    if c.description is Some {
        assert(all[a1.len() as int] == s2[0]);
    }
    if c.visibility is Some {
        assert(all[a2.len() as int] == s3[0]);
    }
    if c.link_access is Some {
        assert(all[a3.len() as int] == s4[0]);
    }
    if c.allow_remixing is Some {
        assert(all[a4.len() as int] == s5[0]);
    }
    if c.tags is Some {
        assert(all[a5.len() as int] == s6[0]);
    }
    if cid is Some {
        assert(all[a6.len() as int] == s7[0]);
    }
}

/// Whether a parsed `package.json` lists `name` among its dependencies or
/// dev-dependencies.
pub open spec fn lists(p: PackageInfo, name: Seq<char>) -> bool {
    views(p.dependencies@).contains(name) || views(p.dev_dependencies@).contains(name)
}

/// Framework detection goes by dependency first, whatever files lie beside
/// `package.json`: Next.js wins, then Rsbuild, then Vite; only a project
/// without any of them is a static site, and only when it has `index.html`;
/// a `package.json` that is not JSON is refused.
pub proof fn frameworks_are_detected_by_dependency(files: ProjectFiles)
    ensures
        files.package_json matches PackageJson::Parsed(p) && lists(p, "next"@) ==> detected_framework(
            files,
        ) == Ok::<Option<Framework>, ()>(Some(Framework::Next)),
        files.package_json matches PackageJson::Parsed(p) && !lists(p, "next"@) && lists(
            p,
            "@rsbuild/core"@,
        ) ==> detected_framework(files) == Ok::<Option<Framework>, ()>(Some(Framework::Rsbuild)),
        files.package_json matches PackageJson::Parsed(p) && !lists(p, "next"@) && !lists(
            p,
            "@rsbuild/core"@,
        ) && lists(p, "vite"@) ==> detected_framework(files) == Ok::<Option<Framework>, ()>(
            Some(Framework::Vite),
        ),
        (files.package_json is Missing || (files.package_json matches PackageJson::Parsed(p)
            && !lists(p, "next"@) && !lists(p, "@rsbuild/core"@) && !lists(p, "vite"@)))
            ==> detected_framework(files) == Ok::<Option<Framework>, ()>(
            if files.index_html {
                Some(Framework::Static)
            } else {
                None
            },
        ),
        files.package_json is Invalid ==> detected_framework(files) is Err,
{
}

/// A media output with an extension its kind is written with (`png` images,
/// `mp3` or `wav` audio, `mp4` video, in any letter case) is accepted when it
/// is new, or replaced with `--force`, and is not a directory.
pub proof fn suitable_outputs_are_accepted(path: Seq<char>, force: bool, present: bool, is_dir: bool)
    ensures
        (extension_spec(path) matches Some(x) && ascii_lower(x) == "png"@) && (!present || force)
            && !is_dir ==> output_outcome(path, MediaKind::Image, force, present, is_dir) is None,
        (extension_spec(path) matches Some(x) && ascii_lower(x) == "mp3"@) && (!present || force)
            && !is_dir ==> output_outcome(path, MediaKind::Audio, force, present, is_dir) is None,
        (extension_spec(path) matches Some(x) && ascii_lower(x) == "wav"@) && (!present || force)
            && !is_dir ==> output_outcome(path, MediaKind::Audio, force, present, is_dir) is None,
        (extension_spec(path) matches Some(x) && ascii_lower(x) == "mp4"@) && (!present || force)
            && !is_dir ==> output_outcome(path, MediaKind::Video, force, present, is_dir) is None,
{
}

/// The keys an `[app]` table is read under.
pub open spec fn app_keys() -> Seq<Seq<char>> {
    seq![
        "name"@,
        "description"@,
        "visibility"@,
        "link_access"@,
        "allow_remixing"@,
        "tags"@,
        "thumbnail"@,
    ]
}

/// A table of one entry holds a value only under that entry's key.
proof fn single_entry_values(t: Seq<TomlEntry>, key: Seq<char>)
    requires
        t.len() == 1,
    ensures
        table_value(t, key) == (if t[0].key@ == key {
            Some(t[0].value)
        } else {
            None
        }),
{
    assert(t.drop_first().len() == 0);
    assert(table_value(t.drop_first(), key) is None);
}

/// Each of `private`, `unlisted` and `public` is an accepted visibility, and
/// each of `request`, `view` and `use` an accepted link access: an `[app]`
/// table that sets only one of them reads back as a configuration with that
/// value and nothing else, with nothing to complain about.
pub proof fn every_documented_access_setting_is_accepted(t: Seq<TomlEntry>, c: AppConfig)
    requires
        t.len() == 1,
        t[0].value matches TomlValue::Str(v) && ((t[0].key@ == "visibility"@ && (v@ == "private"@
            || v@ == "unlisted"@ || v@ == "public"@)) || (t[0].key@ == "link_access"@ && (v@
            == "request"@ || v@ == "view"@ || v@ == "use"@))),
        app_config_of(t, c),
    ensures
        app_config_problem(t) is None,
        t[0].key@ == "visibility"@ ==> (c.visibility matches Some(v) && t[0].value matches TomlValue::Str(
            s,
        ) && v@ == s@),
        t[0].key@ == "link_access"@ ==> (c.link_access matches Some(v) && t[0].value matches TomlValue::Str(
            s,
        ) && v@ == s@),
        c.name is None && c.description is None && c.allow_remixing is None && c.tags is None
            && c.thumbnail is None,
{
    reveal_strlit("name");
    reveal_strlit("description");
    reveal_strlit("visibility");
    reveal_strlit("link_access");
    reveal_strlit("allow_remixing");
    reveal_strlit("tags");
    reveal_strlit("thumbnail");
    let k = t[0].key@;
    single_entry_values(t, "name"@);
    single_entry_values(t, "description"@);
    single_entry_values(t, "visibility"@);
    single_entry_values(t, "link_access"@);
    single_entry_values(t, "allow_remixing"@);
    single_entry_values(t, "tags"@);
    single_entry_values(t, "thumbnail"@);
    assert("name"@.len() == 4 && "tags"@.len() == 4 && "thumbnail"@.len() == 9
        && "allow_remixing"@.len() == 14 && "visibility"@.len() == 10
        && "link_access"@.len() == 11 && "description"@.len() == 11);
    assert("description"@[0] == 'd' && "link_access"@[0] == 'l');
    if k == "visibility"@ {
        assert(k != "link_access"@ && k != "description"@);
    } else {
        assert(k == "link_access"@);
        assert(k[0] == 'l');
        assert(k != "visibility"@ && k != "description"@);
    }
}

/// Without a configured link access, a new public app can be viewed by
/// link and every other new app asks for access.
pub proof fn new_apps_ask_for_access_unless_public(
    app: AppConfig,
    repository: Seq<char>,
    configured: Option<AppConfig>,
    name: Option<Seq<char>>,
    description: Option<Seq<char>>,
    visibility: Option<Seq<char>>,
)
    requires
        initial_app_of(app, repository, configured, name, description, visibility),
        configured_or_empty(configured).link_access is None,
    ensures
        app.visibility matches Some(v) && app.link_access matches Some(l) && (if v@ == "public"@ {
            l@ == "view"@
        } else {
            l@ == "request"@
        }),
{
}

} // verus!
