//! The manifest of a built web application, prepared for the bundle store.
//!
//! The program around this library walks the build output and talks to the
//! store; here the walked files become a sorted manifest with safe relative
//! paths and content types.

use crate::paths::{
    all_normal, all_normal_chars, components, components_chars, extension_spec,
    is_component_prefix, is_normal_part, join_chars, join_parts, PathIssue,
};
use crate::text::{chars_of, owned, same_text, seq_lt, starts_with, string_of, text_less, has_prefix};
use vstd::prelude::*;

verus! {

/// Document-routing behaviour attached to an uploaded bundle.
#[derive(Clone, Copy, Debug, PartialEq, Eq, Structural)]
pub enum Routing {
    /// Every unknown route falls back to the entry document.
    Spa,
    /// Routes resolve to their own exported files.
    StaticPages,
}

/// Why a bundle or thumbnail was refused.
#[derive(Debug, Clone)]
pub enum BundleError {
    /// A walked path is not made of ordinary names.
    UnsafePath { path: String },
    /// The build output holds no files.
    NoFiles,
    /// The build output lacks its entry document.
    MissingEntry { entry: String },
    /// The thumbnail is not a file.
    NotAFile,
    /// The thumbnail is not an image by its extension.
    NotAnImage,
}

/// The media type that `mime_guess` gives a path by its extension.
pub uninterp spec fn guessed_content_type(path: Seq<char>) -> Seq<char>;

/// The media type of a path as `mime_guess::from_path(..).first_or_octet_stream()`
/// gives it, written out. The crate reads only the extension; without one the
/// answer is `application/octet-stream`. Which type each extension maps to is
/// not stated here: it is the crate's table.
#[verifier::external_body]
pub(crate) fn content_type(path: &str) -> (r: String)
    ensures
        r@ == guessed_content_type(path@),
        extension_spec(path@) is None ==> r@ == "application/octet-stream"@,
{
    mime_guess::from_path(path).first_or_octet_stream().to_string()
}

/// The path's components joined with `/`, when every one is an ordinary name.
pub fn relative_path(path: &str) -> (r: Result<String, PathIssue>)
    ensures
        r is Ok <==> all_normal(components(path@)),
        r matches Ok(s) ==> s@ == join_parts(components(path@)),
        r is Err ==> r == Err::<String, PathIssue>(PathIssue::Unsafe),
{
    let parts = components_chars(&chars_of(path));
    if !all_normal_chars(&parts) {
        return Err(PathIssue::Unsafe);
    }
    Ok(string_of(&join_chars(&parts)))
}

/// The names that never belong in a static bundle.
pub open spec fn is_local_only_name(name: Seq<char>) -> bool {
    ||| name == ".git"@
    ||| name == ".maypop"@
    ||| name == "node_modules"@
    ||| name == "maypop.toml"@
    ||| name == ".env"@
    ||| has_prefix(name, ".env."@)
}

/// Whether `path`, found under `root`, is local control state rather than
/// build output: outside `root`, or under a first component that is Git,
/// Maypop, dependency or environment state.
pub open spec fn local_only(root: Seq<char>, path: Seq<char>) -> bool {
    let rc = components(root);
    let pc = components(path);
    if !is_component_prefix(rc, pc) {
        true
    } else if pc.len() == rc.len() {
        false
    } else {
        is_normal_part(pc[rc.len() as int]) && is_local_only_name(pc[rc.len() as int])
    }
}

/// Whether `path`, found under `root`, stays out of the bundle.
pub fn is_local_only_path(root: &str, path: &str) -> (r: bool)
    ensures
        r == local_only(root@, path@),
{
    let rc = components_chars(&chars_of(root));
    let pc = components_chars(&chars_of(path));
    if !crate::paths::component_prefix(&rc, &pc) {
        return true;
    }
    if pc.len() == rc.len() {
        return false;
    }
    let first = string_of(&pc[rc.len()]);
    assert(crate::text::char_views(pc@)[rc.len() as int] == first@);
    if !crate::paths::is_normal_text(&pc[rc.len()]) {
        return false;
    }
    let name = first.as_str();
    same_text(name, ".git") || same_text(name, ".maypop") || same_text(name, "node_modules")
        || same_text(name, "maypop.toml") || same_text(name, ".env") || starts_with(name, ".env.")
}

/// One file of a bundle manifest.
#[derive(Debug, Clone, PartialEq, Eq)]
pub struct ManifestEntry {
    pub path: String,
    pub size: u64,
    pub content_type: String,
}

/// A manifest entry and the file it was read from.
#[derive(Debug, Clone, PartialEq, Eq)]
pub struct LocalFile {
    pub manifest: ManifestEntry,
    pub local_path: String,
}

/// A regular file found while walking the build output.
#[derive(Debug, Clone, PartialEq, Eq)]
pub struct FoundFile {
    /// The file's path relative to the output directory.
    pub relative: String,
    /// The file's path on disk.
    pub local_path: String,
    /// The file's length in bytes.
    pub size: u64,
}

/// The manifest entry made from a found file.
pub open spec fn entry_of(f: FoundFile, l: LocalFile) -> bool {
    &&& l.manifest.path@ == join_parts(components(f.relative@))
    &&& l.manifest.size == f.size
    &&& l.manifest.content_type@ == guessed_content_type(f.local_path@)
    &&& l.local_path == f.local_path
}

/// `made` holds, position by position, the manifest entries of `found`.
pub open spec fn manifest_of(found: Seq<FoundFile>, made: Seq<LocalFile>) -> bool {
    made.len() == found.len() && forall|i: int|
        0 <= i < found.len() ==> entry_of(#[trigger] found[i], made[i])
}

/// Manifest paths never decrease.
pub open spec fn paths_ascending(v: Seq<LocalFile>) -> bool {
    forall|i: int, j: int|
        0 <= i < j < v.len() ==> !seq_lt(#[trigger] v[j].manifest.path@, #[trigger] v[i].manifest.path@)
}

/// Manifest paths strictly increase: each path occurs once, in order.
pub open spec fn paths_strictly_ascending(v: Seq<LocalFile>) -> bool {
    forall|i: int, j: int|
        0 <= i < j < v.len() ==> seq_lt(#[trigger] v[i].manifest.path@, #[trigger] v[j].manifest.path@)
}

/// No two entries share a manifest path.
pub open spec fn distinct_paths(v: Seq<LocalFile>) -> bool {
    forall|i: int, j: int|
        0 <= i < j < v.len() ==> #[trigger] v[i].manifest.path@ != #[trigger] v[j].manifest.path@
}

/// Ascending paths that are all different strictly increase.
proof fn lemma_distinct_ascending_is_strict(v: Seq<LocalFile>)
    requires
        paths_ascending(v),
        distinct_paths(v),
    ensures
        paths_strictly_ascending(v),
{
    assert forall|i: int, j: int| 0 <= i < j < v.len() implies seq_lt(
        #[trigger] v[i].manifest.path@,
        #[trigger] v[j].manifest.path@,
    ) by {
        crate::text::lemma_seq_lt_total(v[i].manifest.path@, v[j].manifest.path@);
    }
}

/// Insert `f` after every entry whose path does not come after its own; the
/// result is the position it took.
fn insert_sorted(v: &mut Vec<LocalFile>, f: LocalFile) -> (p: usize)
    requires
        paths_ascending(old(v)@),
    ensures
        paths_ascending(final(v)@),
        final(v)@.to_multiset() == old(v)@.to_multiset().insert(f),
        p <= old(v)@.len(),
        final(v)@ == old(v)@.insert(p as int, f),
{
    let ghost old_v = v@;
    let mut p: usize = 0;
    while p < v.len() && !text_less(f.manifest.path.as_str(), v[p].manifest.path.as_str())
        invariant
            p <= v.len(),
            v@ == old_v,
            forall|j: int| 0 <= j < p ==> !seq_lt(f.manifest.path@, #[trigger] old_v[j].manifest.path@),
        decreases v.len() - p,
    {
        p = p + 1;
    }
    let ghost fp = f.manifest.path@;
    v.insert(p, f);
    proof {
        broadcast use vstd::seq_lib::to_multiset_insert;
        let nv = v@;
        assert(nv == old_v.insert(p as int, f));
        assert forall|i: int, j: int| 0 <= i < j < nv.len() implies !seq_lt(
            #[trigger] nv[j].manifest.path@,
            #[trigger] nv[i].manifest.path@,
        ) by {
            if j < p {
                assert(nv[i] == old_v[i] && nv[j] == old_v[j]);
            } else if j == p {
                assert(nv[i] == old_v[i]);
                assert(!seq_lt(fp, old_v[i].manifest.path@));
            } else if i == p {
                assert(nv[j] == old_v[j - 1]);
                // old_v[p] comes after fp, and old_v[j-1] does not come before old_v[p]
                assert(seq_lt(fp, old_v[p as int].manifest.path@));
                if seq_lt(old_v[j - 1].manifest.path@, fp) {
                    if j - 1 > p {
                        assert(!seq_lt(old_v[j - 1].manifest.path@, old_v[p as int].manifest.path@));
                        crate::text::lemma_seq_lt_transitive(
                            old_v[j - 1].manifest.path@,
                            fp,
                            old_v[p as int].manifest.path@,
                        );
                    } else {
                        crate::text::lemma_seq_lt_asymmetric(fp, old_v[p as int].manifest.path@);
                    }
                }
            } else if i < p {
                assert(nv[i] == old_v[i] && nv[j] == old_v[j - 1]);
            } else {
                assert(nv[i] == old_v[i - 1] && nv[j] == old_v[j - 1]);
            }
        }
    }
    p
}

/// The manifest of the found files: each path made of ordinary names joined
/// with `/`, each content type guessed from the file's path, the entries
/// sorted by path; an unsafe path or an empty output is refused.
pub fn build_manifest(found: &Vec<FoundFile>) -> (r: Result<Vec<LocalFile>, BundleError>)
    ensures
        r is Ok <==> (found@.len() > 0 && forall|i: int|
            0 <= i < found@.len() ==> all_normal(components(#[trigger] found@[i].relative@))),
        r matches Err(e) ==> (e is NoFiles && found@.len() == 0) || (e matches BundleError::UnsafePath {
            path,
        } && exists|i: int|
            0 <= i < found@.len() && found@[i].relative@ == path@ && !all_normal(
                components(#[trigger] found@[i].relative@),
            ) && forall|j: int|
                0 <= j < i ==> all_normal(components(#[trigger] found@[j].relative@))),
        r matches Ok(v) ==> paths_ascending(v@) && v@.len() == found@.len() && exists|made: Seq<
            LocalFile,
        >| #[trigger] manifest_of(found@, made) && v@.to_multiset() == made.to_multiset(),
        r matches Ok(v) ==> ((forall|i: int, j: int|
            0 <= i < j < found@.len() ==> join_parts(components(#[trigger] found@[i].relative@))
                != join_parts(components(#[trigger] found@[j].relative@)))
            ==> paths_strictly_ascending(v@)),
{
    let mut sorted: Vec<LocalFile> = Vec::new();
    let ghost mut made: Seq<LocalFile> = Seq::empty();
    let ghost mut origin: Seq<int> = Seq::empty();
    let mut i: usize = 0;
    while i < found.len()
        invariant
            i <= found.len(),
            made.len() == i,
            forall|j: int| 0 <= j < i ==> entry_of(#[trigger] found@[j], made[j]),
            forall|j: int| 0 <= j < i ==> all_normal(components(#[trigger] found@[j].relative@)),
            paths_ascending(sorted@),
            sorted@.to_multiset() == made.to_multiset(),
            origin.len() == sorted@.len(),
            forall|k: int|
                0 <= k < sorted@.len() ==> 0 <= #[trigger] origin[k] < i
                    && sorted@[k].manifest.path@ == made[origin[k]].manifest.path@,
            distinct_paths(made) ==> distinct_paths(sorted@),
        decreases found.len() - i,
    {
        let f = &found[i];
        let path = match relative_path(f.relative.as_str()) {
            Ok(p) => p,
            Err(_) => {
                return Err(BundleError::UnsafePath { path: f.relative.clone() });
            },
        };
        let entry = LocalFile {
            manifest: ManifestEntry {
                path,
                size: f.size,
                content_type: content_type(f.local_path.as_str()),
            },
            local_path: f.local_path.clone(),
        };
        let ghost made_head = made;
        proof {
            broadcast use vstd::seq_lib::to_multiset_build;
            made = made.push(entry);
        }
        let ghost before = sorted@;
        let ghost made_before = made_head;
        let p = insert_sorted(&mut sorted, entry);
        proof {
            let old_origin = origin;
            origin = old_origin.insert(p as int, i as int);
            assert forall|k: int| 0 <= k < sorted@.len() implies 0 <= #[trigger] origin[k] < i + 1
                && sorted@[k].manifest.path@ == made[origin[k]].manifest.path@ by {
                if k < p {
                    assert(sorted@[k] == before[k] && origin[k] == old_origin[k]);
                } else if k > p {
                    assert(sorted@[k] == before[k - 1] && origin[k] == old_origin[k - 1]);
                }
            }
            assert(made[i as int] == entry);
            if distinct_paths(made) {
                assert forall|a: int, b: int| 0 <= a < b < made_before.len() implies
                    #[trigger] made_before[a].manifest.path@ != #[trigger] made_before[b].manifest.path@ by {
                    assert(made_before[a] == made[a] && made_before[b] == made[b]);
                }
                assert(distinct_paths(made_before));
                assert forall|a: int, b: int| 0 <= a < b < sorted@.len() implies
                    #[trigger] sorted@[a].manifest.path@ != #[trigger] sorted@[b].manifest.path@ by {
                    if a != p && b != p {
                        let a0 = if a < p { a } else { a - 1 };
                        let b0 = if b < p { b } else { b - 1 };
                        assert(sorted@[a] == before[a0] && sorted@[b] == before[b0]);
                    } else if a == p {
                        let b0 = b - 1;
                        assert(sorted@[a] == entry);
                        assert(sorted@[b] == before[b0]);
                        assert(sorted@[b].manifest.path@ == made[old_origin[b0]].manifest.path@);
                        assert(old_origin[b0] < i);
                    } else {
                        assert(sorted@[b] == entry);
                        assert(sorted@[a] == before[a]);
                        assert(sorted@[a].manifest.path@ == made[old_origin[a]].manifest.path@);
                        assert(old_origin[a] < i);
                    }
                }
            }
        }
        i = i + 1;
    }
    if sorted.len() == 0 {
        proof {
            vstd::seq_lib::to_multiset_len(made);
            vstd::seq_lib::to_multiset_len(sorted@);
        }
        return Err(BundleError::NoFiles);
    }
    proof {
        vstd::seq_lib::to_multiset_len(made);
        vstd::seq_lib::to_multiset_len(sorted@);
        assert(manifest_of(found@, made));
        if forall|a: int, b: int|
            0 <= a < b < found@.len() ==> join_parts(components(#[trigger] found@[a].relative@))
                != join_parts(components(#[trigger] found@[b].relative@)) {
            assert forall|a: int, b: int| 0 <= a < b < made.len() implies
                #[trigger] made[a].manifest.path@ != #[trigger] made[b].manifest.path@ by {
                assert(entry_of(found@[a], made[a]) && entry_of(found@[b], made[b]));
            }
            lemma_distinct_ascending_is_strict(sorted@);
        }
    }
    Ok(sorted)
}

/// Whether some manifest entry has the path `entry`.
pub fn contains_entry(files: &Vec<LocalFile>, entry: &str) -> (r: bool)
    ensures
        r == exists|i: int| 0 <= i < files@.len() && (#[trigger] files@[i]).manifest.path@ == entry@,
{
    let mut i: usize = 0;
    while i < files.len()
        invariant
            i <= files.len(),
            forall|j: int| 0 <= j < i ==> (#[trigger] files@[j]).manifest.path@ != entry@,
        decreases files.len() - i,
    {
        if same_text(files[i].manifest.path.as_str(), entry) {
            return true;
        }
        i = i + 1;
    }
    false
}

/// Refuse a manifest that lacks its entry document.
pub fn check_entry(files: &Vec<LocalFile>, entry: &str) -> (r: Result<(), BundleError>)
    ensures
        r is Ok <==> exists|i: int| 0 <= i < files@.len() && (#[trigger] files@[i]).manifest.path@ == entry@,
        r matches Err(e) ==> e matches BundleError::MissingEntry { entry: x } && x@ == entry@,
{
    if contains_entry(files, entry) {
        Ok(())
    } else {
        Err(BundleError::MissingEntry { entry: owned(entry) })
    }
}

/// The manifest file behind a requested path: the last entry with that path.
pub fn file_for<'a>(files: &'a Vec<LocalFile>, path: &str) -> (r: Option<&'a LocalFile>)
    ensures
        r matches Some(l) ==> exists|i: int|
            0 <= i < files@.len() && files@[i].manifest.path@ == path@ && *l == files@[i]
                && forall|j: int| i < j < files@.len() ==> (#[trigger] files@[j]).manifest.path@ != path@,
        r is None ==> forall|i: int| 0 <= i < files@.len() ==> (#[trigger] files@[i]).manifest.path@ != path@,
{
    let mut k: usize = files.len();
    while k > 0
        invariant
            k <= files.len(),
            forall|j: int| k <= j < files@.len() ==> (#[trigger] files@[j]).manifest.path@ != path@,
        decreases k,
    {
        if same_text(files[k - 1].manifest.path.as_str(), path) {
            return Some(&files[k - 1]);
        }
        k = k - 1;
    }
    None
}

/// Accept a thumbnail's media type only when it is an image type.
pub fn accept_image_type(mime: String) -> (r: Result<String, BundleError>)
    ensures
        has_prefix(mime@, "image/"@) ==> (r matches Ok(m) && m@ == mime@),
        !has_prefix(mime@, "image/"@) ==> (r matches Err(e) && e is NotAnImage),
{
    if starts_with(mime.as_str(), "image/") {
        Ok(mime)
    } else {
        Err(BundleError::NotAnImage)
    }
}

/// Accept a thumbnail only when it is a file whose extension names an image
/// type, and give that type.
pub fn check_thumbnail(path: &str, is_file: bool) -> (r: Result<String, BundleError>)
    ensures
        !is_file ==> (r matches Err(e) && e is NotAFile),
        is_file ==> (r is Ok <==> has_prefix(guessed_content_type(path@), "image/"@)),
        is_file && r is Err ==> (r matches Err(e) && e is NotAnImage),
        r matches Ok(m) ==> m@ == guessed_content_type(path@),
{
    if !is_file {
        return Err(BundleError::NotAFile);
    }
    accept_image_type(content_type(path))
}

} // verus!
