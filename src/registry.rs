//! The registry client's logic: metadata addresses, and reading a package's
//! metadata document down to the version to install and its tarball address.

use vstd::prelude::*;
use crate::text::{is_prefix, starts_with, substitute, substituted};
use crate::resolver::{
    key_views, parsed_version, resolution_error, resolve_version, selected_as_policy, ResolveError, Selection,
};
use crate::json::{keys_at, pointer_token, pointer_token_of, read_keys, read_text, text_at};

verus! {

/// The address of the public registry; package names are appended to it.
pub const REGISTRY_BASE: &'static str = "https://registry.npmjs.org/";

/// A package name as it appears in a metadata address: a scoped name (one that
/// starts with `@`) loses its `@` marks and has `/` written as `%2F`.
pub open spec fn encoded_name(name: Seq<char>) -> Seq<char> {
    if is_prefix("@"@, name) {
        substituted(name, '@', Seq::empty(), '/', "%2F"@)
    } else {
        name
    }
}

/// Encodes a package name for a metadata address.
pub fn encode_package_name(name: &str) -> (r: String)
    ensures
        r@ == encoded_name(name@),
{
    if starts_with(name, "@") {
        proof {
            reveal_strlit("");
            assert(""@ =~= Seq::<char>::empty());
        }
        substitute(name, '@', "", '/', "%2F")
    } else {
        String::from_str(name)
    }
}

/// The metadata address of a package.
pub fn registry_url(name: &str) -> (r: String)
    ensures
        r@ == REGISTRY_BASE@ + encoded_name(name@),
{
    let mut url = String::from_str(REGISTRY_BASE);
    let encoded = encode_package_name(name);
    url.append(encoded.as_str());
    url
}

/// The JSON pointer to the tarball address of one version in a metadata document;
/// the version key is escaped as a pointer token (`~` as `~0`, `/` as `~1`).
pub open spec fn tarball_pointer(version: Seq<char>) -> Seq<char> {
    "/versions/"@ + pointer_token(version) + "/dist/tarball"@
}

pub fn tarball_pointer_of(version: &str) -> (r: String)
    ensures
        r@ == tarball_pointer(version@),
{
    let mut p = String::from_str("/versions/");
    let token = pointer_token_of(version);
    p.append(token.as_str());
    p.append("/dist/tarball");
    p
}

/// Why the registry path failed for one package.
#[derive(Debug, Clone, Copy, PartialEq, Eq, Structural)]
pub enum FetchError {
    /// The metadata request did not succeed.
    RegistryUnavailable,
    /// The metadata is not JSON, has no `versions` object, or no tarball address
    /// for the selected version.
    MalformedMetadata,
    /// No version could be selected.
    Resolve(ResolveError),
    /// The archive did not hold exactly one top-level directory.
    ArchiveLayout,
    /// Downloading or unpacking the archive failed.
    TransferFailed,
}

/// The outcome of resolution: the version to install and where its tarball is.
#[derive(Debug)]
pub struct Resolution {
    pub version: String,
    pub tarball_url: String,
    /// Forced mode took the closest version because none satisfied the range.
    pub closest: bool,
}

/// The keys of a metadata document's `versions` object, if it has one.
pub open spec fn metadata_version_keys(body: Seq<char>) -> Option<Seq<Seq<char>>> {
    keys_at(body, "/versions"@)
}

/// The tarball address a metadata document gives for a version, if a string is there.
pub open spec fn metadata_tarball(body: Seq<char>, version: Seq<char>) -> Option<Seq<char>> {
    text_at(body, tarball_pointer(version))
}

/// What reading a metadata document gives: `MalformedMetadata` without a
/// `versions` object; the resolver's error where resolution over its keys
/// fails; else a version selected by the resolver's policy with the tarball
/// address the document gives for it, or `MalformedMetadata` where it gives none.
pub open spec fn reads_metadata(body: Seq<char>, range: Seq<char>, force: bool, r: Result<Resolution, FetchError>) -> bool {
    match metadata_version_keys(body) {
        None => r == Err::<Resolution, FetchError>(FetchError::MalformedMetadata),
        Some(ks) => match resolution_error(ks, range, force) {
            Some(e) => r == Err::<Resolution, FetchError>(FetchError::Resolve(e)),
            None => exists|s: Selection| {
                &&& selected_as_policy(ks, range, force, s)
                &&& match metadata_tarball(body, s.candidate.text@) {
                    Some(url) => r matches Ok(res) && res.version@ == s.candidate.text@
                        && res.tarball_url@ == url && res.closest == s.closest,
                    None => r == Err::<Resolution, FetchError>(FetchError::MalformedMetadata),
                }
            },
        },
    }
}

/// Reads a metadata document: collects the keys of its `versions` object,
/// resolves the range against them, and looks up the selected version's
/// `dist.tarball` address.
pub fn resolve_from_metadata(body: &str, range: &str, force: bool) -> (r: Result<Resolution, FetchError>)
    ensures
        reads_metadata(body@, range@, force, r),
        r matches Ok(res) ==> parsed_version(res.version@) is Some,
{
    let keys = match read_keys(body, "/versions") {
        Some(k) => k,
        None => { return Err(FetchError::MalformedMetadata); },
    };
    assert(key_views(keys@) == keys@.map_values(|k: String| k@));
    let selection = match resolve_version(&keys, range, force) {
        Ok(s) => s,
        Err(e) => { return Err(FetchError::Resolve(e)); },
    };
    let ghost sel = selection;
    let closest = selection.closest;
    let chosen = selection.candidate;
    let pointer = tarball_pointer_of(chosen.text.as_str());
    match read_text(body, pointer.as_str()) {
        Some(url) => {
            let r = Ok(Resolution { version: chosen.text, tarball_url: url, closest });
            assert(selected_as_policy(key_views(keys@), range@, force, sel));
            r
        },
        None => {
            assert(selected_as_policy(key_views(keys@), range@, force, sel));
            Err(FetchError::MalformedMetadata)
        },
    }
}

} // verus!
