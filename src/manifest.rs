//! The project manifest as the installer and the script runner read it: the
//! declared dependencies, development dependencies and scripts.

use vstd::prelude::*;
use crate::cache::unquoted;
use crate::install::Job;
use crate::json::{keys_at, member_pointer, member_pointer_of, nested_pointer, nested_pointer_of, read_keys, read_text, text_at};
use crate::lockfile::opt_view;

verus! {

/// What the installer and the script runner read from a manifest. Each member
/// list is (name, value), the value `None` where it is not a string; a list is
/// `None` where the manifest has no such object.
pub struct Manifest {
    pub name: Option<String>,
    pub version: Option<String>,
    pub dependencies: Option<Vec<(String, Option<String>)>>,
    pub dev_dependencies: Option<Vec<(String, Option<String>)>>,
    pub scripts: Option<Vec<(String, Option<String>)>>,
}

/// Why a manifest could not be used.
#[derive(Debug, Clone, Copy, PartialEq, Eq, Structural)]
pub enum ManifestError {
    /// The text is not a JSON object.
    NotJson,
    /// A dependency's range is not a string.
    RangeNotString,
    /// Neither dependencies nor development dependencies are declared.
    NoDependencies,
}

pub type Members = Seq<(Seq<char>, Option<Seq<char>>)>;

/// The members of the top-level object `field` of a document, with their
/// string values.
pub open spec fn members_of(text: Seq<char>, field: Seq<char>) -> Option<Members> {
    match keys_at(text, member_pointer(field)) {
        Some(ks) => Some(ks.map_values(|k: Seq<char>| (k, text_at(text, nested_pointer(field, k))))),
        None => None,
    }
}

pub open spec fn members_view(o: Option<Vec<(String, Option<String>)>>) -> Option<Members> {
    match o {
        Some(v) => Some(v@.map_values(|p: (String, Option<String>)| (p.0@, opt_view(p.1)))),
        None => None,
    }
}

fn read_members(text: &str, field: &str) -> (r: Option<Vec<(String, Option<String>)>>)
    ensures
        members_view(r) == members_of(text@, field@),
{
    let p = member_pointer_of(field);
    let keys = match read_keys(text, p.as_str()) {
        Some(k) => k,
        None => { return None; },
    };
    let ghost ks = keys@.map_values(|k: String| k@);
    let mut out: Vec<(String, Option<String>)> = Vec::new();
    let mut i: usize = 0;
    while i < keys.len()
        invariant
            i <= keys@.len(),
            ks == keys@.map_values(|k: String| k@),
            out@.map_values(|p: (String, Option<String>)| (p.0@, opt_view(p.1)))
                == ks.subrange(0, i as int).map_values(|k: Seq<char>| (k, text_at(text@, nested_pointer(field@, k)))),
        decreases keys@.len() - i,
    {
        let q = nested_pointer_of(field, keys[i].as_str());
        let value = read_text(text, q.as_str());
        let ghost before = out@;
        assert(ks[i as int] == keys@[i as int]@);
        assert(opt_view(value) == text_at(text@, nested_pointer(field@, ks[i as int])));
        let key = keys[i].clone();
        out.push((key, value));
        assert(out@.map_values(|p: (String, Option<String>)| (p.0@, opt_view(p.1)))
            =~= before.map_values(|p: (String, Option<String>)| (p.0@, opt_view(p.1))).push((ks[i as int], opt_view(value))));
        assert(ks.subrange(0, i + 1) =~= ks.subrange(0, i as int).push(ks[i as int]));
        assert(out@.map_values(|p: (String, Option<String>)| (p.0@, opt_view(p.1)))
            =~= ks.subrange(0, i + 1).map_values(|k: Seq<char>| (k, text_at(text@, nested_pointer(field@, k)))));
        i = i + 1;
    }
    assert(ks.subrange(0, keys@.len() as int) =~= ks);
    Some(out)
}

/// Reads a manifest document: a JSON object whose name, version,
/// `dependencies`, `devDependencies` and `scripts` are read as they stand.
pub fn parse_manifest(text: &str) -> (r: Result<Manifest, ManifestError>)
    ensures
        r is Ok <==> keys_at(text@, Seq::empty()) is Some,
        r is Err ==> r == Err::<Manifest, ManifestError>(ManifestError::NotJson),
        r matches Ok(m) ==> {
            &&& opt_view(m.name) == text_at(text@, "/name"@)
            &&& opt_view(m.version) == text_at(text@, "/version"@)
            &&& members_view(m.dependencies) == members_of(text@, "dependencies"@)
            &&& members_view(m.dev_dependencies) == members_of(text@, "devDependencies"@)
            &&& members_view(m.scripts) == members_of(text@, "scripts"@)
        },
{
    let root = String::new();
    if read_keys(text, root.as_str()).is_none() {
        return Err(ManifestError::NotJson);
    }
    Ok(Manifest {
        name: read_text(text, "/name"),
        version: read_text(text, "/version"),
        dependencies: read_members(text, "dependencies"),
        dev_dependencies: read_members(text, "devDependencies"),
        scripts: read_members(text, "scripts"),
    })
}

/// A job as plain values: name, range and whether it is a development dependency.
pub open spec fn job_view(j: Job) -> (Seq<char>, Seq<char>, bool) {
    (j.name@, j.range@, j.is_dev)
}

/// Every declared range is a string.
pub open spec fn ranges_are_text(o: Option<Members>) -> bool {
    match o {
        Some(d) => forall|k: int| 0 <= k < d.len() ==> (#[trigger] d[k]).1 is Some,
        None => true,
    }
}

pub open spec fn range_text(o: Option<Seq<char>>) -> Seq<char> {
    match o {
        Some(s) => s,
        None => Seq::empty(),
    }
}

/// The jobs for a list of declarations.
pub open spec fn jobs_of(o: Option<Members>, is_dev: bool) -> Seq<(Seq<char>, Seq<char>, bool)> {
    match o {
        Some(d) => d.map_values(|p: (Seq<char>, Option<Seq<char>>)| (p.0, unquoted(range_text(p.1)), is_dev)),
        None => Seq::empty(),
    }
}

fn push_jobs(out: &mut Vec<Job>, decls: &Vec<(String, Option<String>)>, is_dev: bool) -> (ok: bool)
    ensures
        ok == ranges_are_text(members_view(Some(*decls))),
        ok ==> final(out)@.map_values(|j: Job| job_view(j))
            == old(out)@.map_values(|j: Job| job_view(j)) + jobs_of(members_view(Some(*decls)), is_dev),
{
    let ghost start = old(out)@.map_values(|j: Job| job_view(j));
    let ghost d = members_view(Some(*decls))->0;
    let mut i: usize = 0;
    while i < decls.len()
        invariant
            i <= decls@.len(),
            d == decls@.map_values(|p: (String, Option<String>)| (p.0@, opt_view(p.1))),
            forall|k: int| 0 <= k < i ==> (#[trigger] d[k]).1 is Some,
            out@.map_values(|j: Job| job_view(j)) == start + jobs_of(Some(d.subrange(0, i as int)), is_dev),
        decreases decls@.len() - i,
    {
        let range = match &decls[i].1 {
            Some(r) => r,
            None => {
                assert(d[i as int].1 is None);
                return false;
            },
        };
        let job = Job::new(decls[i].0.as_str(), range.as_str(), is_dev);
        let ghost before = out@;
        out.push(job);
        assert(out@.map_values(|j: Job| job_view(j)) =~= before.map_values(|j: Job| job_view(j)).push(job_view(job)));
        assert(d.subrange(0, i + 1) =~= d.subrange(0, i as int).push(d[i as int]));
        assert(jobs_of(Some(d.subrange(0, i + 1)), is_dev) =~= jobs_of(Some(d.subrange(0, i as int)), is_dev).push(job_view(job)));
        i = i + 1;
    }
    assert(d.subrange(0, decls@.len() as int) =~= d);
    true
}

/// One job per declared dependency, then one per development dependency,
/// with no deduplication. A manifest that declares neither, or a range that is
/// not a string, is refused.
pub fn install_jobs(m: &Manifest) -> (r: Result<Vec<Job>, ManifestError>)
    ensures
        m.dependencies is None && m.dev_dependencies is None ==> r == Err::<Vec<Job>, ManifestError>(ManifestError::NoDependencies),
        !(m.dependencies is None && m.dev_dependencies is None) && !(ranges_are_text(members_view(m.dependencies))
            && ranges_are_text(members_view(m.dev_dependencies))) ==> r == Err::<Vec<Job>, ManifestError>(ManifestError::RangeNotString),
        !(m.dependencies is None && m.dev_dependencies is None) && ranges_are_text(members_view(m.dependencies))
            && ranges_are_text(members_view(m.dev_dependencies)) ==> (r matches Ok(jobs)
            && jobs@.map_values(|j: Job| job_view(j)) == jobs_of(members_view(m.dependencies), false)
                + jobs_of(members_view(m.dev_dependencies), true)),
{
    if m.dependencies.is_none() && m.dev_dependencies.is_none() {
        return Err(ManifestError::NoDependencies);
    }
    let mut jobs: Vec<Job> = Vec::new();
    assert(jobs@.map_values(|j: Job| job_view(j)) =~= Seq::empty());
    match &m.dependencies {
        Some(d) => {
            if !push_jobs(&mut jobs, d, false) {
                return Err(ManifestError::RangeNotString);
            }
        },
        None => {},
    }
    let ghost mid = jobs@.map_values(|j: Job| job_view(j));
    match &m.dev_dependencies {
        Some(d) => {
            if !push_jobs(&mut jobs, d, true) {
                return Err(ManifestError::RangeNotString);
            }
        },
        None => {
            assert(mid + Seq::<(Seq<char>, Seq<char>, bool)>::empty() =~= mid);
        },
    }
    proof {
        if m.dependencies is None {
            assert(Seq::<(Seq<char>, Seq<char>, bool)>::empty() + mid =~= mid);
        }
    }
    Ok(jobs)
}

} // verus!
