//! The version resolver: from a package's published version strings and a
//! requested range to the version that gets installed.

use vstd::prelude::*;
use vstd::multiset::Multiset;
use core::cmp::Ordering;
use crate::text::{drop_leading, trim_start_char};

verus! {

broadcast use {
    vstd::seq_lib::group_to_multiset_ensures,
    vstd::multiset::group_multiset_axioms,
};

#[verifier::external_type_specification]
pub struct ExVersion(semver::Version);

#[verifier::external_type_specification]
#[verifier::external_body]
pub struct ExPrerelease(semver::Prerelease);

#[verifier::external_type_specification]
#[verifier::external_body]
pub struct ExBuildMetadata(semver::BuildMetadata);

#[verifier::external_type_specification]
#[verifier::external_body]
pub struct ExVersionReq(semver::VersionReq);

#[verifier::external_type_specification]
#[verifier::external_body]
pub struct ExSemverError(semver::Error);

/// The (major, minor, patch) numbers of the text as a semantic version,
/// or `None` where the text is not one.
pub uninterp spec fn parsed_version(text: Seq<char>) -> Option<(u64, u64, u64)>;

/// Whether the text is a version requirement in the syntax of the semver crate.
pub uninterp spec fn is_version_req(text: Seq<char>) -> bool;

/// Relies on `semver::Version::parse`: it accepts exactly the semantic versions,
/// and the numbers it reads are the public `major`, `minor` and `patch` fields.
pub assume_specification[ semver::Version::parse ](text: &str) -> (r: Result<semver::Version, semver::Error>)
    ensures
        r is Ok <==> parsed_version(text@) is Some,
        r matches Ok(v) ==> parsed_version(text@) == Some((v.major, v.minor, v.patch)),
;

/// Relies on `semver::VersionReq::parse`: whether the text is a requirement.
pub assume_specification[ semver::VersionReq::parse ](text: &str) -> (r: Result<semver::VersionReq, semver::Error>)
    ensures
        r is Ok <==> is_version_req(text@),
;

/// Lexicographic order of (major, minor, patch) triples.
pub open spec fn triple_cmp(a: (u64, u64, u64), b: (u64, u64, u64)) -> Ordering {
    if a.0 != b.0 {
        if a.0 < b.0 { Ordering::Less } else { Ordering::Greater }
    } else if a.1 != b.1 {
        if a.1 < b.1 { Ordering::Less } else { Ordering::Greater }
    } else if a.2 != b.2 {
        if a.2 < b.2 { Ordering::Less } else { Ordering::Greater }
    } else {
        Ordering::Equal
    }
}

/// The numbers of a version.
pub open spec fn triple(v: semver::Version) -> (u64, u64, u64) {
    (v.major, v.minor, v.patch)
}

/// `a` is at least as new as `b` by major, minor and patch number.
pub open spec fn at_least(a: semver::Version, b: semver::Version) -> bool {
    triple_cmp(triple(a), triple(b)) != Ordering::Less
}

/// Relies on the `Ord` that semver derives for `Version`: fields compared in the
/// order major, minor, patch, pre-release, build. Where the numbers differ they decide.
#[verifier::external_body]
fn compare_versions(a: &semver::Version, b: &semver::Version) -> (r: Ordering)
    ensures
        triple(*a) != triple(*b) ==> r == triple_cmp(triple(*a), triple(*b)),
{
    a.cmp(b)
}

/// A published version: the registry's key for it and its parsed form.
pub struct Candidate {
    pub text: String,
    pub version: semver::Version,
}

/// The keys as character sequences.
pub open spec fn key_views(keys: Seq<String>) -> Seq<Seq<char>> {
    keys.map_values(|k: String| k@)
}

/// The keys that are semantic versions, in their order.
pub open spec fn semver_keys(keys: Seq<Seq<char>>) -> Seq<Seq<char>>
    decreases keys.len(),
{
    if keys.len() == 0 {
        Seq::empty()
    } else {
        let rest = semver_keys(keys.drop_last());
        if parsed_version(keys.last()) is Some {
            rest.push(keys.last())
        } else {
            rest
        }
    }
}

/// The texts of the candidates, in order.
pub open spec fn candidate_texts(cs: Seq<Candidate>) -> Seq<Seq<char>> {
    cs.map_values(|c: Candidate| c.text@)
}

/// Each candidate's version is what its text parses to.
pub open spec fn candidates_parsed(cs: Seq<Candidate>) -> bool {
    forall|i: int| 0 <= i < cs.len() ==> parsed_version(#[trigger] cs[i].text@) == Some(triple(cs[i].version))
}

/// Newest first: no candidate is newer by its numbers than one before it.
pub open spec fn newest_first(cs: Seq<Candidate>) -> bool {
    forall|i: int, j: int| 0 <= i < j < cs.len() ==> at_least(#[trigger] cs[i].version, #[trigger] cs[j].version)
}

/// Keeps the keys that parse as semantic versions, in their order.
pub fn published_versions(keys: &Vec<String>) -> (r: Vec<Candidate>)
    ensures
        candidate_texts(r@) == semver_keys(key_views(keys@)),
        candidates_parsed(r@),
{
    let mut out: Vec<Candidate> = Vec::new();
    let mut i: usize = 0;
    while i < keys.len()
        invariant
            i <= keys@.len(),
            candidate_texts(out@) == semver_keys(key_views(keys@).subrange(0, i as int)),
            candidates_parsed(out@),
        decreases keys@.len() - i,
    {
        let ghost before = key_views(keys@).subrange(0, i as int);
        let ghost after = key_views(keys@).subrange(0, i + 1);
        assert(after.drop_last() == before);
        assert(after.last() == keys@[i as int]@);
        match semver::Version::parse(keys[i].as_str()) {
            Ok(v) => {
                let c = Candidate { text: keys[i].clone(), version: v };
                out.push(c);
                assert(candidate_texts(out@) == candidate_texts(out@.drop_last()).push(c.text@));
            },
            Err(_) => {},
        }
        i = i + 1;
    }
    assert(key_views(keys@).subrange(0, keys@.len() as int) == key_views(keys@));
    out
}

/// Sorts the candidates newest first, keeping every one of them.
pub fn sort_newest_first(input: Vec<Candidate>) -> (r: Vec<Candidate>)
    ensures
        r@.to_multiset() == input@.to_multiset(),
        candidate_texts(r@).to_multiset() == candidate_texts(input@).to_multiset(),
        newest_first(r@),
{
    let mut rest = input;
    let mut out: Vec<Candidate> = Vec::new();
    while rest.len() > 0
        invariant
            out@.to_multiset().add(rest@.to_multiset()) == input@.to_multiset(),
            candidate_texts(out@).to_multiset().add(candidate_texts(rest@).to_multiset())
                == candidate_texts(input@).to_multiset(),
            newest_first(out@),
        decreases rest@.len(),
    {
        let ghost rest_before = rest@;
        let c = rest.pop().unwrap();
        assert(rest_before == rest@.push(c));
        assert(candidate_texts(rest_before) =~= candidate_texts(rest@).push(c.text@));
        let mut j: usize = 0;
        while j < out.len()
            invariant
                j <= out@.len(),
                newest_first(out@),
                forall|k: int| 0 <= k < j ==> at_least(#[trigger] out@[k].version, c.version),
            ensures
                j <= out@.len(),
                forall|k: int| 0 <= k < j ==> at_least(#[trigger] out@[k].version, c.version),
                j < out@.len() ==> at_least(c.version, out@[j as int].version),
            decreases out@.len() - j,
        {
            if let Ordering::Greater = compare_versions(&c.version, &out[j].version) {
                break;
            }
            j = j + 1;
        }
        let ghost out_before = out@;
        out.insert(j, c);
        assert(out@.to_multiset() == out_before.to_multiset().insert(c));
        assert(candidate_texts(out@) =~= candidate_texts(out_before).insert(j as int, c.text@));
        assert(candidate_texts(out@).to_multiset() == candidate_texts(out_before).to_multiset().insert(c.text@));
        assert forall|a: int, b: int| 0 <= a < b < out@.len() implies at_least(#[trigger] out@[a].version, #[trigger] out@[b].version) by {
            if b < j {
            } else if b == j {
            } else if a < j {
                assert(at_least(out_before[a].version, c.version));
                assert(at_least(c.version, out_before[b - 1].version)) by {
                    assert(at_least(out_before[j as int].version, out_before[b - 1].version));
                }
            } else if a == j {
                assert(at_least(out_before[j as int].version, out_before[b - 1].version));
            } else {
                assert(at_least(out_before[a - 1].version, out_before[b - 1].version));
            }
        }
    }
    out
}

/// Why no version could be selected.
#[derive(Debug, Clone, Copy, PartialEq, Eq, Structural)]
pub enum ResolveError {
    /// The package has no published semantic version.
    NoVersionsAvailable,
    /// The requested range, or in forced mode its literal version, does not parse.
    InvalidVersionSpec,
    /// No published version satisfies the range and forced mode is off.
    VersionNotFound,
}

/// How far apart two major numbers are.
pub open spec fn major_distance(a: u64, b: u64) -> nat {
    if a >= b { (a - b) as nat } else { (b - a) as nat }
}

/// Some version satisfies the range.
pub open spec fn any_match(matched: Seq<bool>) -> bool {
    exists|k: int| 0 <= k < matched.len() && matched[k]
}

/// `i` is the first position whose version satisfies the range.
pub open spec fn is_first_match(matched: Seq<bool>, i: int) -> bool {
    &&& 0 <= i < matched.len()
    &&& matched[i]
    &&& forall|k: int| 0 <= k < i ==> !matched[k]
}

/// `i` is the first position whose major number is closest to `target`.
pub open spec fn is_first_closest(majors: Seq<u64>, target: u64, i: int) -> bool {
    &&& 0 <= i < majors.len()
    &&& forall|k: int| 0 <= k < majors.len() ==> major_distance(majors[i], target) <= major_distance(#[trigger] majors[k], target)
    &&& forall|k: int| 0 <= k < i ==> major_distance(majors[i], target) < major_distance(#[trigger] majors[k], target)
}

/// The selection policy over published versions listed newest first, given which
/// of them satisfy the range (`matched`) and their major numbers. The first that
/// satisfies wins. Otherwise forced mode takes the first whose major number is
/// closest to that of the requested literal version (`None` where the literal
/// does not parse); without forced mode nothing is selected.
pub fn choose_version(majors: &Vec<u64>, matched: &Vec<bool>, force: bool, requested_major: Option<u64>) -> (r: Result<usize, ResolveError>)
    requires
        majors@.len() == matched@.len(),
    ensures
        any_match(matched@) ==> (r matches Ok(i) && is_first_match(matched@, i as int)),
        !any_match(matched@) && !force ==> r == Err::<usize, ResolveError>(ResolveError::VersionNotFound),
        !any_match(matched@) && force && requested_major is None ==> r == Err::<usize, ResolveError>(ResolveError::InvalidVersionSpec),
        !any_match(matched@) && force && requested_major is Some && majors@.len() == 0 ==> r == Err::<usize, ResolveError>(ResolveError::NoVersionsAvailable),
        !any_match(matched@) && force && requested_major is Some && majors@.len() > 0 ==> (r matches Ok(i) && is_first_closest(majors@, requested_major->0, i as int)),
{
    let mut i: usize = 0;
    while i < matched.len()
        invariant
            i <= matched@.len(),
            forall|k: int| 0 <= k < i ==> !matched@[k],
        decreases matched@.len() - i,
    {
        if matched[i] {
            return Ok(i);
        }
        i = i + 1;
    }
    if !force {
        return Err(ResolveError::VersionNotFound);
    }
    let target = match requested_major {
        Some(t) => t,
        None => { return Err(ResolveError::InvalidVersionSpec); },
    };
    if majors.len() == 0 {
        return Err(ResolveError::NoVersionsAvailable);
    }
    let mut best: usize = 0;
    let mut best_distance: u64 = distance(majors[0], target);
    let mut k: usize = 1;
    while k < majors.len()
        invariant
            1 <= k <= majors@.len(),
            best < k,
            best_distance == major_distance(majors@[best as int], target),
            forall|m: int| 0 <= m < k ==> major_distance(majors@[best as int], target) <= major_distance(#[trigger] majors@[m], target),
            forall|m: int| 0 <= m < best ==> major_distance(majors@[best as int], target) < major_distance(#[trigger] majors@[m], target),
        decreases majors@.len() - k,
    {
        let d = distance(majors[k], target);
        if d < best_distance {
            best = k;
            best_distance = d;
        }
        k = k + 1;
    }
    Ok(best)
}

/// Among versions listed newest first, the first that satisfies the range is,
/// by its numbers, at least as new as every version that satisfies it.
pub proof fn lemma_first_match_is_newest(cs: Seq<Candidate>, matched: Seq<bool>, i: int)
    requires
        newest_first(cs),
        matched.len() == cs.len(),
        is_first_match(matched, i),
    ensures
        forall|k: int| 0 <= k < cs.len() && matched[k] ==> at_least(cs[i].version, #[trigger] cs[k].version),
{
    assert forall|k: int| 0 <= k < cs.len() && matched[k] implies at_least(cs[i].version, #[trigger] cs[k].version) by {
        if k > i {
            assert(at_least(cs[i].version, cs[k].version));
        }
    }
}

fn distance(a: u64, b: u64) -> (r: u64)
    ensures
        r as nat == major_distance(a, b),
{
    if a >= b { a - b } else { b - a }
}

/// The requested range without its leading `^` and `~` marks.
pub open spec fn clean_range(range: Seq<char>) -> Seq<char> {
    drop_leading(drop_leading(range, '^'), '~')
}

/// The cleaned range reads as a caret requirement, or else as an exact one.
pub open spec fn range_parses(clean: Seq<char>) -> bool {
    is_version_req("^"@ + clean) || is_version_req("="@ + clean)
}

fn prefixed(mark: &str, clean: &str) -> (r: String)
    ensures
        r@ == mark@ + clean@,
{
    let mut s = String::from_str(mark);
    s.append(clean);
    s
}

/// The requirement a cleaned range is read as: the caret requirement where that
/// parses, else the exact one.
pub open spec fn req_text(clean: Seq<char>) -> Seq<char> {
    if is_version_req("^"@ + clean) { "^"@ + clean } else { "="@ + clean }
}

/// Reads the cleaned range as a caret requirement, falling back to an exact one.
fn requirement_text(clean: &str) -> (r: Option<String>)
    ensures
        r is Some <==> range_parses(clean@),
        r matches Some(t) ==> t@ == req_text(clean@) && is_version_req(t@),
{
    let caret = prefixed("^", clean);
    match semver::VersionReq::parse(caret.as_str()) {
        Ok(_) => Some(caret),
        Err(_) => {
            let exact = prefixed("=", clean);
            match semver::VersionReq::parse(exact.as_str()) {
                Ok(_) => Some(exact),
                Err(_) => None,
            }
        },
    }
}

/// Whether the version that `version` parses to satisfies the requirement that
/// `req` parses to, by the semver crate's matching rules.
pub uninterp spec fn req_matches(req: Seq<char>, version: Seq<char>) -> bool;

/// Relies on `semver::VersionReq::matches`, applied to what the two texts parse
/// to; the answer depends on the texts alone.
#[verifier::external_body]
fn range_matches(req: &str, version: &str) -> (r: bool)
    requires
        is_version_req(req@),
        parsed_version(version@) is Some,
    ensures
        r == req_matches(req@, version@),
{
    match (semver::VersionReq::parse(req), semver::Version::parse(version)) {
        (Ok(q), Ok(v)) => q.matches(&v),
        _ => false,
    }
}

/// The published version `version` satisfies the requested range.
pub open spec fn satisfies(range: Seq<char>, version: Seq<char>) -> bool {
    req_matches(req_text(clean_range(range)), version)
}

/// Some published semantic version satisfies the range.
pub open spec fn some_satisfies(valid: Seq<Seq<char>>, range: Seq<char>) -> bool {
    exists|k: int| 0 <= k < valid.len() && satisfies(range, #[trigger] valid[k])
}

/// Strips the leading `^` marks, then the leading `~` marks, of a range.
pub fn strip_range_marks(range: &str) -> (r: &str)
    ensures
        r@ == clean_range(range@),
{
    trim_start_char(trim_start_char(range, '^'), '~')
}

/// Why resolution fails, where it does: no published semantic version; a range
/// that does not parse; nothing satisfying it outside forced mode; in forced
/// mode, a literal version that does not parse.
pub open spec fn resolution_error(keys: Seq<Seq<char>>, range: Seq<char>, force: bool) -> Option<ResolveError> {
    let valid = semver_keys(keys);
    let clean = clean_range(range);
    if valid.len() == 0 {
        Some(ResolveError::NoVersionsAvailable)
    } else if !range_parses(clean) {
        Some(ResolveError::InvalidVersionSpec)
    } else if some_satisfies(valid, range) {
        None
    } else if !force {
        Some(ResolveError::VersionNotFound)
    } else if parsed_version(clean) is None {
        Some(ResolveError::InvalidVersionSpec)
    } else {
        None
    }
}

/// The selected version, and whether it is the closest stand-in that forced
/// mode took because nothing satisfied the range.
/// `ranked` and `satisfied` record, for proofs, the published versions newest
/// first and which of them the range matched.
pub struct Selection {
    pub candidate: Candidate,
    pub closest: bool,
    pub ranked: Ghost<Seq<Candidate>>,
    pub satisfied: Ghost<Seq<bool>>,
}

/// The major numbers of the candidates, in order.
pub open spec fn majors_of(cs: Seq<Candidate>) -> Seq<u64> {
    cs.map_values(|c: Candidate| c.version.major)
}

/// The major number of the requested range read as a literal version.
pub open spec fn requested_major(range: Seq<char>) -> u64 {
    match parsed_version(clean_range(range)) {
        Some(t) => t.0,
        None => 0,
    }
}

/// How a selection relates to the published versions and the range: the
/// ranking is newest first and its texts are exactly the published semantic
/// versions, counted with multiplicity, each marked with whether it satisfies
/// the range; the first satisfying version is
/// taken, else, in forced mode only, the first whose major number is closest
/// to the requested one.
pub open spec fn selected_as_policy(keys: Seq<Seq<char>>, range: Seq<char>, force: bool, s: Selection) -> bool {
    let valid = semver_keys(keys);
    &&& newest_first(s.ranked@)
    &&& s.ranked@.len() == valid.len()
    &&& candidate_texts(s.ranked@).to_multiset() == valid.to_multiset()
    &&& candidates_parsed(s.ranked@)
    &&& forall|k: int| 0 <= k < s.ranked@.len() ==> valid.contains(#[trigger] s.ranked@[k].text@)
    &&& s.satisfied@.len() == s.ranked@.len()
    &&& forall|k: int| 0 <= k < s.ranked@.len() ==> #[trigger] s.satisfied@[k] == satisfies(range, s.ranked@[k].text@)
    &&& any_match(s.satisfied@) == some_satisfies(valid, range)
    &&& s.closest == !any_match(s.satisfied@)
    &&& any_match(s.satisfied@) ==> exists|i: int| is_first_match(s.satisfied@, i) && s.candidate == s.ranked@[i]
    &&& !any_match(s.satisfied@) ==> force && parsed_version(clean_range(range)) is Some
        && exists|i: int| is_first_closest(majors_of(s.ranked@), requested_major(range), i) && s.candidate == s.ranked@[i]
}

proof fn lemma_member(a: Seq<Candidate>, b: Seq<Candidate>, i: int) -> (j: int)
    requires
        a.to_multiset() == b.to_multiset(),
        0 <= i < a.len(),
    ensures
        0 <= j < b.len(),
        b[j] == a[i],
{
    assert(a.contains(a[i]));
    assert(b.to_multiset().count(a[i]) > 0);
    choose|j: int| 0 <= j < b.len() && b[j] == a[i]
}

/// Resolves a requested range against the keys of a package's published versions.
/// Keys that are not semantic versions are ignored; the rest are ordered newest
/// first and handed to `choose_version`, with which of them the range matches.
pub fn resolve_version(keys: &Vec<String>, range: &str, force: bool) -> (r: Result<Selection, ResolveError>)
    ensures
        resolution_error(key_views(keys@), range@, force) matches Some(e) ==> r == Err::<Selection, ResolveError>(e),
        resolution_error(key_views(keys@), range@, force) is None ==> r is Ok,
        r matches Ok(s) ==> selected_as_policy(key_views(keys@), range@, force, s)
            && parsed_version(s.candidate.text@) == Some(triple(s.candidate.version)),
{
    let candidates = published_versions(keys);
    let ghost valid = semver_keys(key_views(keys@));
    if candidates.len() == 0 {
        return Err(ResolveError::NoVersionsAvailable);
    }
    let ghost unsorted = candidates@;
    let mut sorted = sort_newest_first(candidates);
    assert(sorted@.len() == unsorted.len()) by {
        vstd::seq_lib::to_multiset_len(sorted@);
        vstd::seq_lib::to_multiset_len(unsorted);
    }
    assert(candidate_texts(unsorted).len() == unsorted.len());
    assert(candidates_parsed(sorted@)) by {
        assert forall|i: int| 0 <= i < sorted@.len() implies parsed_version(#[trigger] sorted@[i].text@) == Some(triple(sorted@[i].version)) by {
            let m = lemma_member(sorted@, unsorted, i);
        }
    }
    let clean = strip_range_marks(range);
    let req = match requirement_text(clean) {
        Some(q) => q,
        None => { return Err(ResolveError::InvalidVersionSpec); },
    };
    let mut majors: Vec<u64> = Vec::new();
    let mut matched: Vec<bool> = Vec::new();
    let mut i: usize = 0;
    while i < sorted.len()
        invariant
            i <= sorted@.len(),
            candidates_parsed(sorted@),
            is_version_req(req@),
            req@ == req_text(clean_range(range@)),
            majors@.len() == i,
            matched@.len() == i,
            forall|k: int| 0 <= k < i ==> #[trigger] majors@[k] == sorted@[k].version.major,
            forall|k: int| 0 <= k < i ==> #[trigger] matched@[k] == satisfies(range@, sorted@[k].text@),
        decreases sorted@.len() - i,
    {
        assert(parsed_version(sorted@[i as int].text@) == Some(triple(sorted@[i as int].version)));
        majors.push(sorted[i].version.major);
        matched.push(range_matches(req.as_str(), sorted[i].text.as_str()));
        i = i + 1;
    }
    let ghost ranked = sorted@;
    proof {
        if any_match(matched@) {
            let j = choose|j: int| 0 <= j < matched@.len() && matched@[j];
            let m = lemma_member(ranked, unsorted, j);
            assert(candidate_texts(unsorted)[m] == ranked[j].text@);
            assert(valid[m] == ranked[j].text@);
        }
        if some_satisfies(valid, range@) {
            let k = choose|k: int| 0 <= k < valid.len() && satisfies(range@, #[trigger] valid[k]);
            assert(candidate_texts(unsorted)[k] == unsorted[k].text@);
            let j = lemma_member(unsorted, ranked, k);
            assert(matched@[j]);
        }
    }
    let literal_major = match semver::Version::parse(clean) {
        Ok(v) => Some(v.major),
        Err(_) => None,
    };
    let idx = match choose_version(&majors, &matched, force, literal_major) {
        Ok(idx) => idx,
        Err(e) => { return Err(e); },
    };
    let closest = !matched[idx];
    assert(majors@ =~= majors_of(ranked));
    let chosen = sorted.remove(idx);
    proof {
        assert forall|j: int| 0 <= j < ranked.len() implies valid.contains(#[trigger] ranked[j].text@) by {
            let m = lemma_member(ranked, unsorted, j);
            assert(candidate_texts(unsorted)[m] == ranked[j].text@);
        }
        if any_match(matched@) {
            assert(is_first_match(matched@, idx as int));
        } else {
            assert(is_first_closest(majors_of(ranked), requested_major(range@), idx as int));
        }
    }
    let sel = Selection { candidate: chosen, closest, ranked: Ghost(ranked), satisfied: Ghost(matched@) };
    assert(any_match(sel.satisfied@) ==> exists|i: int| is_first_match(sel.satisfied@, i) && sel.candidate == sel.ranked@[i]);
    assert(!any_match(sel.satisfied@) ==> force && parsed_version(clean_range(range@)) is Some);
    Ok(sel)
}

/// The numbers a published key parses to.
pub open spec fn key_triple(key: Seq<char>) -> (u64, u64, u64) {
    match parsed_version(key) {
        Some(t) => t,
        None => (0, 0, 0),
    }
}

proof fn lemma_ranked_index_of(keys: Seq<Seq<char>>, range: Seq<char>, force: bool, s: Selection, k: int) -> (j: int)
    requires
        selected_as_policy(keys, range, force, s),
        0 <= k < semver_keys(keys).len(),
    ensures
        0 <= j < s.ranked@.len(),
        s.ranked@[j].text@ == semver_keys(keys)[k],
        triple(s.ranked@[j].version) == key_triple(semver_keys(keys)[k]),
{
    let valid = semver_keys(keys);
    let texts = candidate_texts(s.ranked@);
    assert(valid.contains(valid[k]));
    assert(texts.to_multiset().count(valid[k]) > 0);
    assert(texts.contains(valid[k]));
    let j = choose|j: int| 0 <= j < texts.len() && texts[j] == valid[k];
    assert(parsed_version(s.ranked@[j].text@) == Some(triple(s.ranked@[j].version)));
    j
}

/// Where some published version satisfies the range, resolution takes one
/// that is, by its numbers, at least as new as every published version that
/// satisfies the range.
pub proof fn lemma_resolution_takes_newest_satisfying(keys: Seq<Seq<char>>, range: Seq<char>, force: bool, s: Selection)
    requires
        selected_as_policy(keys, range, force, s),
        some_satisfies(semver_keys(keys), range),
    ensures
        !s.closest,
        semver_keys(keys).contains(s.candidate.text@),
        forall|k: int| 0 <= k < semver_keys(keys).len() && satisfies(range, #[trigger] semver_keys(keys)[k])
            ==> triple_cmp(triple(s.candidate.version), key_triple(semver_keys(keys)[k])) != Ordering::Less,
{
    let i = choose|i: int| is_first_match(s.satisfied@, i) && s.candidate == s.ranked@[i];
    lemma_first_match_is_newest(s.ranked@, s.satisfied@, i);
    assert forall|k: int| 0 <= k < semver_keys(keys).len() && satisfies(range, #[trigger] semver_keys(keys)[k])
        implies triple_cmp(triple(s.candidate.version), key_triple(semver_keys(keys)[k])) != Ordering::Less by {
        let j = lemma_ranked_index_of(keys, range, force, s, k);
        assert(s.satisfied@[j]);
        assert(at_least(s.candidate.version, s.ranked@[j].version));
    }
}

/// Where no published version satisfies the range, a resolution exists only in
/// forced mode, and its major number is as close to the requested one as that
/// of any published version.
pub proof fn lemma_forced_resolution_is_closest(keys: Seq<Seq<char>>, range: Seq<char>, force: bool, s: Selection)
    requires
        selected_as_policy(keys, range, force, s),
        !some_satisfies(semver_keys(keys), range),
    ensures
        force,
        s.closest,
        semver_keys(keys).contains(s.candidate.text@),
        forall|k: int| 0 <= k < semver_keys(keys).len() ==> major_distance(s.candidate.version.major, requested_major(range))
            <= major_distance((#[trigger] key_triple(semver_keys(keys)[k])).0, requested_major(range)),
{
    let i = choose|i: int| is_first_closest(majors_of(s.ranked@), requested_major(range), i) && s.candidate == s.ranked@[i];
    assert forall|k: int| 0 <= k < semver_keys(keys).len() implies major_distance(s.candidate.version.major, requested_major(range))
        <= major_distance((#[trigger] key_triple(semver_keys(keys)[k])).0, requested_major(range)) by {
        let j = lemma_ranked_index_of(keys, range, force, s, k);
        assert(majors_of(s.ranked@)[j] == s.ranked@[j].version.major);
        assert(majors_of(s.ranked@)[i] == s.ranked@[i].version.major);
    }
}

/// Ranges that differ only in their leading `^` and `~` marks (`^1.2.0`,
/// `~1.2.0`, `1.2.0`) select a version with the same numbers wherever some
/// published version satisfies them.
pub proof fn lemma_marks_do_not_change_selection(
    keys: Seq<Seq<char>>,
    r1: Seq<char>,
    r2: Seq<char>,
    force: bool,
    s1: Selection,
    s2: Selection,
)
    requires
        clean_range(r1) == clean_range(r2),
        selected_as_policy(keys, r1, force, s1),
        selected_as_policy(keys, r2, force, s2),
        some_satisfies(semver_keys(keys), r1),
    ensures
        triple(s1.candidate.version) == triple(s2.candidate.version),
{
    let valid = semver_keys(keys);
    assert forall|x: Seq<char>| satisfies(r1, x) == satisfies(r2, x) by {}
    assert(some_satisfies(valid, r2));
    lemma_resolution_takes_newest_satisfying(keys, r1, force, s1);
    lemma_resolution_takes_newest_satisfying(keys, r2, force, s2);
    let i1 = choose|i: int| is_first_match(s1.satisfied@, i) && s1.candidate == s1.ranked@[i];
    let i2 = choose|i: int| is_first_match(s2.satisfied@, i) && s2.candidate == s2.ranked@[i];
    let t1 = s1.ranked@[i1].text@;
    let t2 = s2.ranked@[i2].text@;
    assert(valid.contains(t1));
    assert(valid.contains(t2));
    let k1 = choose|k: int| 0 <= k < valid.len() && valid[k] == t1;
    let k2 = choose|k: int| 0 <= k < valid.len() && valid[k] == t2;
    assert(candidates_parsed(s1.ranked@));
    assert(parsed_version(s1.ranked@[i1].text@) == Some(triple(s1.ranked@[i1].version)));
    assert(parsed_version(s2.ranked@[i2].text@) == Some(triple(s2.ranked@[i2].version)));
    assert(s1.satisfied@[i1] && s2.satisfied@[i2]);
    assert(satisfies(r1, valid[k2]));
    assert(satisfies(r2, valid[k1]));
    assert(triple_cmp(triple(s1.candidate.version), key_triple(valid[k2])) != Ordering::Less);
    assert(triple_cmp(triple(s2.candidate.version), key_triple(valid[k1])) != Ordering::Less);
}

} // verus!
