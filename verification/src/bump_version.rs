//! Version-bump support: rewriting the dependency line of the starter
//! projects' manifests, and the version field of the root package
//! manifest. The text substitution itself is regex work; reading and
//! writing the manifest files is the caller's concern.

use vstd::prelude::*;
use vstd::string::StringExecFns;
use crate::errors::CiError;

verus! {

/// Whether a pattern is a well-formed regular expression.
pub uninterp spec fn regex_valid(pattern: Seq<char>) -> bool;

/// Whether a pattern matches somewhere in a text.
pub uninterp spec fn regex_match_of(pattern: Seq<char>, text: Seq<char>) -> bool;

/// The text with every non-overlapping match of the pattern replaced by
/// the literal replacement.
pub uninterp spec fn regex_replace_all_of(pattern: Seq<char>, text: Seq<char>, rep: Seq<char>) -> Seq<char>;

/// The text with the first match of the pattern replaced, capture
/// references in the replacement expanded.
pub uninterp spec fn regex_replace_first_of(pattern: Seq<char>, text: Seq<char>, rep: Seq<char>) -> Seq<char>;

/// Relies on regex::Regex::new, which succeeds exactly on well-formed
/// patterns, and regex::Regex::is_match, a function of pattern and
/// haystack alone.
#[verifier::external_body]
fn regex_is_match(pattern: &str, text: &str) -> (r: Option<bool>)
    ensures
        r is Some <==> regex_valid(pattern@),
        r matches Some(b) ==> b == regex_match_of(pattern@, text@),
{
    match regex::Regex::new(pattern) {
        Ok(re) => Some(re.is_match(text)),
        Err(_) => None,
    }
}

/// Relies on regex::Regex::new and regex::Regex::replace_all with
/// regex::NoExpand: every non-overlapping match replaced by the literal
/// replacement, a function of pattern, haystack and replacement alone;
/// an unmatched haystack comes back unchanged.
#[verifier::external_body]
fn regex_replace_all(pattern: &str, text: &str, rep: &str) -> (r: Option<String>)
    ensures
        r is Some <==> regex_valid(pattern@),
        r matches Some(s) ==> s@ == regex_replace_all_of(pattern@, text@, rep@) && (
        !regex_match_of(pattern@, text@) ==> s@ == text@),
{
    match regex::Regex::new(pattern) {
        Ok(re) => Some(re.replace_all(text, regex::NoExpand(rep)).into_owned()),
        Err(_) => None,
    }
}

/// Relies on regex::Regex::new and regex::Regex::replace: the first match
/// replaced, `$name`/`${name}` in the replacement expanded to the named
/// capture's text, a function of pattern, haystack and replacement alone;
/// an unmatched haystack comes back unchanged.
#[verifier::external_body]
fn regex_replace_first(pattern: &str, text: &str, rep: &str) -> (r: Option<String>)
    ensures
        r is Some <==> regex_valid(pattern@),
        r matches Some(s) ==> s@ == regex_replace_first_of(pattern@, text@, rep@) && (
        !regex_match_of(pattern@, text@) ==> s@ == text@),
{
    match regex::Regex::new(pattern) {
        Ok(re) => Some(re.replace(text, rep).into_owned()),
        Err(_) => None,
    }
}

/// The pattern that finds the loco-rs dependency line of a starter
/// manifest.
pub open spec fn package_version_pattern() -> Seq<char> {
    "loco-rs = \\{ (version|path) = \"[^\"]+\""@
}

/// The pattern that finds the package name and version field at the top
/// of the root package manifest.
pub open spec fn lib_version_pattern() -> Seq<char> {
    "(?P<name>name\\s*=\\s*\".+\\s+version\\s*=\\s*\")(?P<version>[0-9]+\\.[0-9]+\\.[0-9]+)"@
}

/// Rewrite every loco-rs dependency line of one manifest text to the
/// given replacement. `None` when the manifest holds no such line (or the
/// fixed pattern were malformed): the caller reports which file.
pub fn replace_loco_rs_version(content: &str, replace_with: &str) -> (r: Option<String>)
    ensures
        r matches Some(s) ==> regex_valid(package_version_pattern()) && regex_match_of(
            package_version_pattern(),
            content@,
        ) && s@ == regex_replace_all_of(package_version_pattern(), content@, replace_with@),
        r is None ==> !(regex_valid(package_version_pattern()) && regex_match_of(
            package_version_pattern(),
            content@,
        )),
{
    let pat = "loco-rs = \\{ (version|path) = \"[^\"]+\"";
    match regex_is_match(pat, content) {
        Some(true) => match regex_replace_all(pat, content, replace_with) {
            Some(s) => Some(s),
            None => {
                proof {
                    assert(false);
                }
                None
            },
        },
        _ => None,
    }
}

/// Rewrite the version field of the root package manifest text to the
/// given version. `None` when the manifest's name and version fields do
/// not have the expected shape.
pub fn bump_root_manifest(content: &str, new_version: &str) -> (r: Option<String>)
    ensures
        r matches Some(s) ==> regex_valid(lib_version_pattern()) && regex_match_of(
            lib_version_pattern(),
            content@,
        ) && s@ == regex_replace_first_of(lib_version_pattern(), content@, "${name}"@ + new_version@),
        r is None ==> !(regex_valid(lib_version_pattern()) && regex_match_of(
            lib_version_pattern(),
            content@,
        )),
{
    let pat = "(?P<name>name\\s*=\\s*\".+\\s+version\\s*=\\s*\")(?P<version>[0-9]+\\.[0-9]+\\.[0-9]+)";
    match regex_is_match(pat, content) {
        Some(true) => {
            let mut rep = String::from_str("${name}");
            rep.append(new_version);
            match regex_replace_first(pat, content, rep.as_str()) {
                Some(s) => Some(s),
                None => {
                    proof {
                        assert(false);
                    }
                    None
                },
            }
        },
        _ => None,
    }
}

/// One starter project's manifest texts: its own, and the one of its
/// migration sub-crate when that folder exists.
#[derive(Debug)]
pub struct StarterProject {
    pub path: String,
    pub manifest: String,
    pub migration_manifest: Option<String>,
}

/// Ghost image of a starter project's manifests.
pub ghost struct StarterProjectV {
    pub path: Seq<char>,
    pub manifest: Seq<char>,
    pub migration_manifest: Option<Seq<char>>,
}

impl View for StarterProject {
    type V = StarterProjectV;

    open spec fn view(&self) -> StarterProjectV {
        StarterProjectV {
            path: self.path@,
            manifest: self.manifest@,
            migration_manifest: match self.migration_manifest {
                Some(m) => Some(m@),
                None => None,
            },
        }
    }
}

/// A sequence of starters, seen at the ghost level.
pub open spec fn starters_view(ss: Seq<StarterProject>) -> Seq<StarterProjectV> {
    ss.map_values(|s: StarterProject| s@)
}

/// The replacement the migration manifest gets: its own when one is
/// given, the common one otherwise.
pub open spec fn migrator_rep_of(replace_with: Seq<char>, replace_migrator: Option<&str>) -> Seq<
    char,
> {
    match replace_migrator {
        Some(m) => m@,
        None => replace_with,
    }
}

/// Whether one starter's manifests all hold the dependency line to
/// rewrite.
pub open spec fn starter_ok(s: StarterProject) -> bool {
    &&& regex_valid(package_version_pattern())
    &&& regex_match_of(package_version_pattern(), s.manifest@)
    &&& match s.migration_manifest {
        Some(m) => regex_match_of(package_version_pattern(), m@),
        None => true,
    }
}

/// Every starter can be rewritten.
pub open spec fn all_starters_ok(ss: Seq<StarterProject>) -> bool {
    forall|i: int| 0 <= i < ss.len() ==> starter_ok(ss[i])
}

/// The position of the first starter that cannot be rewritten.
pub open spec fn first_bad_starter(ss: Seq<StarterProject>) -> int
    decreases ss.len(),
{
    if ss.len() == 0 {
        0
    } else if !starter_ok(ss[0]) {
        0
    } else {
        1 + first_bad_starter(ss.subrange(1, ss.len() as int))
    }
}

proof fn lemma_first_bad_at(ss: Seq<StarterProject>, i: int)
    requires
        0 <= i < ss.len(),
        !starter_ok(ss[i]),
        forall|j: int| 0 <= j < i ==> starter_ok(ss[j]),
    ensures
        first_bad_starter(ss) == i,
    decreases i,
{
    if i > 0 {
        let tail = ss.subrange(1, ss.len() as int);
        assert(!starter_ok(tail[i - 1]));
        assert forall|j: int| 0 <= j < i - 1 implies starter_ok(tail[j]) by {
            assert(tail[j] == ss[j + 1]);
        }
        lemma_first_bad_at(tail, i - 1);
    }
}

/// One starter after the rewrite.
pub open spec fn updated_starter(s: StarterProject, rep: Seq<char>, mrep: Seq<char>) -> StarterProjectV {
    StarterProjectV {
        path: s.path@,
        manifest: regex_replace_all_of(package_version_pattern(), s.manifest@, rep),
        migration_manifest: match s.migration_manifest {
            Some(m) => Some(regex_replace_all_of(package_version_pattern(), m@, mrep)),
            None => None,
        },
    }
}

/// All starters after the rewrite, in order.
pub open spec fn updated_starters(ss: Seq<StarterProject>, rep: Seq<char>, mrep: Seq<char>) -> Seq<
    StarterProjectV,
>
    decreases ss.len(),
{
    if ss.len() == 0 {
        Seq::empty()
    } else {
        updated_starters(ss.drop_last(), rep, mrep).push(updated_starter(ss.last(), rep, mrep))
    }
}

/// Update the loco-rs dependency line in every starter project's
/// manifest, and in its migration sub-crate's manifest where one exists
/// (with `replace_migrator` when given, since the migration crate sits
/// one folder deeper). Fails naming the first starter whose manifests do
/// not hold the line.
pub fn update_starters(
    starters: &Vec<StarterProject>,
    replace_with: &str,
    replace_migrator: Option<&str>,
) -> (r: Result<Vec<StarterProject>, CiError>)
    ensures
        (r is Ok) <==> all_starters_ok(starters@),
        r matches Ok(v) ==> starters_view(v@) == updated_starters(
            starters@,
            replace_with@,
            migrator_rep_of(replace_with@, replace_migrator),
        ),
        !all_starters_ok(starters@) ==> (r matches Err(CiError::BumpVersion { path: p }) && p@
            == starters@[first_bad_starter(starters@)].path@),
{
    let mig_rep: &str = match replace_migrator {
        Some(m) => m,
        None => replace_with,
    };
    let ghost mrep: Seq<char> = migrator_rep_of(replace_with@, replace_migrator);
    let mut updated: Vec<StarterProject> = Vec::new();
    proof {
        assert(starters@.take(0) =~= Seq::<StarterProject>::empty());
        assert(starters_view(updated@) =~= updated_starters(starters@.take(0), replace_with@, mrep));
    }
    let mut i: usize = 0;
    while i < starters.len()
        invariant
            0 <= i <= starters@.len(),
            mig_rep@ == mrep,
            mrep == migrator_rep_of(replace_with@, replace_migrator),
            forall|j: int| 0 <= j < i ==> starter_ok(starters@[j]),
            starters_view(updated@) == updated_starters(
                starters@.take(i as int),
                replace_with@,
                mrep,
            ),
        decreases starters@.len() - i,
    {
        let st = &starters[i];
        proof {
            assert(starters@.take(i as int + 1).drop_last() =~= starters@.take(i as int));
            assert(starters@.take(i as int + 1).last() == starters@[i as int]);
        }
        let new_manifest = match replace_loco_rs_version(st.manifest.as_str(), replace_with) {
            Some(s) => s,
            None => {
                proof {
                    lemma_first_bad_at(starters@, i as int);
                }
                return Err(CiError::BumpVersion { path: st.path.clone() });
            },
        };
        let new_migration = match &st.migration_manifest {
            Some(m) => match replace_loco_rs_version(m.as_str(), mig_rep) {
                Some(s) => Some(s),
                None => {
                    proof {
                        lemma_first_bad_at(starters@, i as int);
                    }
                    return Err(CiError::BumpVersion { path: st.path.clone() });
                },
            },
            None => None,
        };
        updated.push(
            StarterProject {
                path: st.path.clone(),
                manifest: new_manifest,
                migration_manifest: new_migration,
            },
        );
        proof {
            assert(starters_view(updated@) =~= updated_starters(
                starters@.take(i as int + 1),
                replace_with@,
                mrep,
            ));
        }
        i += 1;
    }
    proof {
        assert(starters@.take(starters@.len() as int) =~= starters@);
    }
    Ok(updated)
}

} // verus!
