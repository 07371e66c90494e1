use vstd::prelude::*;
use vstd::string::*;

use crate::profiles::{profile_manifest_spec, verbatim_marker, ProfileKind};
use crate::text::{contains_spec, lemma_remove_all_no_occurrence, remove_all_spec};

verus! {

/// A canonical path with the verbatim marker in front gives the same
/// manifest as the path without it, for either kind of profile.
pub proof fn law_manifest_drops_verbatim_prefix(kind: ProfileKind, package_id: Seq<char>, path: Seq<char>)
    ensures
        profile_manifest_spec(kind, package_id, verbatim_marker() + path) == profile_manifest_spec(
            kind,
            package_id,
            path,
        ),
{
    reveal_strlit("\\\\?\\");
    let m = verbatim_marker();
    let s = m + path;
    assert(m.len() == 4);
    assert(s.take(4) =~= m);
    assert(s.skip(4) =~= path);
}

/// The manifest depends on the source path only through the path with the
/// verbatim markers taken out: two paths that agree once they are taken out
/// give the same manifest, for either kind of profile; and a path without
/// any marker appears in the manifest unchanged.
pub proof fn law_manifest_path_is_stripped(
    kind: ProfileKind,
    package_id: Seq<char>,
    p: Seq<char>,
    q: Seq<char>,
)
    ensures
        remove_all_spec(p, verbatim_marker()) == remove_all_spec(q, verbatim_marker()) ==> profile_manifest_spec(
            kind,
            package_id,
            p,
        ) == profile_manifest_spec(kind, package_id, q),
        !contains_spec(p, verbatim_marker()) ==> profile_manifest_spec(kind, package_id, p) == profile_manifest_spec(
            kind,
            package_id,
            remove_all_spec(p, verbatim_marker()),
        ) && remove_all_spec(p, verbatim_marker()) == p,
{
    if !contains_spec(p, verbatim_marker()) {
        lemma_remove_all_no_occurrence(p, verbatim_marker());
    }
}

} // verus!
