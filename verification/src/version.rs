//! Semantic versions.

use vstd::prelude::*;

verus! {

/// The semantic version that the text stands for, written out, if it stands
/// for one.
pub uninterp spec fn parsed_version(text: Seq<char>) -> Option<Seq<char>>;

/// Whether the first version is the older one, where both texts are versions.
pub uninterp spec fn version_precedes(a: Seq<char>, b: Seq<char>) -> Option<bool>;

/// `semver::Version::parse`, its result written out: a function of the text,
/// `None` where it reports an error.
#[verifier::external_body]
pub(crate) fn parse_version(text: &str) -> (r: Option<String>)
    ensures
        match r {
            Some(version) => parsed_version(text@) == Some(version@),
            None => parsed_version(text@) is None,
        },
{
    Some(semver::Version::parse(text).ok()?.to_string())
}

/// `<` on two results of `semver::Version::parse`: a function of the two
/// texts, there exactly where both are versions.
#[verifier::external_body]
pub(crate) fn older_version(a: &str, b: &str) -> (r: Option<bool>)
    ensures
        r == version_precedes(a@, b@),
        r is Some == (parsed_version(a@) is Some && parsed_version(b@) is Some),
{
    Some(semver::Version::parse(a).ok()? < semver::Version::parse(b).ok()?)
}

} // verus!
