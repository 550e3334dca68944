//! Semantic versions.

use crate::text::opt_text;
use vstd::prelude::*;

verus! {

/// How one version stands to another.
#[derive(Debug, Clone, Copy, PartialEq, Eq, Structural)]
pub enum VersionOrder {
    Older,
    Same,
    Newer,
}

/// What `semver::Version::parse` finds wrong with a text; nothing where the text
/// is a semantic version.
pub uninterp spec fn version_fault(text: Seq<char>) -> Option<Seq<char>>;

/// The sign of comparing the versions that two texts denote: negative where the
/// left one is older, positive where it is newer.
pub uninterp spec fn version_sign(left: Seq<char>, right: Seq<char>) -> int;

/// The order that a sign stands for.
pub open spec fn order_of_sign(sign: int) -> VersionOrder {
    if sign < 0 {
        VersionOrder::Older
    } else if sign > 0 {
        VersionOrder::Newer
    } else {
        VersionOrder::Same
    }
}

/// `semver::Version::parse`: the message of its error, or nothing where it
/// accepts the text. Which texts it accepts is not said here.
#[verifier::external_body]
pub(crate) fn check_version(text: &str) -> (fault: Option<String>)
    ensures
        opt_text(fault) == version_fault(text@),
{
    match semver::Version::parse(text) {
        Ok(_) => None,
        Err(error) => Some(error.to_string()),
    }
}

/// `Ord::cmp` of `semver::Version` on the versions that two texts denote. A
/// version is the same as itself; the order of different ones is not said here.
#[verifier::external_body]
pub(crate) fn compare_versions(left: &str, right: &str) -> (order: VersionOrder)
    requires
        version_fault(left@) is None,
        version_fault(right@) is None,
    ensures
        order == order_of_sign(version_sign(left@, right@)),
        left@ == right@ ==> order == VersionOrder::Same,
{
    match (semver::Version::parse(left), semver::Version::parse(right)) {
        (Ok(left), Ok(right)) => match left.cmp(&right) {
            std::cmp::Ordering::Less => VersionOrder::Older,
            std::cmp::Ordering::Equal => VersionOrder::Same,
            std::cmp::Ordering::Greater => VersionOrder::Newer,
        },
        _ => VersionOrder::Same,
    }
}

} // verus!
