//! What a binary was built from.

use crate::order::{sorted_list_is_determined, strictly_sorted, TextSet};
use crate::text::{
    joined, joined_list_splits_back, pieces_hold_no_separator, same, split, split_at_char, texts, trim,
    trimmed, trimming_is_idempotent,
};
use vstd::prelude::*;

verus! {

/// The package, version, target and features of a binary.
#[derive(Debug, PartialEq, Eq)]
pub struct BuildIdentity {
    pub name: String,
    pub version: String,
    pub target: String,
    pub features: TextSet,
}

/// An identity with its texts as characters and its features in ascending order.
#[verifier::ext_equal]
pub struct IdentityView {
    pub name: Seq<char>,
    pub version: Seq<char>,
    pub target: Seq<char>,
    pub features: Seq<Seq<char>>,
}

impl View for BuildIdentity {
    type V = IdentityView;

    open spec fn view(&self) -> IdentityView {
        IdentityView {
            name: self.name@,
            version: self.version@,
            target: self.target@,
            features: self.features@,
        }
    }
}

/// Whether a piece of a feature list names a feature other than the default one.
pub open spec fn names_feature(piece: Seq<char>) -> bool {
    trimmed(piece).len() > 0 && trimmed(piece) != "default"@
}

/// The features that a list separated by commas names.
pub open spec fn listed_features(raw: Seq<char>) -> Set<Seq<char>> {
    Set::new(
        |feature: Seq<char>|
            exists|i: int|
                0 <= i < split(raw, ',').len() && names_feature(#[trigger] split(raw, ',')[i])
                    && trimmed(split(raw, ',')[i]) == feature,
    )
}

/// Features in words.
pub open spec fn feature_words(features: Seq<Seq<char>>) -> Seq<char> {
    if features.len() == 0 {
        "none"@
    } else {
        joined(features, ","@)
    }
}

/// The features that a list separated by commas names, without the default one.
pub fn parse_features(raw: &str) -> (features: TextSet)
    ensures
        strictly_sorted(features@),
        features@.to_set() == listed_features(raw@),
{
    let pieces = split_at_char(raw, ',');
    let mut features = TextSet::new();
    let ghost parts = split(raw@, ',');
    let mut i: usize = 0;
    let ghost mut found: Set<Seq<char>> = Set::empty();
    proof {
        assert(features@.to_set() =~= found);
    }
    while i < pieces.len()
        invariant
            i <= pieces@.len(),
            parts == split(raw@, ','),
            texts(pieces@) == parts,
            features@.to_set() == found,
            strictly_sorted(features@),
            forall|f: Seq<char>| #[trigger]
                found.contains(f) <==> exists|k: int|
                    0 <= k < i && names_feature(#[trigger] parts[k]) && trimmed(parts[k]) == f,
        decreases pieces@.len() - i,
    {
        let feature = trim(pieces[i].as_str());
        let ghost piece = parts[i as int];
        assert(piece == pieces@[i as int]@);
        let ghost before_found = found;
        if feature.as_str().unicode_len() > 0 && !same(feature.as_str(), "default") {
            proof {
                found = found.insert(feature@);
            }
            features.insert(feature);
        }
        assert forall|f: Seq<char>| #[trigger] found.contains(f) <==> exists|k: int|
            0 <= k < i + 1 && names_feature(#[trigger] parts[k]) && trimmed(parts[k]) == f by {
            if found.contains(f) && !before_found.contains(f) {
                assert(names_feature(parts[i as int]) && trimmed(parts[i as int]) == f);
            } else if before_found.contains(f) {
                let k = choose|k: int|
                    0 <= k < i && names_feature(#[trigger] parts[k]) && trimmed(parts[k]) == f;
                assert(names_feature(parts[k]));
            }
        }
        i += 1;
    }
    assert(found =~= listed_features(raw@));
    features
}

impl BuildIdentity {
    /// The identity of a binary of this package, from what the build recorded.
    pub fn embedded(version: &str, target: &str, features: &str) -> (identity: BuildIdentity)
        ensures
            identity.name@ == "obsidian-mcp"@,
            identity.version@ == version@,
            identity.target@ == target@,
            strictly_sorted(identity.features@),
            identity.features@.to_set() == listed_features(features@),
    {
        BuildIdentity {
            name: "obsidian-mcp".to_owned(),
            version: version.to_owned(),
            target: target.to_owned(),
            features: parse_features(features),
        }
    }

    /// The features in words.
    pub fn feature_list(&self) -> (list: String)
        ensures
            list@ == feature_words(self@.features),
    {
        if self.features.items().len() == 0 {
            "none".to_owned()
        } else {
            self.features.joined_by(",")
        }
    }

    /// Whether two identities agree in everything.
    pub fn same_identity(&self, other: &BuildIdentity) -> (equal: bool)
        ensures
            equal == (self@ == other@),
    {
        same(self.name.as_str(), other.name.as_str()) && same(
            self.version.as_str(),
            other.version.as_str(),
        ) && same(self.target.as_str(), other.target.as_str()) && self.features.same_set(
            &other.features,
        )
    }

    /// A copy of the identity.
    pub fn copied(&self) -> (identity: BuildIdentity)
        ensures
            identity@ == self@,
    {
        BuildIdentity {
            name: self.name.clone(),
            version: self.version.clone(),
            target: self.target.clone(),
            features: self.features.copied(),
        }
    }
}

/// Whatever the order and repetition in a list of features, the identity holds
/// the same features in the same order.
pub proof fn features_do_not_depend_on_order(left: TextSet, right: TextSet, a: Seq<char>, b: Seq<char>)
    requires
        strictly_sorted(left@),
        strictly_sorted(right@),
        left@.to_set() == listed_features(a),
        right@.to_set() == listed_features(b),
        listed_features(a) == listed_features(b),
    ensures
        left@ == right@,
        feature_words(left@) == feature_words(right@),
{
    sorted_list_is_determined(left@, right@);
}

/// Parsing the words for the features of an identity gives the features back, as
/// long as there are any.
pub proof fn rendered_features_parse_back(
    raw: Seq<char>,
    features: Seq<Seq<char>>,
    again: Seq<Seq<char>>,
)
    requires
        strictly_sorted(features),
        features.to_set() == listed_features(raw),
        features.len() > 0,
        strictly_sorted(again),
        again.to_set() == listed_features(feature_words(features)),
    ensures
        again == features,
{
    let pieces = split(raw, ',');
    pieces_hold_no_separator(raw, ',', 0);
    assert forall|i: int| 0 <= i < features.len() implies !(#[trigger] features[i]).contains(',')
        && trimmed(features[i]) == features[i] && names_feature(features[i]) by {
        assert(features.contains(features[i]));
        assert(features.to_set().contains(features[i]));
        assert(listed_features(raw).contains(features[i]));
        let k = choose|k: int|
            0 <= k < pieces.len() && names_feature(#[trigger] pieces[k]) && trimmed(pieces[k])
                == features[i];
        trimming_is_idempotent(pieces[k]);
        assert(!pieces[k].contains(','));
    }
    reveal_strlit(",");
    assert(","@ =~= seq![',']);
    joined_list_splits_back(features, ',');
    let words = feature_words(features);
    assert(split(words, ',') == features);
    assert forall|feature: Seq<char>| #[trigger] listed_features(words).contains(feature)
        <==> features.to_set().contains(feature) by {
        if features.to_set().contains(feature) {
            assert(features.contains(feature));
            let i = choose|i: int| 0 <= i < features.len() && features[i] == feature;
            assert(names_feature(split(words, ',')[i]));
        }
        if listed_features(words).contains(feature) {
            let i = choose|i: int|
                0 <= i < features.len() && names_feature(#[trigger] features[i]) && trimmed(features[i])
                    == feature;
            assert(features[i] == feature);
            assert(features.contains(feature));
        }
    }
    assert(listed_features(words) =~= features.to_set());
    sorted_list_is_determined(again, features);
}

/// The features of a list are its pieces without surrounding white space; blank pieces
/// and `default` are none.
pub proof fn blank_pieces_and_default_are_no_features(raw: Seq<char>, feature: Seq<char>, i: int)
    ensures
        listed_features(raw).contains(feature) ==> feature.len() > 0 && feature != "default"@
            && trimmed(feature) == feature,
        0 <= i < split(raw, ',').len() && trimmed(split(raw, ',')[i]).len() > 0 && trimmed(
            split(raw, ',')[i],
        ) != "default"@ ==> listed_features(raw).contains(trimmed(split(raw, ',')[i])),
{
    if listed_features(raw).contains(feature) {
        let k = choose|k: int|
            0 <= k < split(raw, ',').len() && names_feature(#[trigger] split(raw, ',')[k]) && trimmed(
                split(raw, ',')[k],
            ) == feature;
        trimming_is_idempotent(split(raw, ',')[k]);
    }
    if 0 <= i < split(raw, ',').len() && trimmed(split(raw, ',')[i]).len() > 0 && trimmed(
        split(raw, ',')[i],
    ) != "default"@ {
        assert(names_feature(split(raw, ',')[i]));
    }
}

} // verus!
