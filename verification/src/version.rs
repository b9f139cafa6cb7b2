//! Protocol versions and the rule by which a proposal is matched against the
//! versions this chain supports.

use vstd::prelude::*;

verus! {

/// A protocol version as a mathematical value.
pub struct ProtocolVersionView {
    pub identifier: Seq<char>,
    pub features: Seq<Seq<char>>,
}

/// A version identifier together with the features it offers, in order of
/// preference.
#[derive(Debug, PartialEq, Eq)]
pub struct ProtocolVersion {
    pub identifier: String,
    pub features: Vec<String>,
}

impl View for ProtocolVersion {
    type V = ProtocolVersionView;

    open spec fn view(&self) -> ProtocolVersionView {
        ProtocolVersionView {
            identifier: self.identifier@,
            features: self.features.deep_view(),
        }
    }
}

impl DeepView for ProtocolVersion {
    type V = ProtocolVersionView;

    open spec fn deep_view(&self) -> ProtocolVersionView {
        self@
    }
}

/// The two feature lists have a feature in common.
pub open spec fn features_intersect(a: Seq<Seq<char>>, b: Seq<Seq<char>>) -> bool {
    exists|f: Seq<char>| a.contains(f) && b.contains(f)
}

/// Two versions are compatible when they carry the same identifier and share
/// at least one feature.
pub open spec fn compatible(a: ProtocolVersionView, b: ProtocolVersionView) -> bool {
    a.identifier == b.identifier && features_intersect(a.features, b.features)
}

/// `v` is compatible with some entry of `supported`.
pub open spec fn supported_by(v: ProtocolVersionView, supported: Seq<ProtocolVersionView>) -> bool {
    exists|k: int| 0 <= k < supported.len() && compatible(v, #[trigger] supported[k])
}

/// Some entry of `candidates` is compatible with some entry of `supported`.
pub open spec fn any_supported(
    candidates: Seq<ProtocolVersionView>,
    supported: Seq<ProtocolVersionView>,
) -> bool {
    exists|i: int| 0 <= i < candidates.len() && supported_by(#[trigger] candidates[i], supported)
}

/// The versions this chain speaks: identifier `1`, ordered and unordered
/// channels.
pub open spec fn supported_set() -> Seq<ProtocolVersionView> {
    seq![
        ProtocolVersionView {
            identifier: "1"@,
            features: seq!["ORDER_ORDERED"@, "ORDER_UNORDERED"@],
        },
    ]
}

/// Copies a list of strings.
pub fn clone_strings(items: &Vec<String>) -> (copy: Vec<String>)
    ensures
        copy.deep_view() == items.deep_view(),
{
    let mut copy: Vec<String> = Vec::new();
    let mut i: usize = 0;
    while i < items.len()
        invariant
            i <= items.len(),
            copy.len() == i,
            forall|k: int| 0 <= k < i ==> copy@[k]@ == items@[k]@,
        decreases items.len() - i,
    {
        copy.push(items[i].clone());
        i += 1;
    }
    assert(copy.deep_view() =~= items.deep_view());
    copy
}

impl Clone for ProtocolVersion {
    fn clone(&self) -> (copy: Self)
        ensures
            copy@ == self@,
    {
        ProtocolVersion {
            identifier: self.identifier.clone(),
            features: clone_strings(&self.features),
        }
    }
}

impl ProtocolVersion {
    /// A version with the given identifier and features.
    pub fn new(identifier: String, features: Vec<String>) -> (v: Self)
        ensures
            v@.identifier == identifier@,
            v@.features == features.deep_view(),
    {
        ProtocolVersion { identifier, features }
    }

    /// Whether `feature` is among this version's features.
    pub fn has_feature(&self, feature: &String) -> (r: bool)
        ensures
            r == self@.features.contains(feature@),
    {
        let mut i: usize = 0;
        while i < self.features.len()
            invariant
                i <= self.features.len(),
                forall|k: int| 0 <= k < i ==> self@.features[k] != feature@,
            decreases self.features.len() - i,
        {
            if self.features[i] == *feature {
                assert(self@.features[i as int] == feature@);
                return true;
            }
            i += 1;
        }
        false
    }

    /// Whether the two versions carry the same identifier and share a feature.
    pub fn is_compatible_with(&self, other: &ProtocolVersion) -> (r: bool)
        ensures
            r == compatible(self@, other@),
    {
        if !(self.identifier == other.identifier) {
            return false;
        }
        let mut i: usize = 0;
        while i < self.features.len()
            invariant
                i <= self.features.len(),
                self@.identifier == other@.identifier,
                forall|k: int| 0 <= k < i ==> !other@.features.contains(#[trigger] self@.features[k]),
            decreases self.features.len() - i,
        {
            if other.has_feature(&self.features[i]) {
                proof {
                    let f = self@.features[i as int];
                    assert(f == self.features@[i as int]@);
                    assert(self@.features.contains(f) && other@.features.contains(f));
                }
                return true;
            }
            i += 1;
        }
        false
    }

    /// Whether this version is compatible with some entry of `supported`.
    pub fn is_supported_by(&self, supported: &Vec<ProtocolVersion>) -> (r: bool)
        ensures
            r == supported_by(self@, supported.deep_view()),
    {
        let mut k: usize = 0;
        while k < supported.len()
            invariant
                k <= supported.len(),
                forall|j: int| 0 <= j < k ==> !compatible(self@, #[trigger] supported.deep_view()[j]),
            decreases supported.len() - k,
        {
            if self.is_compatible_with(&supported[k]) {
                assert(compatible(self@, supported.deep_view()[k as int]));
                return true;
            }
            k += 1;
        }
        false
    }
}

/// Copies a list of versions.
pub fn clone_versions(items: &Vec<ProtocolVersion>) -> (copy: Vec<ProtocolVersion>)
    ensures
        copy.deep_view() == items.deep_view(),
{
    let mut copy: Vec<ProtocolVersion> = Vec::new();
    let mut i: usize = 0;
    while i < items.len()
        invariant
            i <= items.len(),
            copy.len() == i,
            forall|k: int| 0 <= k < i ==> copy@[k]@ == items@[k]@,
        decreases items.len() - i,
    {
        copy.push(items[i].clone());
        i += 1;
    }
    assert(copy.deep_view() =~= items.deep_view());
    copy
}

/// Calls `ibc::core::connection::types::version::Version::compatibles` and
/// hands out each entry's identifier and features. Assumed: the list has the
/// single entry `1` with the features `ORDER_ORDERED` and `ORDER_UNORDERED`,
/// in that order.
#[verifier::external_body]
fn ibc_compatible_versions() -> (versions: Vec<ProtocolVersion>)
    ensures
        versions.deep_view() == supported_set(),
{
    ibc::core::connection::types::version::Version::compatibles()
        .into_iter()
        .map(ibc::core::connection::types::proto::v1::Version::from)
        .map(|raw| ProtocolVersion { identifier: raw.identifier, features: raw.features })
        .collect()
}

/// The versions this chain supports.
pub fn supported_versions() -> (versions: Vec<ProtocolVersion>)
    ensures
        versions.deep_view() == supported_set(),
{
    ibc_compatible_versions()
}

} // verus!
