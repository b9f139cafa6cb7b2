//! The check that needs nothing but the message: version negotiation.

use vstd::prelude::*;
use crate::error::ValidationError;
use crate::msg::MsgConnectionOpenInit;
use crate::version::{
    any_supported, supported_by, supported_set, supported_versions, ProtocolVersion,
    ProtocolVersionView,
};

verus! {

/// What the stateless check says of a list of proposed versions: an empty
/// list is rejected as such, a list with no supported entry as unsupported.
pub open spec fn versions_outcome(
    candidates: Seq<ProtocolVersionView>,
    supported: Seq<ProtocolVersionView>,
) -> Result<(), ValidationError> {
    if candidates.len() == 0 {
        Err(ValidationError::EmptyVersionList)
    } else if any_supported(candidates, supported) {
        Ok(())
    } else {
        Err(ValidationError::UnsupportedVersion)
    }
}

/// Checks proposed versions against a supported set.
pub fn check_versions(candidates: &Vec<ProtocolVersion>, supported: &Vec<ProtocolVersion>) -> (r:
    Result<(), ValidationError>)
    ensures
        r == versions_outcome(candidates.deep_view(), supported.deep_view()),
        r is Ok <==> any_supported(candidates.deep_view(), supported.deep_view()),
{
    if candidates.len() == 0 {
        return Err(ValidationError::EmptyVersionList);
    }
    let mut i: usize = 0;
    while i < candidates.len()
        invariant
            i <= candidates.len(),
            forall|k: int|
                0 <= k < i ==> !supported_by(
                    #[trigger] candidates.deep_view()[k],
                    supported.deep_view(),
                ),
        decreases candidates.len() - i,
    {
        if candidates[i].is_supported_by(supported) {
            assert(supported_by(candidates.deep_view()[i as int], supported.deep_view()));
            return Ok(());
        }
        i += 1;
    }
    Err(ValidationError::UnsupportedVersion)
}

/// Checks the versions a message proposes against the versions this chain
/// supports.
pub fn version_is_supported(msg: &MsgConnectionOpenInit) -> (r: Result<(), ValidationError>)
    ensures
        r == versions_outcome(msg@.versions, supported_set()),
        r is Ok <==> any_supported(msg@.versions, supported_set()),
{
    let supported = supported_versions();
    check_versions(&msg.versions, &supported)
}

} // verus!
