//! Bow files of every supported version, and their conversion to the latest
//! model.
use vstd::prelude::*;
use vstd::string::*;
use crate::errors::ModelError;
use crate::legacy_symmetric;
use crate::model::{BowModel, BowModelView};
use crate::version4;

verus! {

/// A bow model as read from a file, by the version its file declares.
pub enum BowModelVersion {
    /// Version "0.11.0".
    Latest(BowModel),
    /// Version "0.10.0".
    Version4(version4::BowModel),
    /// The single-limb schema of VirtualBow 0.10, which also declares "0.10.0" but is
    /// recognized by its `dimensions` block.
    LegacySymmetric(legacy_symmetric::BowModel),
    /// A version too old to be read.
    Unsupported,
    /// A version that is not known. Files of format versions 1 to 3
    /// (VirtualBow 0.7, 0.8 and 0.9) come here too: their schemas are not
    /// part of this crate, so they cannot be migrated.
    Unrecognized,
}

/// The contents of a conversion result.
pub open spec fn result_view(r: Result<BowModel, ModelError>) -> Result<BowModelView, ModelError> {
    match r {
        Ok(m) => Ok(m@),
        Err(e) => Err(e),
    }
}

impl BowModelVersion {
    /// What converting to the latest model gives: a latest model as it is,
    /// an older one migrated, an error for an unsupported or unrecognized
    /// version.
    pub open spec fn latest_view(self) -> Result<BowModelView, ModelError> {
        match self {
            BowModelVersion::Latest(m) => Ok(m@),
            BowModelVersion::Version4(m) => Ok(version4::migrated_view(m)),
            BowModelVersion::LegacySymmetric(m) => Ok(legacy_symmetric::migrated_view(m)),
            BowModelVersion::Unsupported => Err(ModelError::InputVersionUnsupported),
            BowModelVersion::Unrecognized => Err(ModelError::InputVersionUnrecognized),
        }
    }

    pub fn is_latest(&self) -> (r: bool)
        ensures
            r == (*self is Latest),
    {
        match self {
            BowModelVersion::Latest(_) => true,
            _ => false,
        }
    }

    /// Converts the model to the latest version.
    pub fn get_latest(self) -> (r: Result<BowModel, ModelError>)
        ensures
            result_view(r) == self.latest_view(),
            self matches BowModelVersion::Latest(m) ==> r == Ok::<BowModel, ModelError>(m),
    {
        match self {
            BowModelVersion::Latest(m) => Ok(m),
            BowModelVersion::Version4(m) => Ok(BowModel::from_version4(m)),
            BowModelVersion::LegacySymmetric(m) => Ok(BowModel::from_legacy_symmetric(m)),
            BowModelVersion::Unsupported => Err(ModelError::InputVersionUnsupported),
            BowModelVersion::Unrecognized => Err(ModelError::InputVersionUnrecognized),
        }
    }
}

/// The version tag that the legacy single-limb schema shares with version 4.
pub open spec fn legacy_version_tag() -> Seq<char> {
    seq!['0', '.', '1', '0', '.', '0']
}

/// A file whose tagged parse failed is read in the legacy single-limb schema
/// exactly when its version is the string "0.10.0" and it has a `dimensions`
/// entry.
pub fn is_legacy_symmetric(version: Option<&str>, has_dimensions: bool) -> (r: bool)
    ensures
        r == (has_dimensions && (match version {
            Some(v) => v@ == legacy_version_tag(),
            None => false,
        })),
{
    if !has_dimensions {
        return false;
    }
    match version {
        None => false,
        Some(v) => {
            let tag = "0.10.0";
            proof {
                reveal_strlit("0.10.0");
                assert(tag@ =~= legacy_version_tag());
            }
            let n = v.unicode_len();
            if n != 6 {
                return false;
            }
            let mut i: usize = 0;
            while i < 6
                invariant
                    version == Some(v),
                    has_dimensions,
                    n == 6,
                    v@.len() == 6,
                    tag@ == legacy_version_tag(),
                    i <= 6,
                    forall|j: int| 0 <= j < i ==> v@[j] == legacy_version_tag()[j],
                decreases 6 - i,
            {
                if v.get_char(i) != tag.get_char(i) {
                    assert(v@[i as int] != legacy_version_tag()[i as int]);
                    return false;
                }
                i = i + 1;
            }
            assert(v@ =~= legacy_version_tag());
            true
        },
    }
}

} // verus!
