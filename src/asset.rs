//! Kinds of assets that a tokenization contract can issue.
use vstd::prelude::*;

verus! {

/// The class of asset a token stands for.
#[derive(Clone, Copy, Debug, PartialEq, Eq, Structural)]
pub enum AssetType {
    RealWorldAsset,
    IntellectualProperty,
    BondOrSecurity,
}

} // verus!
