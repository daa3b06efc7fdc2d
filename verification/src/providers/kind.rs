//! Which provider is which.
use vstd::prelude::*;

verus! {

/// A provider behind the gateway.
#[derive(Debug, Clone, Copy, PartialEq, Eq, Structural)]
pub enum ProviderKind {
    Qoder,
    Raccoon,
    Trae,
    WorkBuddy,
    /// ZCode of the Chinese mainland.
    Zcode,
    /// ZCode of everywhere else.
    ZcodeIntl,
}

} // verus!
