//! Capability scopes of API tokens.

use vstd::prelude::*;

verus! {

/// Bit of the capability that may change a package's owners.
pub const CHANGE_OWNERS_BITS: u32 = 0b0001;

/// Bit of the capability that may publish a brand-new package.
pub const PUBLISH_NEW_BITS: u32 = 0b0010;

/// Bit of the capability that may publish a new version of an existing package.
pub const PUBLISH_UPDATE_BITS: u32 = 0b0100;

/// Bit of the capability that may yank or un-yank a version.
pub const YANK_BITS: u32 = 0b1000;

/// Union of the two publish capabilities.
pub const PUBLISH_BITS: u32 = 0b0110;

/// All bits that a scope may carry.
pub const ALL_SCOPE_BITS: u32 = 0b1111;

/// The capability set attached to a token.
///
/// Stored as a single bit field so that it fits one database column.
#[derive(Clone, Copy, Debug, PartialEq, Eq, Structural)]
pub struct Scope {
    pub bits: u32,
}

impl Scope {
    /// A scope holds only known capability bits.
    pub open spec fn valid(self) -> bool {
        self.bits & ALL_SCOPE_BITS == self.bits
    }

    /// The scope that may change owners.
    pub fn change_owners() -> (s: Scope)
        ensures
            s.bits == CHANGE_OWNERS_BITS,
    {
        Scope { bits: CHANGE_OWNERS_BITS }
    }

    /// The scope that may publish a new package.
    pub fn publish_new() -> (s: Scope)
        ensures
            s.bits == PUBLISH_NEW_BITS,
    {
        Scope { bits: PUBLISH_NEW_BITS }
    }

    /// The scope that may publish an update of an existing package.
    pub fn publish_update() -> (s: Scope)
        ensures
            s.bits == PUBLISH_UPDATE_BITS,
    {
        Scope { bits: PUBLISH_UPDATE_BITS }
    }

    /// The scope that may yank and un-yank versions.
    pub fn yank() -> (s: Scope)
        ensures
            s.bits == YANK_BITS,
    {
        Scope { bits: YANK_BITS }
    }

    /// The union of the publish-new and publish-update scopes.
    pub fn publish() -> (s: Scope)
        ensures
            s.bits == PUBLISH_BITS,
    {
        Scope { bits: PUBLISH_BITS }
    }

    /// Builds a scope from raw bits; `None` if any unknown bit is set.
    pub fn from_bits(bits: u32) -> (r: Option<Scope>)
        ensures
            r is Some <==> bits & ALL_SCOPE_BITS == bits,
            r is Some ==> r->0.bits == bits,
    {
        if bits & ALL_SCOPE_BITS == bits {
            Some(Scope { bits })
        } else {
            None
        }
    }

    /// The raw bit field.
    pub fn bits(&self) -> (r: u32)
        ensures
            r == self.bits,
    {
        self.bits
    }

    /// Whether the two scopes share at least one capability.
    pub fn intersects(&self, other: Scope) -> (r: bool)
        ensures
            r == ((self.bits & other.bits) != 0),
    {
        self.bits & other.bits != 0
    }

    /// Whether this scope grants every capability of `other`.
    pub fn contains(&self, other: Scope) -> (r: bool)
        ensures
            r == ((self.bits & other.bits) == other.bits),
    {
        self.bits & other.bits == other.bits
    }

    /// The human-readable name of this scope, as shown in error
    /// messages.
    pub fn label(&self) -> (r: String)
        ensures
            r@ == if self.bits == CHANGE_OWNERS_BITS {
                "change-owners"@
            } else if self.bits == PUBLISH_BITS {
                "publish-(new|update)"@
            } else if self.bits == PUBLISH_NEW_BITS {
                "publish-new"@
            } else if self.bits == PUBLISH_UPDATE_BITS {
                "publish-update"@
            } else if self.bits == YANK_BITS {
                "yank"@
            } else {
                "unknown"@
            },
    {
        let s: &str = if self.bits == CHANGE_OWNERS_BITS {
            "change-owners"
        } else if self.bits == PUBLISH_BITS {
            "publish-(new|update)"
        } else if self.bits == PUBLISH_NEW_BITS {
            "publish-new"
        } else if self.bits == PUBLISH_UPDATE_BITS {
            "publish-update"
        } else if self.bits == YANK_BITS {
            "yank"
        } else {
            "unknown"
        };
        s.to_owned()
    }
}

/// An already-authenticated caller: the token's user and its capability set.
///
/// Token lookup and verification happen outside the core; the core only
/// consumes this resolved pair.
#[derive(Clone, Copy, Debug)]
pub struct Token {
    pub user_id: i64,
    pub scope: Scope,
}

} // verus!
