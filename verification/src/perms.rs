//! Per-account capability bitset: independent boolean capabilities, with
//! `admin` implying every other capability.

use vstd::prelude::*;

verus! {

/// Permission bitset for one account. Bit 0 grants administration, bit 1
/// grants use of the short-link subsystem.
#[derive(Clone, Copy, Debug)]
pub struct UserPermissions {
    pub inner: u64,
}

impl UserPermissions {
    /// Whether the admin bit is set.
    pub open spec fn spec_admin(self) -> bool {
        self.inner & 1u64 != 0
    }

    /// Whether the short-link bit is set (admin aside).
    pub open spec fn spec_short(self) -> bool {
        self.inner & 2u64 != 0
    }

    /// The bitset with exactly the given capabilities.
    pub open spec fn spec_from_flags(admin: bool, short: bool) -> UserPermissions {
        UserPermissions {
            inner: (if admin { 1u64 } else { 0u64 }) | (if short { 2u64 } else { 0u64 }),
        }
    }

    /// Builds the bitset holding exactly the given capabilities.
    pub fn from_flags(admin: bool, short: bool) -> (r: UserPermissions)
        ensures
            r == Self::spec_from_flags(admin, short),
            r.spec_admin() == admin,
            r.spec_short() == short,
    {
        let a: u64 = if admin { 1 } else { 0 };
        let s: u64 = if short { 2 } else { 0 };
        let r = UserPermissions { inner: a | s };
        proof {
            assert((0u64 | 0u64) & 1u64 == 0 && (0u64 | 0u64) & 2u64 == 0) by (bit_vector);
            assert((1u64 | 0u64) & 1u64 != 0 && (1u64 | 0u64) & 2u64 == 0) by (bit_vector);
            assert((0u64 | 2u64) & 1u64 == 0 && (0u64 | 2u64) & 2u64 != 0) by (bit_vector);
            assert((1u64 | 2u64) & 1u64 != 0 && (1u64 | 2u64) & 2u64 != 0) by (bit_vector);
        }
        r
    }

    /// Grants or revokes the admin capability, leaving the others alone.
    pub fn admin(&mut self, set: bool)
        ensures
            final(self).spec_admin() == set,
            final(self).spec_short() == old(self).spec_short(),
    {
        let ghost x: u64 = self.inner;
        if set {
            self.inner = self.inner | 1u64;
            proof {
                assert((x | 1u64) & 1u64 != 0 && (x | 1u64) & 2u64 == x & 2u64) by (bit_vector);
            }
        } else {
            self.inner = self.inner & !1u64;
            proof {
                assert((x & !1u64) & 1u64 == 0 && (x & !1u64) & 2u64 == x & 2u64)
                    by (bit_vector);
            }
        }
    }

    /// Whether this account administrates the site.
    pub fn is_admin(&self) -> (r: bool)
        ensures
            r == self.spec_admin(),
    {
        self.inner & 1u64 != 0
    }

    /// Grants or revokes the short-link capability, leaving the others alone.
    pub fn short(&mut self, set: bool)
        ensures
            final(self).spec_short() == set,
            final(self).spec_admin() == old(self).spec_admin(),
    {
        let ghost x: u64 = self.inner;
        if set {
            self.inner = self.inner | 2u64;
            proof {
                assert((x | 2u64) & 2u64 != 0 && (x | 2u64) & 1u64 == x & 1u64) by (bit_vector);
            }
        } else {
            self.inner = self.inner & !2u64;
            proof {
                assert((x & !2u64) & 2u64 == 0 && (x & !2u64) & 1u64 == x & 1u64)
                    by (bit_vector);
            }
        }
    }

    /// Whether this account may use the short-link subsystem: granted by the
    /// short bit or implied by admin.
    pub fn is_short(&self) -> (r: bool)
        ensures
            r == (self.spec_admin() || self.spec_short()),
    {
        self.is_admin() || self.inner & 2u64 != 0
    }
}

impl Default for UserPermissions {
    /// The empty bitset: no capabilities.
    fn default() -> (r: Self)
        ensures
            r.inner == 0,
            !r.spec_admin(),
            !r.spec_short(),
    {
        proof {
            assert(0u64 & 1u64 == 0 && 0u64 & 2u64 == 0) by (bit_vector);
        }
        UserPermissions { inner: 0 }
    }
}

} // verus!
