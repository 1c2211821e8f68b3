//! One surface's opacity, applied by the compositor: when its handle may
//! still speak.

use vstd::prelude::*;

verus! {

/// The multiplier of an opaque surface.
pub const OPAQUE: u32 = 0xffff_ffff;

/// A handle on the opacity of a surface. It is bound to the surface it was
/// made for; a window that comes back has another.
#[derive(Debug, Clone, Copy, PartialEq, Eq, Structural)]
pub struct SurfaceAlpha {
    /// The surface it is bound to.
    pub surface: u64,
    /// That surface was taken down.
    pub dead: bool,
    /// The multiplier in effect.
    pub last: u32,
}

impl SurfaceAlpha {
    /// Whether the surface is still the window's own.
    pub open spec fn valid(self, current: Option<u64>) -> bool {
        !self.dead && current == Some(self.surface)
    }

    /// Whether a multiplier is sent: by a handle that is valid, where it
    /// changes anything.
    pub open spec fn sends(self, current: Option<u64>, v: u32) -> bool {
        self.valid(current) && v != self.last
    }

    /// A handle on an opaque surface.
    pub fn attach(surface: u64) -> (r: SurfaceAlpha)
        ensures
            r == (SurfaceAlpha { surface, dead: false, last: OPAQUE }),
    {
        SurfaceAlpha { surface, dead: false, last: OPAQUE }
    }

    /// The window took its surface down. The handle stays silent for good.
    pub fn unrealized(&mut self)
        ensures
            *final(self) == (SurfaceAlpha { dead: true, ..*old(self) }),
    {
        self.dead = true;
    }

    /// Whether the surface is still the window's own, given the one the window
    /// has now.
    pub fn is_valid(&self, current: Option<u64>) -> (r: bool)
        ensures
            r == self.valid(current),
    {
        match current {
            Some(c) => !self.dead && c == self.surface,
            None => false,
        }
    }

    /// Takes a multiplier: whether it is sent. It is left pending, for the
    /// window's next commit.
    pub fn set_pending(&mut self, current: Option<u64>, v: u32) -> (r: bool)
        ensures
            r == old(self).sends(current, v),
            *final(self) == if r {
                SurfaceAlpha { last: v, ..*old(self) }
            } else {
                *old(self)
            },
    {
        if !self.is_valid(current) || v == self.last {
            return false;
        }
        self.last = v;
        true
    }
}

/// Once its surface was taken down a handle sends nothing, whatever the window
/// shows later.
pub proof fn law_a_dead_handle_stays_silent(a: SurfaceAlpha, current: Option<u64>, v: u32)
    requires
        a.dead,
    ensures
        !a.valid(current),
        !a.sends(current, v),
{
}

/// A handle speaks exactly while its surface was not taken down and is the
/// window's own, and only where it has something new to say.
pub proof fn law_a_handle_speaks_for_its_own_surface(
    a: SurfaceAlpha,
    current: Option<u64>,
    v: u32,
)
    ensures
        a.valid(current) <==> !a.dead && current is Some && current->0 == a.surface,
        a.sends(current, v) <==> !a.dead && current is Some && current->0 == a.surface && v
            != a.last,
        OPAQUE == u32::MAX,
{
}

} // verus!
