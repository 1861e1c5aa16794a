use vstd::prelude::*;

use crate::mem_vars::MemVars;

verus! {

/// A one-byte write into game memory that the caller performs.
#[derive(Clone, Copy, Debug, PartialEq, Eq)]
pub struct ByteWrite {
    pub address: usize,
    pub value: u8,
}

/// The game's jump command value that makes the player jump.
pub open spec fn jump_pressed() -> u8 {
    5
}

/// The game's jump command value that releases the jump.
pub open spec fn jump_released() -> u8 {
    4
}

/// Reacts to the player touching or leaving the ground.
pub trait OnGroundHandler {
    /// The player landed; the write to perform, if any.
    fn on_ground_land(&self) -> Option<ByteWrite>;

    /// The player left the ground; the write to perform, if any.
    fn on_ground_leave(&self) -> Option<ByteWrite>;
}

/// Automatic jumping: while active, every landing triggers a jump.
pub struct Bunnyhop {
    is_active: bool,
    mem_vars: MemVars,
}

impl Bunnyhop {
    /// Whether automatic jumping is on.
    pub closed spec fn active(&self) -> bool {
        self.is_active
    }

    /// The memory variables the feature writes to.
    pub closed spec fn vars(&self) -> MemVars {
        self.mem_vars
    }

    /// A new, inactive bunnyhop over the given memory variables.
    pub fn new(mem_vars: &MemVars) -> (res: Self)
        ensures
            !res.active(),
            res.vars() == *mem_vars,
    {
        Self { is_active: false, mem_vars: *mem_vars }
    }

    /// Whether automatic jumping is on.
    pub fn is_active(&self) -> (b: bool)
        ensures
            b == self.active(),
    {
        self.is_active
    }

    /// Turns automatic jumping on or off. `on_ground` is the game's current
    /// on-ground counter. Jumps are only triggered by landing, so switching
    /// on while standing fakes the first jump; switching off releases the
    /// jump so that a held jump key does not keep hopping.
    pub fn set_active(&mut self, is_active: bool, on_ground: u8) -> (write: Option<ByteWrite>)
        ensures
            final(self).active() == is_active,
            final(self).vars() == old(self).vars(),
            write == if is_active {
                if on_ground != 0 {
                    Some(ByteWrite { address: old(self).vars().do_jump, value: jump_pressed() })
                } else {
                    None
                }
            } else {
                Some(ByteWrite { address: old(self).vars().do_jump, value: jump_released() })
            },
    {
        self.is_active = is_active;
        if is_active {
            if Self::is_on_ground(on_ground) {
                Some(ByteWrite { address: self.mem_vars.do_jump, value: 5 })
            } else {
                None
            }
        } else {
            Some(ByteWrite { address: self.mem_vars.do_jump, value: 4 })
        }
    }

    /// The player stands on the ground when the on-ground counter is not 0.
    pub fn is_on_ground(on_ground: u8) -> (b: bool)
        ensures
            b == (on_ground != 0),
    {
        let in_air = on_ground == 0;
        !in_air
    }
}

impl OnGroundHandler for Bunnyhop {
    fn on_ground_land(&self) -> (write: Option<ByteWrite>)
        ensures
            write == if self.active() {
                Some(ByteWrite { address: self.vars().do_jump, value: jump_pressed() })
            } else {
                None
            },
    {
        if self.is_active {
            Some(ByteWrite { address: self.mem_vars.do_jump, value: 5 })
        } else {
            None
        }
    }

    fn on_ground_leave(&self) -> (write: Option<ByteWrite>)
        ensures
            write == if self.active() {
                Some(ByteWrite { address: self.vars().do_jump, value: jump_released() })
            } else {
                None
            },
    {
        if self.is_active {
            Some(ByteWrite { address: self.mem_vars.do_jump, value: 4 })
        } else {
            None
        }
    }
}

} // verus!
