//! Ids of local tasks.

use vstd::prelude::*;

verus! {

/// The id of a local task. Ids count from one: the task in the first slot has the id 1, and no
/// task has the id 0.
#[derive(Clone, Copy, Debug, PartialEq, Eq, Structural)]
pub struct LocalTaskId {
    value: u32,
}

/// Zero was given where an id is wanted.
#[derive(Clone, Copy, Debug, PartialEq, Eq, Structural)]
pub struct ZeroIdError;

impl View for LocalTaskId {
    type V = u32;

    closed spec fn view(&self) -> u32 {
        self.value
    }
}

impl LocalTaskId {
    #[verifier::type_invariant]
    spec fn not_zero(self) -> bool {
        self.value != 0
    }

    /// The id with this value.
    pub closed spec fn of(value: u32) -> LocalTaskId {
        LocalTaskId { value }
    }

    /// The position of the task's slot, which counts from zero.
    pub open spec fn slot(self) -> int {
        self@ - 1
    }

    /// The id as a number.
    pub fn get(&self) -> (value: u32)
        ensures
            value == self@,
            value != 0,
    {
        proof {
            use_type_invariant(self);
        }
        self.value
    }
}

impl TryFrom<u32> for LocalTaskId {
    type Error = ZeroIdError;

    fn try_from(value: u32) -> (id: Result<LocalTaskId, ZeroIdError>)
        ensures
            value == 0 <==> id is Err,
            value != 0 ==> (id matches Ok(id) && id@ == value),
    {
        if value == 0 {
            Err(ZeroIdError)
        } else {
            Ok(LocalTaskId { value })
        }
    }
}

impl vstd::std_specs::convert::TryFromSpecImpl<u32> for LocalTaskId {
    open spec fn obeys_try_from_spec() -> bool {
        true
    }

    open spec fn try_from_spec(value: u32) -> Result<LocalTaskId, ZeroIdError> {
        if value == 0 {
            Err(ZeroIdError)
        } else {
            Ok(LocalTaskId::of(value))
        }
    }
}

} // verus!
