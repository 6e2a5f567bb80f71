use vstd::prelude::*;

verus! {

/// The request context: who is making the request.
#[derive(Clone, Copy, Debug, PartialEq, Eq, Structural)]
pub struct Ctx {
    user_id: u64,
}

impl Ctx {
    /// The context of the user `user_id`.
    pub fn new(user_id: u64) -> (ctx: Ctx)
        ensures
            ctx.spec_user_id() == user_id,
    {
        Ctx { user_id }
    }

    /// The id of the user the context belongs to.
    pub closed spec fn spec_user_id(self) -> u64 {
        self.user_id
    }

    pub fn user_id(&self) -> (id: u64)
        ensures
            id == self.spec_user_id(),
    {
        self.user_id
    }
}

} // verus!
