//! Identities of panes and containers.

use vstd::prelude::*;

verus! {

/// The identity of a pane or a container: the 128 bits of a UUID.
pub type Id = u128;

/// The bits of an id that hold a UUID's version and variant.
pub const VERSION_MASK: u128 = 0x0000_0000_0000_f000_c000_0000_0000_0000u128;

/// What those bits hold in a random UUID: version 4, and the variant of
/// RFC 9562.
pub const VERSION_RANDOM: u128 = 0x0000_0000_0000_4000_8000_0000_0000_0000u128;

/// Whether an id has the version and the variant of a random UUID.
pub open spec fn is_random(id: Id) -> bool {
    id & VERSION_MASK == VERSION_RANDOM
}

/// A new random id.
///
/// Calls `uuid::Uuid::new_v4` and takes the UUID's 128 bits with
/// `Uuid::as_u128`. Nothing is proved of this function. The contract claims
/// what `new_v4` does to every random number that it draws: it sets the
/// version bits to 4 and the variant bits to binary 10. Which id comes back
/// is left open, and so is whether it was handed out before. Where the
/// operating system hands out no random bytes, `new_v4` panics and this
/// function does not return: no input leaves that out, and nothing here
/// guards against it.
#[verifier::external_body]
pub(crate) fn fresh_id() -> (id: Id)
    ensures
        id & VERSION_MASK == VERSION_RANDOM,
{
    uuid::Uuid::new_v4().as_u128()
}

} // verus!
