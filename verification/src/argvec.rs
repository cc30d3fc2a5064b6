//! The fixed-capacity argument list of a hook call: the receiver alone.
use vstd::prelude::*;
use arrayvec::ArrayVec;
use crate::object::ObjectToken;

verus! {

/// `arrayvec::ArrayVec`: a vector of at most `CAP` elements that are
/// stored in place.  Nothing is said of what is inside it; what a list of
/// arguments holds is named by [`held`].
#[verifier::external_type_specification]
#[verifier::external_body]
#[verifier::reject_recursive_types(T)]
pub struct ExArrayVec<T, const CAP: usize>(ArrayVec<T, CAP>);

/// The handles that an `ArrayVec` of one argument holds, in order.
pub uninterp spec fn held(args: ArrayVec<ObjectToken, 1>) -> Seq<ObjectToken>;

/// `ArrayVec::from` on an array of one element: a full list that holds the
/// element.
#[verifier::external_body]
pub(crate) fn single_argument(token: ObjectToken) -> (args: ArrayVec<ObjectToken, 1>)
    ensures
        held(args) == seq![token],
{
    ArrayVec::from([token])
}

/// `ArrayVec::as_slice`: the elements of the list, in order.
#[verifier::external_body]
pub(crate) fn argument_slice(args: &ArrayVec<ObjectToken, 1>) -> (slice: &[ObjectToken])
    ensures
        slice@ == held(*args),
{
    args.as_slice()
}

/// `ArrayVec::pop`: takes the last element out of the list; `None`, and no
/// change, where the list is empty.
#[verifier::external_body]
pub(crate) fn take_argument(args: &mut ArrayVec<ObjectToken, 1>) -> (token: Option<ObjectToken>)
    ensures
        held(*old(args)).len() == 0 ==> token is None && held(*final(args)) == held(*old(args)),
        held(*old(args)).len() > 0 ==> token == Some(held(*old(args)).last()) && held(
            *final(args),
        ) == held(*old(args)).drop_last(),
{
    args.pop()
}

} // verus!
