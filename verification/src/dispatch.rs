//! Calls implementations of every accepted shape.
//!
//! An implementation takes its inputs and then, as it likes, the dummy, the
//! emitter, both in either order, or neither. A driver always has both at
//! hand. The functions here hand an implementation what it takes, and
//! promise that what it does not take is left as it was.

use crate::error::Emitter;
use vstd::prelude::*;

verus! {

/// Calls an implementation that takes the dummy and then the emitter.
pub fn call_with_dummy_and_emitter<
    Inputs,
    Dummy,
    Output,
    Body: FnOnce(Inputs, &mut Dummy, &mut Emitter) -> Output,
>(body: Body, inputs: Inputs, dummy: &mut Dummy, emitter: &mut Emitter) -> (output: Output)
    requires
        forall|dummy_ref: &mut Dummy, emitter_ref: &mut Emitter|
            *dummy_ref == *old(dummy) && *emitter_ref == *old(emitter) ==> call_requires(
                body,
                (inputs, dummy_ref, emitter_ref),
            ),
    ensures
        exists|dummy_ref: &mut Dummy, emitter_ref: &mut Emitter|
            *dummy_ref == *old(dummy) && *final(dummy_ref) == *final(dummy) && *emitter_ref
                == *old(emitter) && *final(emitter_ref) == *final(emitter)
                && #[trigger] call_ensures(body, (inputs, dummy_ref, emitter_ref), output),
{
    body(inputs, dummy, emitter)
}

/// Calls an implementation that takes the emitter and then the dummy.
pub fn call_with_emitter_and_dummy<
    Inputs,
    Dummy,
    Output,
    Body: FnOnce(Inputs, &mut Emitter, &mut Dummy) -> Output,
>(body: Body, inputs: Inputs, dummy: &mut Dummy, emitter: &mut Emitter) -> (output: Output)
    requires
        forall|emitter_ref: &mut Emitter, dummy_ref: &mut Dummy|
            *dummy_ref == *old(dummy) && *emitter_ref == *old(emitter) ==> call_requires(
                body,
                (inputs, emitter_ref, dummy_ref),
            ),
    ensures
        exists|emitter_ref: &mut Emitter, dummy_ref: &mut Dummy|
            *dummy_ref == *old(dummy) && *final(dummy_ref) == *final(dummy) && *emitter_ref
                == *old(emitter) && *final(emitter_ref) == *final(emitter)
                && #[trigger] call_ensures(body, (inputs, emitter_ref, dummy_ref), output),
{
    body(inputs, emitter, dummy)
}

/// Calls an implementation that takes the dummy alone. The emitter is left
/// as it was.
pub fn call_with_dummy<Inputs, Dummy, Output, Body: FnOnce(Inputs, &mut Dummy) -> Output>(
    body: Body,
    inputs: Inputs,
    dummy: &mut Dummy,
    emitter: &mut Emitter,
) -> (output: Output)
    requires
        forall|dummy_ref: &mut Dummy|
            *dummy_ref == *old(dummy) ==> call_requires(body, (inputs, dummy_ref)),
    ensures
        *final(emitter) == *old(emitter),
        exists|dummy_ref: &mut Dummy|
            *dummy_ref == *old(dummy) && *final(dummy_ref) == *final(dummy)
                && #[trigger] call_ensures(body, (inputs, dummy_ref), output),
{
    body(inputs, dummy)
}

/// Calls an implementation that takes the emitter alone. The dummy is left
/// as it was.
pub fn call_with_emitter<Inputs, Dummy, Output, Body: FnOnce(Inputs, &mut Emitter) -> Output>(
    body: Body,
    inputs: Inputs,
    dummy: &mut Dummy,
    emitter: &mut Emitter,
) -> (output: Output)
    requires
        forall|emitter_ref: &mut Emitter|
            *emitter_ref == *old(emitter) ==> call_requires(body, (inputs, emitter_ref)),
    ensures
        *final(dummy) == *old(dummy),
        exists|emitter_ref: &mut Emitter|
            *emitter_ref == *old(emitter) && *final(emitter_ref) == *final(emitter)
                && #[trigger] call_ensures(body, (inputs, emitter_ref), output),
{
    body(inputs, emitter)
}

/// Calls an implementation that takes its inputs alone. The dummy and the
/// emitter are left as they were.
pub fn call_with_inputs<Inputs, Dummy, Output, Body: FnOnce(Inputs) -> Output>(
    body: Body,
    inputs: Inputs,
    dummy: &mut Dummy,
    emitter: &mut Emitter,
) -> (output: Output)
    requires
        call_requires(body, (inputs,)),
    ensures
        *final(dummy) == *old(dummy),
        *final(emitter) == *old(emitter),
        call_ensures(body, (inputs,), output),
{
    body(inputs)
}

} // verus!
