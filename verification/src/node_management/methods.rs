//! Typed method handlers: a call must bring exactly as many input arguments as the
//! handler takes, and each must decode to the type the handler expects; a failure is
//! reported as the status of the whole call.

use vstd::prelude::*;
use crate::rbac::role_management::MethodArgument;
use crate::status::StatusCode;

verus! {

/// Checks that `args` holds exactly `expected` arguments: fewer is
/// `BadArgumentsMissing`, more is `BadTooManyArguments`.
pub fn check_arg_count(args: &[MethodArgument], expected: usize) -> (r: Result<(), StatusCode>)
    ensures
        args@.len() < expected ==> r == Err::<(), StatusCode>(StatusCode::BadArgumentsMissing),
        args@.len() > expected ==> r == Err::<(), StatusCode>(StatusCode::BadTooManyArguments),
        args@.len() == expected ==> r is Ok,
{
    if args.len() < expected {
        return Err(StatusCode::BadArgumentsMissing);
    }
    if args.len() > expected {
        return Err(StatusCode::BadTooManyArguments);
    }
    Ok(())
}

/// The arguments a typed handler receives, from the decoding of each raw argument:
/// a wrong count fails as [`check_arg_count`] does, then any argument that does not
/// decode fails the call with `BadInvalidArgument`, whatever the decoder reported.
pub open spec fn typed_arguments_spec<T>(expected: nat, decoded: Seq<Result<T, StatusCode>>) -> Result<Seq<T>, StatusCode> {
    if decoded.len() < expected {
        Err(StatusCode::BadArgumentsMissing)
    } else if decoded.len() > expected {
        Err(StatusCode::BadTooManyArguments)
    } else if exists|i: int| 0 <= i < decoded.len() && (#[trigger] decoded[i]) is Err {
        Err(StatusCode::BadInvalidArgument)
    } else {
        Ok(decoded.map_values(|d: Result<T, StatusCode>| d->Ok_0))
    }
}

/// The typed arguments of a call (see [`typed_arguments_spec`]); `decoded` holds the
/// decoding of each raw argument in order.
pub fn typed_arguments<T>(expected: usize, decoded: Vec<Result<T, StatusCode>>) -> (r: Result<Vec<T>, StatusCode>)
    ensures
        match (r, typed_arguments_spec(expected as nat, decoded@)) {
            (Ok(v), Ok(s)) => v@ == s,
            (Err(e), Err(f)) => e == f,
            _ => false,
        },
{
    if decoded.len() < expected {
        return Err(StatusCode::BadArgumentsMissing);
    }
    if decoded.len() > expected {
        return Err(StatusCode::BadTooManyArguments);
    }
    let ghost d = decoded@;
    let mut i: usize = 0;
    while i < decoded.len()
        invariant
            i <= decoded.len(),
            decoded@.len() == expected,
            d == decoded@,
            forall|j: int| 0 <= j < i ==> (#[trigger] d[j]) is Ok,
        decreases decoded.len() - i,
    {
        if decoded[i].is_err() {
            assert(d[i as int] is Err);
            return Err(StatusCode::BadInvalidArgument);
        }
        i = i + 1;
    }
    let mut out: Vec<T> = Vec::new();
    for x in it: decoded
        invariant
            it.seq() == d,
            out@ == d.take(it.index() as int).map_values(|e: Result<T, StatusCode>| e->Ok_0),
            forall|j: int| 0 <= j < d.len() ==> (#[trigger] d[j]) is Ok,
    {
        match x {
            Ok(v) => {
                out.push(v);
                assert(d.take(it.index() + 1) =~= d.take(it.index() as int).push(d[it.index() as int]));
            },
            Err(_) => {
                assert(d[it.index() as int] is Err);
                assert(false);
            },
        }
    }
    assert(d.take(d.len() as int) =~= d);
    Ok(out)
}

} // verus!
