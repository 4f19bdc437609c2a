//! The conversion of what a historical type's decoder hands out into the
//! container's own output, for each shape that an entry point returns. A
//! failure is handed on as it is.

use vstd::prelude::*;

verus! {

/// Converts a decoded value: the shape of a value on its own and of a map
/// entry's value.
pub fn convert_one<H, T, X, F>(outcome: Result<H, X>, convert: F) -> (result: Result<T, X>) where
    F: FnOnce(H) -> T,

    requires
        outcome matches Ok(value) ==> call_requires(convert, (value,)),
    ensures
        match outcome {
            Ok(value) => result matches Ok(converted) && call_ensures(
                convert,
                (value,),
                converted,
            ),
            Err(error) => result == Err::<T, X>(error),
        },
{
    match outcome {
        Ok(value) => Ok(convert(value)),
        Err(error) => Err(error),
    }
}

/// Converts a value that may be absent: the shape of a sequence element and
/// of a map entry's key, where `None` marks the end.
pub fn convert_optional<H, T, X, F>(outcome: Result<Option<H>, X>, convert: F) -> (result: Result<
    Option<T>,
    X,
>) where F: FnOnce(H) -> T
    requires
        outcome matches Ok(Some(value)) ==> call_requires(convert, (value,)),
    ensures
        match outcome {
            Ok(Some(value)) => result matches Ok(Some(converted)) && call_ensures(
                convert,
                (value,),
                converted,
            ),
            Ok(None) => result == Ok::<Option<T>, X>(None),
            Err(error) => result == Err::<Option<T>, X>(error),
        },
{
    match outcome {
        Ok(Some(value)) => Ok(Some(convert(value))),
        Ok(None) => Ok(None),
        Err(error) => Err(error),
    }
}

/// Converts the payload of an enum variant and keeps the handle for the
/// variant's data.
pub fn convert_variant<H, T, V, X, F>(outcome: Result<(H, V), X>, convert: F) -> (result: Result<
    (T, V),
    X,
>) where F: FnOnce(H) -> T
    requires
        outcome matches Ok(pair) ==> call_requires(convert, (pair.0,)),
    ensures
        match outcome {
            Ok(pair) => result matches Ok(converted) && converted.1 == pair.1 && call_ensures(
                convert,
                (pair.0,),
                converted.0,
            ),
            Err(error) => result == Err::<(T, V), X>(error),
        },
{
    match outcome {
        Ok((value, variant)) => Ok((convert(value), variant)),
        Err(error) => Err(error),
    }
}

} // verus!
