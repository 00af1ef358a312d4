//! Assertions on results and vectors. Verified callers must establish what each one
//! asserts; for other callers each assertion is also checked when it runs, and fails
//! by panicking.
use vstd::prelude::*;
use vstd::pervasive::{runtime_assert, unreached};
use vstd::std_specs::cmp::PartialEqSpec;

verus! {

/// The value of a result that is `Ok`.
pub fn assert_is_ok<T, E>(result: &Result<T, E>) -> (r: &T)
    requires
        result is Ok,
    ensures
        *r == result->Ok_0,
{
    match result {
        Ok(actual) => actual,
        Err(_) => unreached(),
    }
}

/// A result is `Ok` with a value equal to `expected`.
pub fn assert_ok_eq<T: PartialEq, E>(expected: &T, result: &Result<T, E>)
    requires
        result is Ok,
        T::obeys_eq_spec(),
        expected.eq_spec(&result->Ok_0),
{
    let actual = assert_is_ok(result);
    runtime_assert(expected.eq(actual));
}

/// A result is `Ok` with a vector that matches `expected` item by item under `eq`.
pub fn assert_result_vec_eq_fn<T, E, F: Fn(&T, &T) -> bool>(
    expected: &Vec<T>,
    result: &Result<Vec<T>, E>,
    eq: F,
)
    requires
        result is Ok,
        expected.len() == result->Ok_0.len(),
        forall|i: int|
            0 <= i < expected.len() ==> eq.requires((&expected[i], &result->Ok_0[i])),
        forall|i: int, b: bool|
            0 <= i < expected.len() && eq.ensures((&expected[i], &result->Ok_0[i]), b) ==> b,
{
    let actual = assert_is_ok(result);
    assert_vec_eq_fn(expected, actual, eq);
}

/// Two vectors have the same length and match item by item under `eq`.
pub fn assert_vec_eq_fn<T, F: Fn(&T, &T) -> bool>(expected: &Vec<T>, actual: &Vec<T>, eq: F)
    requires
        expected.len() == actual.len(),
        forall|i: int| 0 <= i < expected.len() ==> eq.requires((&expected[i], &actual[i])),
        forall|i: int, b: bool|
            0 <= i < expected.len() && eq.ensures((&expected[i], &actual[i]), b) ==> b,
{
    runtime_assert(expected.len() == actual.len());
    let mut i: usize = 0;
    while i < actual.len()
        invariant
            expected.len() == actual.len(),
            forall|k: int| 0 <= k < expected.len() ==> eq.requires((&expected[k], &actual[k])),
            forall|k: int, b: bool|
                0 <= k < expected.len() && eq.ensures((&expected[k], &actual[k]), b) ==> b,
        decreases actual.len() - i,
    {
        let same = eq(&expected[i], &actual[i]);
        runtime_assert(same);
        i = i + 1;
    }
}

/// The error of a result that is `Err`.
pub fn assert_is_err<T, E>(result: Result<T, E>) -> (r: E)
    requires
        result is Err,
    ensures
        r == result->Err_0,
{
    match result {
        Err(err_value) => err_value,
        Ok(_) => unreached(),
    }
}

/// A result is `Err` with an error equal to `expected_err`.
pub fn assert_err_eq<T, E: PartialEq>(expected_err: E, result: Result<T, E>)
    requires
        result is Err,
        E::obeys_eq_spec(),
        expected_err.eq_spec(&result->Err_0),
{
    let actual_err = assert_is_err(result);
    runtime_assert(expected_err.eq(&actual_err));
}

} // verus!
