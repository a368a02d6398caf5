//! Measured values with their name and unit, read from the text columns of
//! published data.
//!
//! A value that is a floating point number is held as the text it was read
//! from, which Rust's float `from_str` accepts; whole numbers are held as
//! `i64`.

use vstd::prelude::*;

use crate::text::{chars_of, check_float, float_result, int_result, parse_int, push_str};
use crate::units::Unit;

verus! {

#[derive(Clone, Debug)]
pub struct DimensionalData<T> {
    pub value: Option<T>,
    pub variable_name: String,
    pub unit: Unit,
}

/// The `i64` that Rust's `from_str` reads from `raw`, if any.
pub open spec fn int_value(raw: Seq<char>) -> Option<i64> {
    match int_result(raw, i64::MIN as int, i64::MAX as int) {
        Ok(v) => Some(v as i64),
        Err(_) => None,
    }
}

impl DimensionalData<i64> {
    /// The value read from `raw_data`, or none when it is not an integer.
    pub fn from_raw_data(raw_data: &str, variable_name: String, unit: Unit) -> (d: Self)
        ensures
            d.value == int_value(raw_data@),
            d.variable_name == variable_name,
            d.unit == unit,
    {
        let chars = chars_of(raw_data);
        proof {
            assert(chars@.subrange(0, chars.len() as int) =~= chars@);
        }
        let value = match parse_int(&chars, 0, chars.len(), i64::MIN, i64::MAX) {
            Ok(v) => Some(v),
            Err(_) => None,
        };
        DimensionalData { value, variable_name, unit }
    }
}

impl DimensionalData<String> {
    /// The text of `raw_data` when it is a float, or none.
    pub fn from_raw_data(raw_data: &str, variable_name: String, unit: Unit) -> (d: Self)
        ensures
            d.value is Some <==> float_result(raw_data@) is Ok,
            d.value matches Some(t) ==> t@ == raw_data@,
            d.variable_name == variable_name,
            d.unit == unit,
    {
        let chars = chars_of(raw_data);
        proof {
            assert(chars@.subrange(0, chars.len() as int) =~= chars@);
        }
        let value = match check_float(&chars, 0, chars.len()) {
            Ok(()) => {
                let mut t = String::new();
                push_str(&mut t, raw_data);
                Some(t)
            },
            Err(_) => None,
        };
        DimensionalData { value, variable_name, unit }
    }
}

pub struct DimensionalDataCollection<T>(pub Vec<DimensionalData<T>>);

impl<T> DimensionalDataCollection<T> {
    /// The values, in order.
    pub fn into_values(self) -> (values: Vec<Option<T>>)
        ensures
            values@ == self.0@.map_values(|d: DimensionalData<T>| d.value),
    {
        let ghost all = self.0@;
        let mut rest = self.0;
        let mut values: Vec<Option<T>> = Vec::new();
        while rest.len() > 0
            invariant
                values@ + rest@.map_values(|d: DimensionalData<T>| d.value) == all.map_values(
                    |d: DimensionalData<T>| d.value,
                ),
            decreases rest.len(),
        {
            let ghost before = rest@;
            let d = rest.remove(0);
            proof {
                assert(before.map_values(|d: DimensionalData<T>| d.value) =~= seq![d.value]
                    + rest@.map_values(|d: DimensionalData<T>| d.value));
            }
            values.push(d.value);
            proof {
                assert(values@ + rest@.map_values(|d: DimensionalData<T>| d.value) =~= all.map_values(
                    |d: DimensionalData<T>| d.value,
                ));
            }
        }
        proof {
            assert(rest@.map_values(|d: DimensionalData<T>| d.value) =~= Seq::<Option<T>>::empty());
            assert(values@ + Seq::<Option<T>>::empty() =~= values@);
        }
        values
    }
}

pub enum DimensionalDataParseError {
    InvalidString,
}

} // verus!
