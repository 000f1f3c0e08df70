use crate::error::{DecodeError, ErrorKind, ErrorModel};
use crate::number::{Float64, nearest_bits, nearest_bits_signed};
use crate::value::{entries_view, has_key, is_first, seen_before, Value, value_of, ValueModel};
use vstd::prelude::*;

verus! {

/// Whether a decoder's result is the one that its specification gives.
pub open spec fn agrees<T: View>(result: Result<T, DecodeError>, expected: Result<T::V, ErrorModel>) -> bool {
    match result {
        Ok(value) => expected == Ok::<T::V, ErrorModel>(value@),
        Err(error) => expected == Err::<T::V, ErrorModel>(error@),
    }
}

/// The failure of a reading, if it failed.
pub open spec fn failure_of<T>(reading: Result<T, ErrorModel>) -> Option<ErrorModel> {
    match reading {
        Ok(_) => None,
        Err(error) => Some(error),
    }
}

/// The failure of reading an optional field, where `failure` is that of
/// reading the value as the field's type: `null` stands for an absent field
/// and fails for no type.
pub open spec fn unless_null(value: ValueModel, failure: Option<ErrorModel>) -> Option<ErrorModel> {
    if value is Null {
        None
    } else {
        failure
    }
}

/// The value of an optional field whose entry holds `value`, read as the
/// field's type with the result `reading`: nothing for `null`.
pub open spec fn optional<T>(value: ValueModel, reading: Result<T, ErrorModel>) -> Option<T> {
    if value is Null {
        None
    } else {
        Some(reading->Ok_0)
    }
}

/// What an entry does wrong for the field that its key names: the field
/// has been given before (`taken`), or the reading of the entry's value
/// failed with `failure`.
pub open spec fn slot_fault(taken: bool, key: Seq<char>, failure: Option<ErrorModel>) -> Option<ErrorModel> {
    if taken {
        Some(ErrorModel::at(ErrorKind::MalformedInput, key))
    } else {
        match failure {
            Some(error) => Some(error.under(key)),
            None => None,
        }
    }
}

/// What entry `i` of an object does wrong as the entry of a field whose
/// reading of the entry's value fails with `failure`: it gives its key a
/// second time, or its value cannot be read.
pub open spec fn entry_fault(
    entries: Seq<(Seq<char>, ValueModel)>,
    i: int,
    failure: Option<ErrorModel>,
) -> Option<ErrorModel> {
    slot_fault(seen_before(entries, entries[i].0, i), entries[i].0, failure)
}

/// Whether `slot` holds what the first `upto` entries give the field `key`:
/// nothing where none of them has the key, else `expected`, which is read
/// from entry `at`, the first with the key.
pub open spec fn slot_tracks<M>(
    entries: Seq<(Seq<char>, ValueModel)>,
    key: Seq<char>,
    upto: int,
    at: int,
    slot: Option<M>,
    expected: M,
) -> bool {
    match slot {
        Some(held) => is_first(entries, key, at) && at < upto && held == expected,
        None => !seen_before(entries, key, upto),
    }
}

/// The reading of a value that may be absent.
pub open spec fn opt_view<T: View>(value: Option<T>) -> Option<T::V> {
    match value {
        Some(held) => Some(held@),
        None => None,
    }
}

/// The reading of the slot of an optional field.
pub open spec fn slot_view<T: View>(slot: Option<Option<T>>) -> Option<Option<T::V>> {
    match slot {
        Some(held) => Some(opt_view(held)),
        None => None,
    }
}

/// Whether an entry gives the field `key` a value other than `null`.
pub open spec fn present(entries: Seq<(Seq<char>, ValueModel)>, key: Seq<char>) -> bool {
    has_key(entries, key) && !(value_of(entries, key) is Null)
}

/// The entry of an optional field: none where the field has no value.
pub open spec fn optional_entry(key: Seq<char>, value: Option<ValueModel>) -> Seq<(Seq<char>, ValueModel)> {
    match value {
        Some(held) => seq![(key, held)],
        None => Seq::empty(),
    }
}

/// The first element of a list that is not `None`.
pub open spec fn first_some<T>(list: Seq<Option<T>>) -> Option<T> {
    if exists|i: int| 0 <= i < list.len() && (#[trigger] list[i]) is Some {
        list[choose|i: int|
            0 <= i < list.len() && (#[trigger] list[i]) is Some && forall|j: int|
                0 <= j < i ==> (#[trigger] list[j]) is None]
    } else {
        None
    }
}

/// An element with only `None` before it is the first that is not `None`.
pub proof fn lemma_first_some<T>(list: Seq<Option<T>>, i: int)
    requires
        0 <= i < list.len(),
        list[i] is Some,
        forall|j: int| 0 <= j < i ==> (#[trigger] list[j]) is None,
    ensures
        first_some(list) == list[i],
{
    let chosen = choose|l: int|
        0 <= l < list.len() && (#[trigger] list[l]) is Some && forall|j: int|
            0 <= j < l ==> (#[trigger] list[j]) is None;
    assert(list[chosen] is Some);
    if chosen < i {
        assert(list[chosen] is None);
    }
    if i < chosen {
        assert(list[i] is None);
    }
}

/// The text of a string value.
pub open spec fn read_text_spec(value: ValueModel) -> Result<Seq<char>, ErrorModel> {
    match value {
        ValueModel::String(text) => Ok(text),
        _ => Err(ErrorModel::at_root(ErrorKind::TypeMismatch)),
    }
}

/// The number that a numeric value stands for: a float itself, an integer
/// the double nearest to it.
pub open spec fn number_of(value: ValueModel) -> Option<Float64> {
    match value {
        ValueModel::Unsigned(n) => Some(Float64 { bits: nearest_bits(n as nat) as u64 }),
        ValueModel::Signed(n) => Some(Float64 { bits: nearest_bits_signed(n as int) as u64 }),
        ValueModel::Float(x) => Some(x),
        _ => None,
    }
}

/// The number of a numeric value.
pub open spec fn read_number_spec(value: ValueModel) -> Result<Float64, ErrorModel> {
    match number_of(value) {
        Some(x) => Ok(x),
        None => Err(ErrorModel::at_root(ErrorKind::TypeMismatch)),
    }
}

/// The count that an integer value of `0..=u32::MAX` stands for.
pub open spec fn read_count_spec(value: ValueModel) -> Result<u32, ErrorModel> {
    match value {
        ValueModel::Unsigned(n) if n <= u32::MAX => Ok(n as u32),
        ValueModel::Signed(n) if 0 <= n <= u32::MAX => Ok(n as u32),
        _ => Err(ErrorModel::at_root(ErrorKind::TypeMismatch)),
    }
}

/// Reads a text: the value must be a string.
pub fn read_text(value: &Value) -> (result: Result<String, DecodeError>)
    ensures
        agrees(result, read_text_spec(value@)),
{
    match value {
        Value::String(text) => Ok(text.clone()),
        _ => Err(DecodeError::at_root(ErrorKind::TypeMismatch)),
    }
}

/// The number that a numeric value stands for; `None` for any other value.
pub fn number(value: &Value) -> (found: Option<Float64>)
    ensures
        found == number_of(value@),
{
    match value {
        Value::Unsigned(n) => Some(Float64::from_u64(*n)),
        Value::Signed(n) => Some(Float64::from_i64(*n)),
        Value::Float(x) => Some(*x),
        _ => None,
    }
}

/// Reads a number: the value must be numeric.
pub fn read_number(value: &Value) -> (result: Result<Float64, DecodeError>)
    ensures
        agrees(result, read_number_spec(value@)),
{
    match number(value) {
        Some(x) => Ok(x),
        None => Err(DecodeError::at_root(ErrorKind::TypeMismatch)),
    }
}

/// Reads a count: the value must be an integer of `0..=u32::MAX`.
pub fn read_count(value: &Value) -> (result: Result<u32, DecodeError>)
    ensures
        agrees(result, read_count_spec(value@)),
{
    match value {
        Value::Unsigned(n) => {
            if *n <= u32::MAX as u64 {
                Ok(*n as u32)
            } else {
                Err(DecodeError::at_root(ErrorKind::TypeMismatch))
            }
        },
        Value::Signed(n) => {
            if 0 <= *n && *n <= u32::MAX as i64 {
                Ok(*n as u32)
            } else {
                Err(DecodeError::at_root(ErrorKind::TypeMismatch))
            }
        },
        _ => Err(DecodeError::at_root(ErrorKind::TypeMismatch)),
    }
}

/// Appends the entry of a field that is always written.
pub fn push_entry(entries: &mut Vec<(String, Value)>, key: String, value: Value)
    ensures
        entries_view(final(entries)@) == entries_view(old(entries)@) + seq![(key@, value@)],
{
    let ghost before = entries_view(entries@);
    entries.push((key, value));
    assert(entries_view(entries@) =~= before + seq![(key@, value@)]);
}

/// Appends the entry of an optional field, if the field has a value.
pub fn push_optional(entries: &mut Vec<(String, Value)>, key: String, value: Option<Value>)
    ensures
        entries_view(final(entries)@) == entries_view(old(entries)@) + optional_entry(
            key@,
            opt_view(value),
        ),
{
    let ghost before = entries_view(entries@);
    match value {
        Some(held) => {
            entries.push((key, held));
            assert(entries_view(entries@) =~= before + seq![(key@, held@)]);
        },
        None => {
            assert(entries_view(entries@) =~= before + Seq::empty());
        },
    }
}

/// Gives the required text field of `slot` the value of an entry with its key.
pub fn fill_text(slot: &mut Option<String>, key: &String, item: &Value) -> (fault: Option<DecodeError>)
    ensures
        opt_view(fault) == slot_fault(*old(slot) is Some, key@, failure_of(read_text_spec(item@))),
        fault is None ==> opt_view(*final(slot)) == Some(read_text_spec(item@)->Ok_0),
        fault is Some ==> *final(slot) == *old(slot),
{
    if slot.is_some() {
        return Some(DecodeError::at(ErrorKind::MalformedInput, key.clone()));
    }
    match read_text(item) {
        Ok(text) => {
            *slot = Some(text);
            None
        },
        Err(error) => Some(error.under(key.clone())),
    }
}

/// Gives the required count field of `slot` the value of an entry with its key.
pub fn fill_count(slot: &mut Option<u32>, key: &String, item: &Value) -> (fault: Option<DecodeError>)
    ensures
        opt_view(fault) == slot_fault(*old(slot) is Some, key@, failure_of(read_count_spec(item@))),
        fault is None ==> *final(slot) == Some(read_count_spec(item@)->Ok_0),
        fault is Some ==> *final(slot) == *old(slot),
{
    if slot.is_some() {
        return Some(DecodeError::at(ErrorKind::MalformedInput, key.clone()));
    }
    match read_count(item) {
        Ok(count) => {
            *slot = Some(count);
            None
        },
        Err(error) => Some(error.under(key.clone())),
    }
}

/// Gives the optional text field of `slot` the value of an entry with its key.
pub fn fill_optional_text(slot: &mut Option<Option<String>>, key: &String, item: &Value) -> (fault:
    Option<DecodeError>)
    ensures
        opt_view(fault) == slot_fault(
            *old(slot) is Some,
            key@,
            unless_null(item@, failure_of(read_text_spec(item@))),
        ),
        fault is None ==> slot_view(*final(slot)) == Some(optional(item@, read_text_spec(item@))),
        fault is Some ==> *final(slot) == *old(slot),
{
    if slot.is_some() {
        return Some(DecodeError::at(ErrorKind::MalformedInput, key.clone()));
    }
    match item {
        Value::Null => {
            *slot = Some(None);
            None
        },
        _ => match read_text(item) {
            Ok(text) => {
                *slot = Some(Some(text));
                None
            },
            Err(error) => Some(error.under(key.clone())),
        },
    }
}

/// Gives the optional number field of `slot` the value of an entry with its key.
pub fn fill_optional_number(slot: &mut Option<Option<Float64>>, key: &String, item: &Value) -> (fault:
    Option<DecodeError>)
    ensures
        opt_view(fault) == slot_fault(
            *old(slot) is Some,
            key@,
            unless_null(item@, failure_of(read_number_spec(item@))),
        ),
        fault is None ==> slot_view(*final(slot)) == Some(optional(item@, read_number_spec(item@))),
        fault is Some ==> *final(slot) == *old(slot),
{
    if slot.is_some() {
        return Some(DecodeError::at(ErrorKind::MalformedInput, key.clone()));
    }
    match item {
        Value::Null => {
            *slot = Some(None);
            None
        },
        _ => match read_number(item) {
            Ok(x) => {
                *slot = Some(Some(x));
                None
            },
            Err(error) => Some(error.under(key.clone())),
        },
    }
}

/// The value of an optional field after the last entry: the one that its
/// entry gave it, if it had one.
pub fn settle<T: View>(slot: Option<Option<T>>) -> (value: Option<T>)
    ensures
        opt_view(value) == match slot_view(slot) {
            Some(held) => held,
            None => None,
        },
{
    match slot {
        Some(held) => held,
        None => None,
    }
}

} // verus!
