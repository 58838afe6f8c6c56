use vstd::prelude::*;
use crate::value::Value;
use crate::value::ValueView;
use crate::value::spec_get;

verus! {

/// The walking speed of a race: its `speed` when that is a number, the
/// numeric `walk` field when `speed` is an object, and nothing otherwise.
pub open spec fn spec_speed(race: ValueView) -> Option<int> {
    match spec_get(race, "speed"@) {
        ValueView::Num(n) => Some(n),
        ValueView::Obj(_) => match spec_get(spec_get(race, "speed"@), "walk"@) {
            ValueView::Num(n) => Some(n),
            _ => None,
        },
        _ => None,
    }
}

/// The speed as a record field: the number, or null when there is none.
pub open spec fn spec_speed_value(race: ValueView) -> ValueView {
    match spec_speed(race) {
        Some(n) => ValueView::Num(n),
        None => ValueView::Null,
    }
}

/// Reads the walking speed of a race.
pub fn for_race(race: &Value) -> (r: Option<i64>)
    ensures
        (match r {
            Some(n) => Some(n as int),
            None => None,
        }) == spec_speed(race@),
{
    match race.get("speed") {
        Some(sp) => match sp {
            Value::Num(n) => Some(*n),
            Value::Obj(_) => match sp.get("walk") {
                Some(w) => match w {
                    Value::Num(n) => Some(*n),
                    _ => None,
                },
                None => None,
            },
            _ => None,
        },
        None => None,
    }
}

} // verus!
