use vstd::prelude::*;
use crate::value::Value;
use crate::value::ValueView;
use crate::value::spec_get;
use crate::value::spec_arr_view;
use crate::value::spec_fields_view;
use crate::value::lemma_arr_view_len;
use crate::value::lemma_arr_view_index;
use crate::value::lemma_arr_view_push;
use crate::value::lemma_arr_view_update;
use crate::value::lemma_fields_view_len;
use crate::value::lemma_fields_view_index;
use crate::convert::entries::spec_members;
use crate::value::spec_obj_fields;
use crate::convert::util::str_eq;

verus! {

/// The per-choice bonus amount of a choose directive: its `amount` when
/// that is a number in byte range, else 1.
pub open spec fn spec_amount(v: ValueView) -> int {
    match spec_get(v, "amount"@) {
        ValueView::Num(m) => if 0 <= m <= 255 {
            m
        } else {
            1
        },
        _ => 1,
    }
}

/// `n` repetitions of the bonus amount, as number values.
pub open spec fn spec_repeat(n: int, amount: int) -> Seq<ValueView>
    decreases n,
{
    if n <= 0 {
        Seq::empty()
    } else {
        spec_repeat(n - 1, amount).push(ValueView::Num(amount))
    }
}

/// The flexible choices of a choose directive: the `weighted.weights` list
/// verbatim when `weighted` is an object; else `amount` repeated `count`
/// times when `count` is a number in byte range; else nothing.
pub open spec fn spec_parse_choices(v: ValueView) -> ValueView {
    if spec_get(v, "weighted"@) is Obj {
        spec_get(spec_get(v, "weighted"@), "weights"@)
    } else {
        match spec_get(v, "count"@) {
            ValueView::Num(n) => if 0 <= n <= 255 {
                ValueView::Arr(spec_repeat(n, spec_amount(v)))
            } else {
                ValueView::Null
            },
            _ => ValueView::Null,
        }
    }
}

/// The slot of an ability shorthand in the fixed order str, dex, con, int,
/// wis, cha; -1 for any other key.
pub open spec fn spec_slot_index(key: Seq<char>) -> int {
    if key == "str"@ {
        0
    } else if key == "dex"@ {
        1
    } else if key == "con"@ {
        2
    } else if key == "int"@ {
        3
    } else if key == "wis"@ {
        4
    } else if key == "cha"@ {
        5
    } else {
        -1
    }
}

/// Six zero bonuses.
pub open spec fn spec_zero_slots() -> Seq<ValueView> {
    seq![
        ValueView::Num(0),
        ValueView::Num(0),
        ValueView::Num(0),
        ValueView::Num(0),
        ValueView::Num(0),
        ValueView::Num(0),
    ]
}

/// Folds an ability specification's fields over the six bonus slots and
/// the flexible choices, in field order: an ability shorthand stores its
/// value in its slot, `choose` parses the choices, any other key changes
/// nothing.
pub open spec fn spec_apply_fields(fs: Seq<(Seq<char>, ValueView)>) -> (Seq<ValueView>, ValueView)
    decreases fs.len(),
{
    if fs.len() == 0 {
        (spec_zero_slots(), ValueView::Null)
    } else {
        let prev = spec_apply_fields(fs.subrange(0, fs.len() - 1));
        let last = fs[fs.len() - 1];
        let idx = spec_slot_index(last.0);
        if idx >= 0 {
            (prev.0.update(idx, last.1), prev.1)
        } else if last.0 == "choose"@ {
            (prev.0, spec_parse_choices(last.1))
        } else {
            prev
        }
    }
}

pub proof fn lemma_apply_fields_push(fs: Seq<(Seq<char>, ValueView)>, x: (Seq<char>, ValueView))
    ensures
        spec_apply_fields(fs.push(x)) == ({
            let prev = spec_apply_fields(fs);
            let idx = spec_slot_index(x.0);
            if idx >= 0 {
                (prev.0.update(idx, x.1), prev.1)
            } else if x.0 == "choose"@ {
                (prev.0, spec_parse_choices(x.1))
            } else {
                prev
            }
        }),
{
    let p = fs.push(x);
    assert(p.subrange(0, p.len() - 1) =~= fs);
}

/// The bonus slots and flexible choices of one ability specification.
pub open spec fn spec_map_ability(m: ValueView) -> (Seq<ValueView>, ValueView) {
    spec_apply_fields(spec_obj_fields(m))
}

/// One (bonuses, choices) pair per ability specification, in order.
pub open spec fn spec_for_race(ms: Seq<ValueView>) -> Seq<(Seq<ValueView>, ValueView)>
    decreases ms.len(),
{
    if ms.len() == 0 {
        Seq::empty()
    } else {
        spec_for_race(ms.subrange(0, ms.len() - 1)).push(spec_map_ability(ms[ms.len() - 1]))
    }
}

pub proof fn lemma_for_race_push(ms: Seq<ValueView>, x: ValueView)
    ensures
        spec_for_race(ms.push(x)) == spec_for_race(ms).push(spec_map_ability(x)),
{
    let p = ms.push(x);
    assert(p.subrange(0, p.len() - 1) =~= ms);
}

/// Parses a choose directive into its flexible choice list.
pub fn parse_choices(value: &Value) -> (r: Value)
    ensures
        r@ == spec_parse_choices(value@),
{
    match value.get("weighted") {
        Some(w) => {
            if let Value::Obj(_) = w {
                return match w.get("weights") {
                    Some(x) => x.clone(),
                    None => Value::Null,
                };
            }
        },
        None => {},
    }
    match value.get("count") {
        Some(x) => match x {
            Value::Num(n) => {
                if 0 <= *n && *n <= 255 {
                    let count = *n;
                    let amount: i64 = (match value.get("amount") {
                        Some(a) => match a {
                            Value::Num(m) => if 0 <= *m && *m <= 255 {
                                *m
                            } else {
                                1
                            },
                            _ => 1,
                        },
                        None => 1,
                    });
                    let mut choices: Vec<Value> = Vec::new();
                    proof {
                        assert(spec_arr_view(choices@) =~= spec_repeat(0, amount as int));
                    }
                    let mut i: i64 = 0;
                    while i < count
                        invariant
                            0 <= i <= count,
                            count <= 255,
                            spec_arr_view(choices@) == spec_repeat(i as int, amount as int),
                        decreases count - i,
                    {
                        proof {
                            lemma_arr_view_push(choices@, Value::Num(amount));
                        }
                        choices.push(Value::Num(amount));
                        i = i + 1;
                    }
                    Value::Arr(choices)
                } else {
                    Value::Null
                }
            },
            _ => Value::Null,
        },
        None => Value::Null,
    }
}

/// Maps one ability specification to its six bonus slots (in the fixed
/// order str, dex, con, int, wis, cha) and its flexible choices.
pub fn map_ability(ability: &Value) -> (r: (Vec<Value>, Value))
    ensures
        spec_arr_view(r.0@) == spec_map_ability(ability@).0,
        r.1@ == spec_map_ability(ability@).1,
{
    let mut bonuses: Vec<Value> = Vec::new();
    bonuses.push(Value::Num(0));
    bonuses.push(Value::Num(0));
    bonuses.push(Value::Num(0));
    bonuses.push(Value::Num(0));
    bonuses.push(Value::Num(0));
    bonuses.push(Value::Num(0));
    let mut choices = Value::Null;
    proof {
        lemma_arr_view_len(bonuses@);
        assert forall|j: int| 0 <= j < 6 implies spec_arr_view(bonuses@)[j]
            == spec_zero_slots()[j] by {
            lemma_arr_view_index(bonuses@, j);
        }
        assert(spec_arr_view(bonuses@) =~= spec_zero_slots());
    }
    match ability {
        Value::Obj(fs) => {
            let ghost fv = spec_fields_view(fs@);
            proof {
                lemma_fields_view_len(fs@);
                assert(fv.take(0) =~= Seq::<(Seq<char>, ValueView)>::empty());
            }
            let mut i: usize = 0;
            while i < fs.len()
                invariant
                    i <= fs.len(),
                    fv == spec_fields_view(fs@),
                    fv.len() == fs@.len(),
                    ability@ == ValueView::Obj(fv),
                    bonuses@.len() == 6,
                    spec_arr_view(bonuses@) == spec_apply_fields(fv.take(i as int)).0,
                    choices@ == spec_apply_fields(fv.take(i as int)).1,
                decreases fs.len() - i,
            {
                proof {
                    lemma_fields_view_index(fs@, i as int);
                    lemma_apply_fields_push(fv.take(i as int), fv[i as int]);
                    assert(fv.take(i as int).push(fv[i as int]) =~= fv.take(i + 1));
                    lemma_arr_view_len(bonuses@);
                }
                let key = &fs[i].0;
                let slot: i64 = if str_eq(key.as_str(), "str") {
                    0
                } else if str_eq(key.as_str(), "dex") {
                    1
                } else if str_eq(key.as_str(), "con") {
                    2
                } else if str_eq(key.as_str(), "int") {
                    3
                } else if str_eq(key.as_str(), "wis") {
                    4
                } else if str_eq(key.as_str(), "cha") {
                    5
                } else {
                    -1
                };
                if slot >= 0 {
                    let v = fs[i].1.clone();
                    proof {
                        lemma_arr_view_update(bonuses@, slot as int, v);
                    }
                    bonuses[slot as usize] = v;
                } else if str_eq(key.as_str(), "choose") {
                    choices = parse_choices(&fs[i].1);
                }
                i = i + 1;
            }
            proof {
                assert(fv.take(fs@.len() as int) =~= fv);
            }
        },
        _ => {
            proof {
                assert(spec_obj_fields(ability@) =~= Seq::<(Seq<char>, ValueView)>::empty());
            }
        },
    }
    (bonuses, choices)
}

/// Allocates one (bonuses, choices) pair per ability specification in the
/// list; a race whose ability field is not a list yields none.
pub fn for_race(abilities: &Value) -> (r: Vec<(Vec<Value>, Value)>)
    ensures
        r@.len() == spec_for_race(spec_members(abilities@)).len(),
        forall|j: int|
            0 <= j < r@.len() ==> (spec_arr_view((#[trigger] r@[j]).0@) == spec_for_race(
                spec_members(abilities@),
            )[j].0 && r@[j].1@ == spec_for_race(spec_members(abilities@))[j].1),
{
    let mut out: Vec<(Vec<Value>, Value)> = Vec::new();
    match abilities {
        Value::Arr(a) => {
            let ghost iv = spec_arr_view(a@);
            proof {
                lemma_arr_view_len(a@);
                assert(iv.take(0) =~= Seq::<ValueView>::empty());
            }
            let mut i: usize = 0;
            while i < a.len()
                invariant
                    i <= a.len(),
                    iv == spec_arr_view(a@),
                    iv.len() == a@.len(),
                    abilities@ == ValueView::Arr(iv),
                    out@.len() == i,
                    out@.len() == spec_for_race(iv.take(i as int)).len(),
                    forall|j: int|
                        0 <= j < out@.len() ==> (spec_arr_view((#[trigger] out@[j]).0@)
                            == spec_for_race(iv.take(i as int))[j].0 && out@[j].1@ == spec_for_race(
                            iv.take(i as int),
                        )[j].1),
                decreases a.len() - i,
            {
                proof {
                    lemma_arr_view_index(a@, i as int);
                    lemma_for_race_push(iv.take(i as int), iv[i as int]);
                    assert(iv.take(i as int).push(iv[i as int]) =~= iv.take(i + 1));
                }
                let pair = map_ability(&a[i]);
                out.push(pair);
                i = i + 1;
            }
            proof {
                assert(iv.take(a@.len() as int) =~= iv);
            }
        },
        _ => {
            proof {
                assert(spec_members(abilities@) =~= Seq::<ValueView>::empty());
            }
        },
    }
    out
}

} // verus!
