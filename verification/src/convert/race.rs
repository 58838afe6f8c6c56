use vstd::prelude::*;
use vstd::string::StringExecFns;
use crate::value::Value;
use crate::value::ValueView;
use crate::value::spec_get;
use crate::value::spec_has_key;
use crate::value::spec_arr_view;
use crate::value::spec_fields_view;
use crate::value::value_view;
use crate::value::lemma_arr_view_len;
use crate::value::lemma_arr_view_index;
use crate::value::lemma_arr_view_push;
use crate::value::lemma_fields_view_len;
use crate::value::lemma_fields_view_index;
use crate::convert::ConvertError;
use crate::convert::res_view;
use crate::convert::entries::spec_members;

pub mod abilities;

pub mod name;
pub mod speed;
pub mod traits;

verus! {

/// The converter that turns a race document into normalized race records.
pub struct RaceConverter;

/// The normalized record of one race variant: its display name, walking
/// speed, six ability bonuses, flexible ability choices, and traits.
pub open spec fn spec_race_record(race: ValueView, nm: Seq<char>, t: (Seq<ValueView>, ValueView)) -> ValueView {
    ValueView::Obj(
        seq![
            ("name"@, ValueView::Str(nm)),
            ("speed"@, speed::spec_speed_value(race)),
            ("ability_bonuses"@, ValueView::Arr(t.0)),
            ("flex_ability_bonuses"@, t.1),
            ("traits"@, traits::spec_traits(spec_get(race, "entries"@))),
        ],
    )
}

/// The records of one race: one per ability-specification variant, each
/// under its variant name; a variant whose name is dropped (past the
/// suffix alphabet) yields no record.
pub open spec fn spec_race_records(
    race: ValueView,
    tuples: Seq<(Seq<ValueView>, ValueView)>,
    suffix: bool,
) -> Seq<ValueView>
    decreases tuples.len(),
{
    if tuples.len() == 0 {
        Seq::empty()
    } else {
        let init = spec_race_records(race, tuples.subrange(0, tuples.len() - 1), suffix);
        let idx = tuples.len() - 1;
        match name::spec_name(race, idx, suffix) {
            Some(nm) => init.push(spec_race_record(race, nm, tuples[idx])),
            None => init,
        }
    }
}

pub proof fn lemma_race_records_push(
    race: ValueView,
    tuples: Seq<(Seq<ValueView>, ValueView)>,
    suffix: bool,
    x: (Seq<ValueView>, ValueView),
)
    ensures
        spec_race_records(race, tuples.push(x), suffix) == (match name::spec_name(
            race,
            tuples.len() as int,
            suffix,
        ) {
            Some(nm) => spec_race_records(race, tuples, suffix).push(
                spec_race_record(race, nm, x),
            ),
            None => spec_race_records(race, tuples, suffix),
        }),
{
    let p = tuples.push(x);
    assert(p.subrange(0, p.len() - 1) =~= tuples);
}

/// The variant tuples of one race, from its ability field.
pub open spec fn spec_race_tuples(race: ValueView) -> Seq<(Seq<ValueView>, ValueView)> {
    abilities::spec_for_race(spec_members(spec_get(race, "ability"@)))
}

/// All records of a race list: each race's variant records, in order.
pub open spec fn spec_all_race_records(ms: Seq<ValueView>) -> Seq<ValueView>
    decreases ms.len(),
{
    if ms.len() == 0 {
        Seq::empty()
    } else {
        let last = ms[ms.len() - 1];
        let tuples = spec_race_tuples(last);
        spec_all_race_records(ms.subrange(0, ms.len() - 1)) + spec_race_records(
            last,
            tuples,
            tuples.len() > 1,
        )
    }
}

pub proof fn lemma_all_race_records_push(ms: Seq<ValueView>, x: ValueView)
    ensures
        spec_all_race_records(ms.push(x)) == spec_all_race_records(ms) + spec_race_records(
            x,
            spec_race_tuples(x),
            spec_race_tuples(x).len() > 1,
        ),
{
    let p = ms.push(x);
    assert(p.subrange(0, p.len() - 1) =~= ms);
}

/// What converting a race document yields: the record array when the
/// top-level `race` key is present, the structural error otherwise.
pub open spec fn spec_race_convert(v: ValueView) -> Result<ValueView, ConvertError> {
    if spec_has_key(v, "race"@) {
        Ok(ValueView::Arr(spec_all_race_records(spec_members(spec_get(v, "race"@)))))
    } else {
        Err(ConvertError::MissingRace)
    }
}

fn clone_values(v: &Vec<Value>) -> (r: Vec<Value>)
    ensures
        spec_arr_view(r@) == spec_arr_view(v@),
{
    let mut out: Vec<Value> = Vec::new();
    let mut i: usize = 0;
    while i < v.len()
        invariant
            i <= v.len(),
            out@.len() == i,
            forall|j: int| 0 <= j < i ==> #[trigger] value_view(out@[j]) == value_view(v@[j]),
        decreases v.len() - i,
    {
        let c = v[i].clone();
        out.push(c);
        i = i + 1;
    }
    proof {
        lemma_arr_view_len(out@);
        lemma_arr_view_len(v@);
        assert forall|j: int| 0 <= j < v@.len() implies spec_arr_view(out@)[j] == spec_arr_view(
            v@,
        )[j] by {
            lemma_arr_view_index(out@, j);
            lemma_arr_view_index(v@, j);
        }
        assert(spec_arr_view(out@) =~= spec_arr_view(v@));
    }
    out
}

fn race_record(race: &Value, nm: String, bonuses: &Vec<Value>, flex: &Value) -> (r: Value)
    ensures
        r@ == spec_race_record(race@, nm@, (spec_arr_view(bonuses@), flex@)),
{
    let speed_value = (match speed::for_race(race) {
        Some(n) => Value::Num(n),
        None => Value::Null,
    });
    let traits_value = (match race.get("entries") {
        Some(x) => traits::for_race(x),
        None => traits::for_race(&Value::Null),
    });
    let mut fields: Vec<(String, Value)> = Vec::new();
    fields.push((String::from_str("name"), Value::Str(nm)));
    fields.push((String::from_str("speed"), speed_value));
    fields.push((String::from_str("ability_bonuses"), Value::Arr(clone_values(bonuses))));
    fields.push((String::from_str("flex_ability_bonuses"), flex.clone()));
    fields.push((String::from_str("traits"), traits_value));
    proof {
        lemma_fields_view_len(fields@);
        lemma_fields_view_index(fields@, 0);
        lemma_fields_view_index(fields@, 1);
        lemma_fields_view_index(fields@, 2);
        lemma_fields_view_index(fields@, 3);
        lemma_fields_view_index(fields@, 4);
        assert(spec_fields_view(fields@) =~= spec_race_record(
            race@,
            nm@,
            (spec_arr_view(bonuses@), flex@),
        )->Obj_0);
    }
    Value::Obj(fields)
}

fn race_records(race: &Value) -> (r: Vec<Value>)
    ensures
        spec_arr_view(r@) == spec_race_records(
            race@,
            spec_race_tuples(race@),
            spec_race_tuples(race@).len() > 1,
        ),
{
    let tuples = (match race.get("ability") {
        Some(x) => abilities::for_race(x),
        None => abilities::for_race(&Value::Null),
    });
    let ghost tv = spec_race_tuples(race@);
    proof {
        assert(tuples@.len() == tv.len());
    }
    let suffix = tuples.len() > 1;
    let mut out: Vec<Value> = Vec::new();
    proof {
        assert(tv.take(0) =~= Seq::<(Seq<ValueView>, ValueView)>::empty());
        assert(spec_arr_view(out@) =~= spec_race_records(race@, tv.take(0), suffix));
    }
    let mut idx: usize = 0;
    while idx < tuples.len()
        invariant
            idx <= tuples.len(),
            tuples@.len() == tv.len(),
            suffix == (tv.len() > 1),
            forall|j: int|
                0 <= j < tv.len() ==> (spec_arr_view((#[trigger] tuples@[j]).0@) == tv[j].0
                    && tuples@[j].1@ == tv[j].1),
            spec_arr_view(out@) == spec_race_records(race@, tv.take(idx as int), suffix),
        decreases tuples.len() - idx,
    {
        proof {
            lemma_race_records_push(race@, tv.take(idx as int), suffix, tv[idx as int]);
            assert(tv.take(idx as int).push(tv[idx as int]) =~= tv.take(idx + 1));
        }
        match name::for_race(race, idx, suffix) {
            Some(nm) => {
                let rec = race_record(race, nm, &tuples[idx].0, &tuples[idx].1);
                proof {
                    lemma_arr_view_push(out@, rec);
                }
                out.push(rec);
            },
            None => {},
        }
        idx = idx + 1;
    }
    proof {
        assert(tv.take(tuples@.len() as int) =~= tv);
    }
    out
}

fn append_values(out: &mut Vec<Value>, mut more: Vec<Value>)
    ensures
        spec_arr_view(final(out)@) == spec_arr_view(old(out)@) + spec_arr_view(more@),
{
    let ghost base = out@;
    let ghost mv = more@;
    proof {
        lemma_arr_view_len(base);
        lemma_arr_view_len(mv);
        assert(mv.take(0) =~= Seq::<Value>::empty());
        assert(spec_arr_view(Seq::<Value>::empty()) =~= Seq::<ValueView>::empty());
        assert(spec_arr_view(out@) =~= spec_arr_view(base) + spec_arr_view(mv.take(0)));
    }
    let mut i: usize = 0;
    while i < more.len()
        invariant
            i <= more.len(),
            mv == more@,
            base.len() <= out@.len(),
            spec_arr_view(out@) == spec_arr_view(base) + spec_arr_view(mv.take(i as int)),
        decreases more.len() - i,
    {
        let c = more[i].clone();
        proof {
            lemma_arr_view_push(out@, c);
            lemma_arr_view_push(mv.take(i as int), mv[i as int]);
            assert(mv.take(i as int).push(mv[i as int]) =~= mv.take(i + 1));
            lemma_arr_view_index(mv, i as int);
            assert(value_view(c) == value_view(mv[i as int]));
        }
        out.push(c);
        i = i + 1;
    }
    proof {
        assert(mv.take(more@.len() as int) =~= mv);
    }
}

impl RaceConverter {
    /// Converts a race document into the array of its normalized records,
    /// one per ability-specification variant of each race; fails exactly
    /// when the top-level `race` key is missing.
    pub fn convert_json(&self, input: &Value) -> (r: Result<Value, ConvertError>)
        ensures
            res_view(r) == spec_race_convert(input@),
    {
        if !input.has_key("race") {
            return Err(ConvertError::MissingRace);
        }
        let mut out: Vec<Value> = Vec::new();
        match input.get("race") {
            Some(x) => {
                match x {
                    Value::Arr(a) => {
                        let ghost iv = spec_arr_view(a@);
                        proof {
                            lemma_arr_view_len(a@);
                            assert(iv.take(0) =~= Seq::<ValueView>::empty());
                            assert(spec_arr_view(out@) =~= spec_all_race_records(iv.take(0)));
                        }
                        let mut i: usize = 0;
                        while i < a.len()
                            invariant
                                i <= a.len(),
                                iv == spec_arr_view(a@),
                                iv.len() == a@.len(),
                                spec_arr_view(out@) == spec_all_race_records(iv.take(i as int)),
                            decreases a.len() - i,
                        {
                            proof {
                                lemma_arr_view_index(a@, i as int);
                                lemma_all_race_records_push(iv.take(i as int), iv[i as int]);
                                assert(iv.take(i as int).push(iv[i as int]) =~= iv.take(i + 1));
                            }
                            let recs = race_records(&a[i]);
                            append_values(&mut out, recs);
                            i = i + 1;
                        }
                        proof {
                            assert(iv.take(a@.len() as int) =~= iv);
                        }
                    },
                    _ => {
                        proof {
                            assert(spec_arr_view(out@) =~= spec_all_race_records(
                                spec_members(spec_get(input@, "race"@)),
                            ));
                        }
                    },
                }
            },
            None => {
                proof {
                    assert(spec_arr_view(out@) =~= spec_all_race_records(
                        spec_members(spec_get(input@, "race"@)),
                    ));
                }
            },
        }
        Ok(Value::Arr(out))
    }
}

} // verus!
