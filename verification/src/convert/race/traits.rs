use vstd::prelude::*;
use vstd::string::StringExecFns;
use crate::value::Value;
use crate::value::ValueView;
use crate::value::spec_get;
use crate::value::spec_arr_view;
use crate::value::spec_fields_view;
use crate::value::lemma_arr_view_len;
use crate::value::lemma_arr_view_index;
use crate::value::lemma_arr_view_push;
use crate::value::lemma_fields_view_len;
use crate::value::lemma_fields_view_index;
use crate::convert::entries;
use crate::convert::entries::spec_members;
use crate::convert::entries::spec_entries_text;
use crate::convert::entries::spec_plain_text;
use crate::convert::entries::plain_text;

verus! {

/// The record of one trait: its name as plain text and the rendered prose
/// of its entries (null when nothing renders).
pub open spec fn spec_trait_record(t: ValueView) -> ValueView {
    ValueView::Obj(
        seq![
            ("name"@, ValueView::Str(spec_plain_text(spec_get(t, "name"@)))),
            (
                "desc"@,
                (match spec_entries_text(spec_get(t, "entries"@)) {
                    Some(s) => ValueView::Str(s),
                    None => ValueView::Null,
                }),
            ),
        ],
    )
}

/// The trait records of a trait list, in order.
pub open spec fn spec_trait_records(ms: Seq<ValueView>) -> Seq<ValueView>
    decreases ms.len(),
{
    if ms.len() == 0 {
        Seq::empty()
    } else {
        spec_trait_records(ms.subrange(0, ms.len() - 1)).push(
            spec_trait_record(ms[ms.len() - 1]),
        )
    }
}

pub proof fn lemma_trait_records_push(ms: Seq<ValueView>, x: ValueView)
    ensures
        spec_trait_records(ms.push(x)) == spec_trait_records(ms).push(spec_trait_record(x)),
{
    let p = ms.push(x);
    assert(p.subrange(0, p.len() - 1) =~= ms);
}

/// The traits field of a race record: one record per member of the trait
/// list.
pub open spec fn spec_traits(ts: ValueView) -> ValueView {
    ValueView::Arr(spec_trait_records(spec_members(ts)))
}

fn trait_record(t: &Value) -> (r: Value)
    ensures
        r@ == spec_trait_record(t@),
{
    let name = (match t.get("name") {
        Some(x) => plain_text(x),
        None => String::from_str("null"),
    });
    let desc = (match t.get("entries") {
        Some(x) => entries::to_string(x),
        None => entries::to_string(&Value::Null),
    });
    let desc_value = (match desc {
        Some(s) => Value::Str(s),
        None => Value::Null,
    });
    let mut fields: Vec<(String, Value)> = Vec::new();
    fields.push((String::from_str("name"), Value::Str(name)));
    fields.push((String::from_str("desc"), desc_value));
    proof {
        lemma_fields_view_len(fields@);
        lemma_fields_view_index(fields@, 0);
        lemma_fields_view_index(fields@, 1);
        assert(spec_fields_view(fields@) =~= spec_trait_record(t@)->Obj_0);
    }
    Value::Obj(fields)
}

/// Builds the trait records for a race's trait list.
pub fn for_race(traits: &Value) -> (r: Value)
    ensures
        r@ == spec_traits(traits@),
{
    let mut out: Vec<Value> = Vec::new();
    match traits {
        Value::Arr(a) => {
            let ghost iv = spec_arr_view(a@);
            proof {
                lemma_arr_view_len(a@);
                assert(iv.take(0) =~= Seq::<ValueView>::empty());
                assert(spec_arr_view(out@) =~= spec_trait_records(iv.take(0)));
            }
            let mut i: usize = 0;
            while i < a.len()
                invariant
                    i <= a.len(),
                    iv == spec_arr_view(a@),
                    iv.len() == a@.len(),
                    spec_arr_view(out@) == spec_trait_records(iv.take(i as int)),
                decreases a.len() - i,
            {
                proof {
                    lemma_arr_view_index(a@, i as int);
                    lemma_trait_records_push(iv.take(i as int), iv[i as int]);
                    assert(iv.take(i as int).push(iv[i as int]) =~= iv.take(i + 1));
                }
                let rec = trait_record(&a[i]);
                proof {
                    lemma_arr_view_push(out@, rec);
                }
                out.push(rec);
                i = i + 1;
            }
            proof {
                assert(iv.take(a@.len() as int) =~= iv);
            }
        },
        _ => {
            proof {
                assert(spec_arr_view(out@) =~= spec_trait_records(spec_members(traits@)));
            }
        },
    }
    Value::Arr(out)
}

} // verus!
