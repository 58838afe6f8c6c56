use vstd::prelude::*;
use vstd::string::StringExecFns;
use crate::value::Value;
use crate::value::ValueView;
use crate::value::spec_get;
use crate::value::spec_arr_view;
use crate::value::spec_fields_view;
use crate::value::lemma_arr_view_len;
use crate::value::lemma_arr_view_index;
use crate::value::lemma_arr_view_push;
use crate::value::lemma_fields_view_len;
use crate::value::lemma_fields_view_index;
use crate::value::spec_obj_fields;

verus! {

/// The full list of skills offered when a feat grants a free choice.
pub open spec fn spec_all_skills() -> Seq<ValueView> {
    seq![
        ValueView::Str("Acrobatics"@),
        ValueView::Str("Animal Handling"@),
        ValueView::Str("Arcana"@),
        ValueView::Str("Athletics"@),
        ValueView::Str("Deception"@),
        ValueView::Str("History"@),
        ValueView::Str("Insight"@),
        ValueView::Str("Intimidation"@),
        ValueView::Str("Investigation"@),
        ValueView::Str("Medicine"@),
        ValueView::Str("Nature"@),
        ValueView::Str("Perception"@),
        ValueView::Str("Performance"@),
        ValueView::Str("Persuasion"@),
        ValueView::Str("Religion"@),
        ValueView::Str("Sleight of Hand"@),
        ValueView::Str("Stealth"@),
        ValueView::Str("Survival"@),
    ]
}

/// The array value holding every skill name.
pub fn all_skills() -> (r: Value)
    ensures
        r@ == ValueView::Arr(spec_all_skills()),
{
    let mut v: Vec<Value> = Vec::new();
    v.push(Value::Str(String::from_str("Acrobatics")));
    v.push(Value::Str(String::from_str("Animal Handling")));
    v.push(Value::Str(String::from_str("Arcana")));
    v.push(Value::Str(String::from_str("Athletics")));
    v.push(Value::Str(String::from_str("Deception")));
    v.push(Value::Str(String::from_str("History")));
    v.push(Value::Str(String::from_str("Insight")));
    v.push(Value::Str(String::from_str("Intimidation")));
    v.push(Value::Str(String::from_str("Investigation")));
    v.push(Value::Str(String::from_str("Medicine")));
    v.push(Value::Str(String::from_str("Nature")));
    v.push(Value::Str(String::from_str("Perception")));
    v.push(Value::Str(String::from_str("Performance")));
    v.push(Value::Str(String::from_str("Persuasion")));
    v.push(Value::Str(String::from_str("Religion")));
    v.push(Value::Str(String::from_str("Sleight of Hand")));
    v.push(Value::Str(String::from_str("Stealth")));
    v.push(Value::Str(String::from_str("Survival")));
    proof {
        lemma_arr_view_len(v@);
        assert forall|j: int| 0 <= j < v@.len() implies spec_arr_view(v@)[j]
            == spec_all_skills()[j] by {
            lemma_arr_view_index(v@, j);
        }
        assert(spec_arr_view(v@) =~= spec_all_skills());
    }
    Value::Arr(v)
}

/// The keys of the fields whose value is exactly `true`, in field order,
/// each as a string value.
pub open spec fn spec_true_keys(fs: Seq<(Seq<char>, ValueView)>) -> Seq<ValueView>
    decreases fs.len(),
{
    if fs.len() == 0 {
        Seq::empty()
    } else {
        let init = spec_true_keys(fs.subrange(0, fs.len() - 1));
        if fs[fs.len() - 1].1 == ValueView::Bool(true) {
            init.push(ValueView::Str(fs[fs.len() - 1].0))
        } else {
            init
        }
    }
}

pub proof fn lemma_true_keys_push(fs: Seq<(Seq<char>, ValueView)>, x: (Seq<char>, ValueView))
    ensures
        spec_true_keys(fs.push(x)) == (if x.1 == ValueView::Bool(true) {
            spec_true_keys(fs).push(ValueView::Str(x.0))
        } else {
            spec_true_keys(fs)
        }),
{
    let p = fs.push(x);
    assert(p.subrange(0, p.len() - 1) =~= fs);
}

/// What the skill-proficiency parser yields for one specification: a free
/// choice among listed skills (`choose.from`, count 1), a free choice among
/// all skills (`any` with its count), the fixed skills whose flags are
/// `true` (count 0), or nothing.
pub open spec fn spec_skills_parse(v: ValueView) -> Option<(ValueView, int)> {
    let from = spec_get(spec_get(v, "choose"@), "from"@);
    if from is Arr {
        Some((from, 1))
    } else if spec_get(v, "any"@) is Num {
        let n = spec_get(v, "any"@)->Num_0;
        if 0 <= n <= 255 {
            Some((ValueView::Arr(spec_all_skills()), n))
        } else {
            None
        }
    } else {
        let keys = spec_true_keys(spec_obj_fields(v));
        if keys.len() == 0 {
            None
        } else {
            Some((ValueView::Arr(keys), 0))
        }
    }
}

/// Parses one skill-proficiency specification into the offered skill list
/// and the number of free choices.
pub fn parse(skills: &Value) -> (r: Option<(Value, u8)>)
    ensures
        (match r {
            Some(p) => Some((p.0@, p.1 as int)),
            None => None,
        }) == spec_skills_parse(skills@),
{
    let from_opt = (match skills.get("choose") {
        Some(ch) => ch.get("from"),
        None => None,
    });
    if let Some(x) = from_opt {
        if let Value::Arr(_) = x {
            return Some((x.clone(), 1));
        }
    }
    match skills.get("any") {
        Some(x) => {
            if let Value::Num(n) = x {
                if 0 <= *n && *n <= 255 {
                    return Some((all_skills(), *n as u8));
                } else {
                    return None;
                }
            }
        },
        None => {},
    }
    let mut keys: Vec<Value> = Vec::new();
    match skills {
        Value::Obj(fs) => {
            let ghost fv = spec_fields_view(fs@);
            proof {
                lemma_fields_view_len(fs@);
                assert(fv.take(0) =~= Seq::<(Seq<char>, ValueView)>::empty());
                assert(spec_arr_view(keys@) =~= spec_true_keys(fv.take(0)));
            }
            let mut i: usize = 0;
            while i < fs.len()
                invariant
                    i <= fs.len(),
                    fv == spec_fields_view(fs@),
                    fv.len() == fs@.len(),
                    skills@ == ValueView::Obj(fv),
                    spec_arr_view(keys@) == spec_true_keys(fv.take(i as int)),
                decreases fs.len() - i,
            {
                proof {
                    lemma_fields_view_index(fs@, i as int);
                    lemma_true_keys_push(fv.take(i as int), fv[i as int]);
                    assert(fv.take(i as int).push(fv[i as int]) =~= fv.take(i + 1));
                }
                let is_true = (match &fs[i].1 {
                    Value::Bool(b) => *b,
                    _ => false,
                });
                if is_true {
                    let k = Value::Str(fs[i].0.clone());
                    proof {
                        lemma_arr_view_push(keys@, k);
                    }
                    keys.push(k);
                }
                i = i + 1;
            }
            proof {
                assert(fv.take(fs@.len() as int) =~= fv);
            }
        },
        _ => {
            proof {
                assert(spec_arr_view(keys@) =~= spec_true_keys(spec_obj_fields(skills@)));
            }
        },
    }
    if keys.len() == 0 {
        proof {
            lemma_arr_view_len(keys@);
        }
        None
    } else {
        proof {
            lemma_arr_view_len(keys@);
        }
        Some((Value::Arr(keys), 0))
    }
}

} // verus!
