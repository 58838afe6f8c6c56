use vstd::prelude::*;
use vstd::string::StrSliceExecFns;
use vstd::string::StringExecFns;
use crate::value::Value;
use crate::value::ValueView;
use crate::value::spec_get;
use crate::value::spec_has_key;
use crate::value::spec_arr_view;
use crate::value::spec_fields_view;
use crate::value::lemma_arr_view_len;
use crate::value::lemma_arr_view_index;
use crate::value::lemma_arr_view_push;
use crate::value::lemma_fields_view_len;
use crate::value::lemma_fields_view_index;
use crate::convert::ConvertError;
use crate::convert::res_view;
use crate::convert::entries;
use crate::convert::entries::spec_members;
use crate::convert::entries::spec_entries_text;
use crate::convert::entries::spec_plain_text;
use crate::convert::entries::plain_text;
use crate::convert::entries::opt_push;
use crate::convert::util::spec_join;
use crate::convert::util::join_with;

pub mod prerequisite;
pub mod skills;

verus! {

/// The converter that turns a feat document into normalized feat records.
pub struct FeatConverter;

/// The first member of an array value; `Null` for anything else.
pub open spec fn spec_index0(v: ValueView) -> ValueView {
    match v {
        ValueView::Arr(a) => if a.len() > 0 {
            a[0]
        } else {
            ValueView::Null
        },
        _ => ValueView::Null,
    }
}

/// The skill list and free-choice count of a feat: parsed from the first
/// skill-proficiency specification, an empty list and zero choices when
/// nothing parses.
pub open spec fn spec_feat_skills(f: ValueView) -> (ValueView, int) {
    match skills::spec_skills_parse(spec_index0(spec_get(f, "skillProficiencies"@))) {
        Some(p) => p,
        None => (ValueView::Arr(Seq::empty()), 0),
    }
}

/// The description of a feat: its prerequisite sentence (when any) and its
/// rendered entries (when any), joined by a blank line.
pub open spec fn spec_feat_desc(f: ValueView) -> Seq<char> {
    let pr = prerequisite::spec_prereq_text(spec_get(f, "prerequisite"@));
    let parts0: Seq<Seq<char>> = if pr.len() == 0 {
        Seq::empty()
    } else {
        Seq::empty().push(pr)
    };
    let parts = opt_push(parts0, spec_entries_text(spec_get(f, "entries"@)));
    spec_join(parts, "\n\n"@)
}

/// The normalized record of one feat: its name as plain text, its
/// description, and its skill choices.
pub open spec fn spec_feat_record(f: ValueView) -> ValueView {
    ValueView::Obj(
        seq![
            ("name"@, ValueView::Str(spec_plain_text(spec_get(f, "name"@)))),
            ("desc"@, ValueView::Str(spec_feat_desc(f))),
            ("skills_count_choose"@, ValueView::Num(spec_feat_skills(f).1)),
            ("skills"@, spec_feat_skills(f).0),
        ],
    )
}

/// The records of a feat list, one per feat, in order.
pub open spec fn spec_feat_records(ms: Seq<ValueView>) -> Seq<ValueView>
    decreases ms.len(),
{
    if ms.len() == 0 {
        Seq::empty()
    } else {
        spec_feat_records(ms.subrange(0, ms.len() - 1)).push(spec_feat_record(ms[ms.len() - 1]))
    }
}

pub proof fn lemma_feat_records_push(ms: Seq<ValueView>, x: ValueView)
    ensures
        spec_feat_records(ms.push(x)) == spec_feat_records(ms).push(spec_feat_record(x)),
{
    let p = ms.push(x);
    assert(p.subrange(0, p.len() - 1) =~= ms);
}

/// What converting a feat document yields: the record array when the
/// top-level `feat` key is present, the structural error otherwise.
pub open spec fn spec_feat_convert(v: ValueView) -> Result<ValueView, ConvertError> {
    if spec_has_key(v, "feat"@) {
        Ok(ValueView::Arr(spec_feat_records(spec_members(spec_get(v, "feat"@)))))
    } else {
        Err(ConvertError::MissingFeat)
    }
}

/// Builds the record of one feat.
fn feat_record(f: &Value) -> (r: Value)
    ensures
        r@ == spec_feat_record(f@),
{
    let name = (match f.get("name") {
        Some(x) => plain_text(x),
        None => String::from_str("null"),
    });
    let mut desc_parts: Vec<String> = Vec::new();
    let pr = (match f.get("prerequisite") {
        Some(x) => prerequisite::to_string(x),
        None => prerequisite::to_string(&Value::Null),
    });
    if pr.as_str().unicode_len() > 0 {
        desc_parts.push(pr);
    }
    let ghost parts0 = (if prerequisite::spec_prereq_text(spec_get(f@, "prerequisite"@)).len()
        == 0 {
        Seq::<Seq<char>>::empty()
    } else {
        Seq::<Seq<char>>::empty().push(
            prerequisite::spec_prereq_text(spec_get(f@, "prerequisite"@)),
        )
    });
    proof {
        assert(desc_parts.deep_view() =~= parts0);
    }
    let ent = (match f.get("entries") {
        Some(x) => entries::to_string(x),
        None => entries::to_string(&Value::Null),
    });
    if let Some(t) = ent {
        desc_parts.push(t);
    }
    proof {
        assert(desc_parts.deep_view() =~= opt_push(
            parts0,
            spec_entries_text(spec_get(f@, "entries"@)),
        ));
    }
    let desc = join_with(&desc_parts, "\n\n");
    let first_opt: Option<&Value> = (match f.get("skillProficiencies") {
        Some(x) => match x {
            Value::Arr(a) => if a.len() > 0 {
                proof {
                    lemma_arr_view_len(a@);
                    lemma_arr_view_index(a@, 0);
                }
                Some(&a[0])
            } else {
                proof {
                    lemma_arr_view_len(a@);
                }
                None
            },
            _ => None,
        },
        None => None,
    });
    let sk = (match first_opt {
        Some(x) => skills::parse(x),
        None => skills::parse(&Value::Null),
    });
    let skill_pair = (match sk {
        Some(p) => p,
        None => (Value::Arr(Vec::new()), 0u8),
    });
    proof {
        assert(spec_arr_view(Seq::<Value>::empty()) =~= Seq::<ValueView>::empty());
    }
    let mut fields: Vec<(String, Value)> = Vec::new();
    fields.push((String::from_str("name"), Value::Str(name)));
    fields.push((String::from_str("desc"), Value::Str(desc)));
    fields.push((String::from_str("skills_count_choose"), Value::Num(skill_pair.1 as i64)));
    fields.push((String::from_str("skills"), skill_pair.0));
    proof {
        lemma_fields_view_len(fields@);
        lemma_fields_view_index(fields@, 0);
        lemma_fields_view_index(fields@, 1);
        lemma_fields_view_index(fields@, 2);
        lemma_fields_view_index(fields@, 3);
        assert(spec_fields_view(fields@) =~= spec_feat_record(f@)->Obj_0);
    }
    Value::Obj(fields)
}

impl FeatConverter {
    /// The prerequisite sentence for a feat's prerequisite clause list.
    pub fn prerequisite_to_string(&self, from: &Value) -> (r: String)
        ensures
            r@ == prerequisite::spec_prereq_text(from@),
    {
        prerequisite::to_string(from)
    }

    /// Converts a feat document into the array of its normalized records;
    /// fails exactly when the top-level `feat` key is missing.
    pub fn convert_json(&self, input: &Value) -> (r: Result<Value, ConvertError>)
        ensures
            res_view(r) == spec_feat_convert(input@),
    {
        if !input.has_key("feat") {
            return Err(ConvertError::MissingFeat);
        }
        let mut out: Vec<Value> = Vec::new();
        match input.get("feat") {
            Some(x) => {
                match x {
                    Value::Arr(a) => {
                        let ghost iv = spec_arr_view(a@);
                        proof {
                            lemma_arr_view_len(a@);
                            assert(iv.take(0) =~= Seq::<ValueView>::empty());
                            assert(spec_arr_view(out@) =~= spec_feat_records(iv.take(0)));
                        }
                        let mut i: usize = 0;
                        while i < a.len()
                            invariant
                                i <= a.len(),
                                iv == spec_arr_view(a@),
                                iv.len() == a@.len(),
                                spec_arr_view(out@) == spec_feat_records(iv.take(i as int)),
                            decreases a.len() - i,
                        {
                            proof {
                                lemma_arr_view_index(a@, i as int);
                                lemma_feat_records_push(iv.take(i as int), iv[i as int]);
                                assert(iv.take(i as int).push(iv[i as int]) =~= iv.take(i + 1));
                            }
                            let rec = feat_record(&a[i]);
                            proof {
                                lemma_arr_view_push(out@, rec);
                            }
                            out.push(rec);
                            i = i + 1;
                        }
                        proof {
                            assert(iv.take(a@.len() as int) =~= iv);
                        }
                    },
                    _ => {
                        proof {
                            assert(spec_arr_view(out@) =~= spec_feat_records(
                                spec_members(spec_get(input@, "feat"@)),
                            ));
                        }
                    },
                }
            },
            None => {
                proof {
                    assert(spec_arr_view(out@) =~= spec_feat_records(
                        spec_members(spec_get(input@, "feat"@)),
                    ));
                }
            },
        }
        Ok(Value::Arr(out))
    }
}

} // verus!
