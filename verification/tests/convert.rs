use retool::convert::race::RaceConverter;
use retool::convert::feat::FeatConverter;
use retool::convert::ConvertError;
use retool::value::Value;
use retool::Converter;

fn s(x: &str) -> Value {
    Value::Str(x.to_string())
}

fn num(n: i64) -> Value {
    Value::Num(n)
}

fn arr(v: Vec<Value>) -> Value {
    Value::Arr(v)
}

fn obj(fields: Vec<(&str, Value)>) -> Value {
    Value::Obj(fields.into_iter().map(|(k, v)| (k.to_string(), v)).collect())
}

#[test]
fn convert_dummy_convert_string() {
    let mut data = json::JsonValue::new_object();
    data.insert("data", "dummy").expect("insert");
    let input = data.pretty(4);
    let output = Converter::Dummy.convert_string(&input).expect("convert string");
    assert_eq!(input, output);
}

#[test]
fn convert_dummy_convert_json() {
    let input = obj(vec![("data", s("dummy"))]);
    let output = Converter::Dummy.convert_json(input.clone()).expect("convert json");
    assert_eq!(input, output);
}

#[test]
fn lib_dummy_convert_string() {
    let mut data = json::JsonValue::new_object();
    data.insert("data", "dummy").expect("insert");
    let input = data.pretty(4);
    let output = retool::convert_string(Converter::Dummy, &input).expect("convert string");
    assert_eq!(input, output);
}

#[test]
fn lib_dummy_convert_json() {
    let input = obj(vec![("data", s("dummy"))]);
    let output = retool::convert_json(Converter::Dummy, input.clone()).expect("convert json");
    assert_eq!(input, output);
}

#[test]
fn feat_missing_key_is_structural_error() {
    let output = FeatConverter.convert_json(&obj(vec![]));
    assert_eq!(output, Err(ConvertError::MissingFeat));
    assert_eq!(
        ConvertError::MissingFeat.message(),
        "expected feat array in object: { \"feat\": [] }"
    );
}

#[test]
fn race_missing_key_is_structural_error() {
    let output = RaceConverter.convert_json(&obj(vec![]));
    assert_eq!(output, Err(ConvertError::MissingRace));
    assert_eq!(
        ConvertError::MissingRace.message(),
        "expected race array in object: { \"race\": [] }"
    );
}

#[test]
fn convert_string_missing_key_is_structural_error() {
    let output = Converter::Feat.convert_string("{}");
    assert_eq!(output, Err(ConvertError::MissingFeat));
}

#[test]
fn convert_string_rejects_malformed_text() {
    let output = Converter::Feat.convert_string("{feat");
    assert_eq!(output, Err(ConvertError::Parse));
}

#[test]
fn feat_convert_builds_records() {
    let input = obj(vec![(
        "feat",
        arr(vec![obj(vec![
            ("name", s("Grappler")),
            ("prerequisite", arr(vec![obj(vec![("level", num(4))])])),
            ("entries", arr(vec![s("You are good at grappling.")])),
        ])]),
    )]);
    let expected = arr(vec![obj(vec![
        ("name", s("Grappler")),
        (
            "desc",
            s("Prerequisite: 4th level\n\nYou are good at grappling."),
        ),
        ("skills_count_choose", num(0)),
        ("skills", arr(vec![])),
    ])]);
    let output = FeatConverter.convert_json(&input).expect("convert json");
    assert_eq!(output, expected);
}

#[test]
fn feat_convert_string_round_trips_through_serializer() {
    let input = "{\"feat\":[{\"name\":\"Grappler\",\"prerequisite\":[{\"level\":4}]}]}";
    let mut record = json::JsonValue::new_object();
    record.insert("name", "Grappler").expect("insert");
    record.insert("desc", "Prerequisite: 4th level").expect("insert");
    record.insert("skills_count_choose", 0).expect("insert");
    record
        .insert("skills", json::JsonValue::new_array())
        .expect("insert");
    let mut expected_doc = json::JsonValue::new_array();
    expected_doc.push(record).expect("push");
    let expected = expected_doc.pretty(4);
    let output = Converter::Feat.convert_string(input).expect("convert string");
    assert_eq!(output, expected);
}

#[test]
fn race_convert_str_and_dex_only() {
    let input = obj(vec![
        ("name", s("Name 1")),
        ("source", s("Source 1")),
        ("speed", obj(vec![("walk", num(10))])),
        ("ability", arr(vec![obj(vec![("str", num(1)), ("dex", num(2))])])),
        ("entries", arr(vec![])),
    ]);
    let expected = obj(vec![
        ("name", s("Name 1 (Source 1)")),
        ("speed", num(10)),
        (
            "ability_bonuses",
            arr(vec![num(1), num(2), num(0), num(0), num(0), num(0)]),
        ),
        ("flex_ability_bonuses", Value::Null),
        ("traits", arr(vec![])),
    ]);
    let output = RaceConverter
        .convert_json(&obj(vec![("race", arr(vec![input]))]))
        .expect("convert json");
    assert_eq!(output, arr(vec![expected]));
}

#[test]
fn race_convert_con_and_cha_only() {
    let input = obj(vec![
        ("name", s("Name 2")),
        ("source", s("Source 2")),
        ("speed", obj(vec![("walk", num(20))])),
        ("ability", arr(vec![obj(vec![("con", num(3)), ("cha", num(6))])])),
        ("entries", arr(vec![])),
    ]);
    let expected = obj(vec![
        ("name", s("Name 2 (Source 2)")),
        ("speed", num(20)),
        (
            "ability_bonuses",
            arr(vec![num(0), num(0), num(3), num(0), num(0), num(6)]),
        ),
        ("flex_ability_bonuses", Value::Null),
        ("traits", arr(vec![])),
    ]);
    let output = RaceConverter
        .convert_json(&obj(vec![("race", arr(vec![input]))]))
        .expect("convert json");
    assert_eq!(output, arr(vec![expected]));
}

#[test]
fn race_convert_int_and_wis_only() {
    let input = obj(vec![
        ("name", s("Name 3")),
        ("source", s("Source 3")),
        ("speed", obj(vec![("walk", num(30))])),
        ("ability", arr(vec![obj(vec![("int", num(4)), ("wis", num(5))])])),
        ("entries", arr(vec![])),
    ]);
    let expected = obj(vec![
        ("name", s("Name 3 (Source 3)")),
        ("speed", num(30)),
        (
            "ability_bonuses",
            arr(vec![num(0), num(0), num(0), num(4), num(5), num(0)]),
        ),
        ("flex_ability_bonuses", Value::Null),
        ("traits", arr(vec![])),
    ]);
    let output = RaceConverter
        .convert_json(&obj(vec![("race", arr(vec![input]))]))
        .expect("convert json");
    assert_eq!(output, arr(vec![expected]));
}

#[test]
fn race_convert_choose_one() {
    let input = obj(vec![
        ("name", s("Name 4")),
        ("source", s("Source 4")),
        ("speed", obj(vec![("walk", num(40))])),
        (
            "ability",
            arr(vec![obj(vec![("choose", obj(vec![("count", num(1))]))])]),
        ),
        ("entries", arr(vec![])),
    ]);
    let expected = obj(vec![
        ("name", s("Name 4 (Source 4)")),
        ("speed", num(40)),
        (
            "ability_bonuses",
            arr(vec![num(0), num(0), num(0), num(0), num(0), num(0)]),
        ),
        ("flex_ability_bonuses", arr(vec![num(1)])),
        ("traits", arr(vec![])),
    ]);
    let output = RaceConverter
        .convert_json(&obj(vec![("race", arr(vec![input]))]))
        .expect("convert json");
    assert_eq!(output, arr(vec![expected]));
}

#[test]
fn race_convert_choose_two() {
    let input = obj(vec![
        ("name", s("Name 5")),
        ("source", s("Source 5")),
        ("speed", obj(vec![("walk", num(50))])),
        (
            "ability",
            arr(vec![obj(vec![("choose", obj(vec![("count", num(2))]))])]),
        ),
        ("entries", arr(vec![])),
    ]);
    let expected = obj(vec![
        ("name", s("Name 5 (Source 5)")),
        ("speed", num(50)),
        (
            "ability_bonuses",
            arr(vec![num(0), num(0), num(0), num(0), num(0), num(0)]),
        ),
        ("flex_ability_bonuses", arr(vec![num(1), num(1)])),
        ("traits", arr(vec![])),
    ]);
    let output = RaceConverter
        .convert_json(&obj(vec![("race", arr(vec![input]))]))
        .expect("convert json");
    assert_eq!(output, arr(vec![expected]));
}

#[test]
fn race_convert_choose_one_amount_two() {
    let input = obj(vec![
        ("name", s("Name 6")),
        ("source", s("Source 6")),
        ("speed", obj(vec![("walk", num(60))])),
        (
            "ability",
            arr(vec![obj(vec![(
                "choose",
                obj(vec![("count", num(1)), ("amount", num(2))]),
            )])]),
        ),
        ("entries", arr(vec![])),
    ]);
    let expected = obj(vec![
        ("name", s("Name 6 (Source 6)")),
        ("speed", num(60)),
        (
            "ability_bonuses",
            arr(vec![num(0), num(0), num(0), num(0), num(0), num(0)]),
        ),
        ("flex_ability_bonuses", arr(vec![num(2)])),
        ("traits", arr(vec![])),
    ]);
    let output = RaceConverter
        .convert_json(&obj(vec![("race", arr(vec![input]))]))
        .expect("convert json");
    assert_eq!(output, arr(vec![expected]));
}

#[test]
fn race_convert_two_variants_take_letter_suffixes() {
    let weighted = |weights: Vec<i64>| {
        obj(vec![(
            "choose",
            obj(vec![(
                "weighted",
                obj(vec![("weights", arr(weights.into_iter().map(num).collect()))]),
            )]),
        )])
    };
    let input = obj(vec![
        ("name", s("Lineage")),
        ("source", s("Src")),
        ("speed", num(30)),
        ("ability", arr(vec![weighted(vec![2, 1]), weighted(vec![1, 1, 1])])),
        ("entries", arr(vec![])),
    ]);
    let output = RaceConverter
        .convert_json(&obj(vec![("race", arr(vec![input]))]))
        .expect("convert json");
    let zeros = arr(vec![num(0), num(0), num(0), num(0), num(0), num(0)]);
    let expected = arr(vec![
        obj(vec![
            ("name", s("Lineage A (Src)")),
            ("speed", num(30)),
            ("ability_bonuses", zeros.clone()),
            ("flex_ability_bonuses", arr(vec![num(2), num(1)])),
            ("traits", arr(vec![])),
        ]),
        obj(vec![
            ("name", s("Lineage B (Src)")),
            ("speed", num(30)),
            ("ability_bonuses", zeros),
            ("flex_ability_bonuses", arr(vec![num(1), num(1), num(1)])),
            ("traits", arr(vec![])),
        ]),
    ]);
    assert_eq!(output, expected);
}

#[test]
fn prerequisite_level_only() {
    let clauses = arr(vec![obj(vec![("level", num(4))])]);
    let output = FeatConverter.prerequisite_to_string(&clauses);
    assert_eq!(output, "Prerequisite: 4th level");
}

#[test]
fn prerequisite_race_precedes_ability() {
    let clauses = arr(vec![
        obj(vec![("ability", arr(vec![obj(vec![("str", num(13))])]))]),
        obj(vec![("race", arr(vec![obj(vec![("name", s("Elf"))])]))]),
    ]);
    let output = FeatConverter.prerequisite_to_string(&clauses);
    assert_eq!(output, "Prerequisites: Elf, Strength 13 or higher");
}

#[test]
fn prerequisite_two_abilities_take_max_threshold() {
    let clauses = arr(vec![obj(vec![(
        "ability",
        arr(vec![obj(vec![("int", num(13))]), obj(vec![("wis", num(13))])]),
    )])]);
    let output = FeatConverter.prerequisite_to_string(&clauses);
    assert_eq!(output, "Prerequisite: Intelligence or Wisdom 13 or higher");
}

#[test]
fn prerequisite_spellcasting_flags() {
    let clauses = arr(vec![obj(vec![("spellcasting", Value::Bool(true))])]);
    let output = FeatConverter.prerequisite_to_string(&clauses);
    assert_eq!(output, "Prerequisite: The ability to cast at least one spell");
    let clauses = arr(vec![obj(vec![("spellcasting2020", Value::Bool(true))])]);
    let output = FeatConverter.prerequisite_to_string(&clauses);
    assert_eq!(output, "Prerequisite: Spellcasting or Pact Magic feature");
}

#[test]
fn prerequisite_proficiency_set() {
    let clauses = arr(vec![obj(vec![(
        "proficiency",
        arr(vec![obj(vec![("armor", s("light"))])]),
    )])]);
    let output = FeatConverter.prerequisite_to_string(&clauses);
    assert_eq!(output, "Prerequisite: Proficiency with light armor");
    let clauses = arr(vec![obj(vec![(
        "proficiency",
        arr(vec![obj(vec![("armor", s("medium")), ("weapon", s("martial"))])]),
    )])]);
    let output = FeatConverter.prerequisite_to_string(&clauses);
    assert_eq!(
        output,
        "Prerequisite: Proficiency with medium armor and a martial weapon"
    );
}

#[test]
fn prerequisite_or_fragment_joins_with_semicolon() {
    let clauses = arr(vec![obj(vec![
        ("level", num(4)),
        ("ability", arr(vec![obj(vec![("str", num(13))])])),
    ])]);
    let output = FeatConverter.prerequisite_to_string(&clauses);
    assert_eq!(output, "Prerequisite: 4th level; Strength 13 or higher");
}

#[test]
fn prerequisite_race_names_are_title_cased() {
    let clauses = arr(vec![obj(vec![(
        "race",
        arr(vec![
            obj(vec![("name", s("elf"))]),
            obj(vec![("name", s("half-orc"))]),
            obj(vec![("name", s("human")), ("subrace", s("variant"))]),
        ]),
    )])]);
    let output = FeatConverter.prerequisite_to_string(&clauses);
    assert_eq!(
        output,
        "Prerequisite: Elf, Half-Orc, or Human (variant)"
    );
}

#[test]
fn prerequisite_alignment_combinations() {
    let clauses = arr(vec![obj(vec![("alignment", arr(vec![s("L"), s("G")]))])]);
    assert_eq!(
        FeatConverter.prerequisite_to_string(&clauses),
        "Prerequisite: lawful good"
    );
    let clauses = arr(vec![obj(vec![(
        "alignment",
        arr(vec![s("N"), s("NX"), s("NY")]),
    )])]);
    assert_eq!(
        FeatConverter.prerequisite_to_string(&clauses),
        "Prerequisite: any neutral alignment"
    );
    let clauses = arr(vec![obj(vec![(
        "alignment",
        arr(vec![s("L"), s("NX"), s("C"), s("NY"), s("G")]),
    )])]);
    assert_eq!(
        FeatConverter.prerequisite_to_string(&clauses),
        "Prerequisite: any non-evil alignment"
    );
}

#[test]
fn prerequisite_other_passes_through_and_note_is_ignored() {
    let clauses = arr(vec![obj(vec![
        ("other", s("a bag of rats")),
        ("note", s("ignored")),
    ])]);
    let output = FeatConverter.prerequisite_to_string(&clauses);
    assert_eq!(output, "Prerequisite: a bag of rats");
}

#[test]
fn prerequisite_empty_renders_nothing() {
    assert_eq!(FeatConverter.prerequisite_to_string(&arr(vec![])), "");
    assert_eq!(FeatConverter.prerequisite_to_string(&Value::Null), "");
}

#[test]
fn prerequisite_level_object_form() {
    let clauses = arr(vec![obj(vec![(
        "level",
        obj(vec![
            ("level", num(3)),
            (
                "class",
                obj(vec![("name", s("Warlock")), ("visible", Value::Bool(true))]),
            ),
        ]),
    )])]);
    let output = FeatConverter.prerequisite_to_string(&clauses);
    assert_eq!(output, "Prerequisite: 3rd level Warlock");
    let clauses = arr(vec![obj(vec![(
        "level",
        obj(vec![
            ("level", num(1)),
            (
                "class",
                obj(vec![("name", s("Warlock")), ("visible", Value::Bool(true))]),
            ),
        ]),
    )])]);
    let output = FeatConverter.prerequisite_to_string(&clauses);
    assert_eq!(output, "Prerequisite: Warlock");
}

#[test]
fn feat_convert_reads_first_skill_proficiency() {
    let input = obj(vec![(
        "feat",
        arr(vec![obj(vec![
            ("name", s("Skilled")),
            ("skillProficiencies", arr(vec![obj(vec![("any", num(3))])])),
        ])]),
    )]);
    let output = FeatConverter.convert_json(&input).expect("convert json");
    if let Value::Arr(records) = output {
        if let Value::Obj(fields) = &records[0] {
            assert_eq!(fields[2].0, "skills_count_choose");
            assert_eq!(fields[2].1, num(3));
            assert_eq!(fields[3].0, "skills");
            if let Value::Arr(names) = &fields[3].1 {
                assert_eq!(names.len(), 18);
            } else {
                panic!("skills is not an array");
            }
        } else {
            panic!("record is not an object");
        }
    } else {
        panic!("output is not an array");
    }
}

#[test]
fn race_convert_without_ability_yields_no_variant() {
    let input = obj(vec![("name", s("Bare")), ("source", s("Src"))]);
    let output = RaceConverter
        .convert_json(&obj(vec![("race", arr(vec![input]))]))
        .expect("convert json");
    assert_eq!(output, arr(vec![]));
}

#[test]
fn extreme_numerals_survive_conversion() {
    let input = "{\"low\":-9223372036854775808,\"high\":9223372036854775807}";
    let expected = "{\n    \"low\": -9223372036854775808,\n    \"high\": 9223372036854775807\n}";
    let output = Converter::Dummy.convert_string(input).expect("convert string");
    assert_eq!(output, expected);
}
