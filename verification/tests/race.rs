use retool::convert::race::abilities;
use retool::convert::race::name;
use retool::convert::race::speed;
use retool::convert::race::traits;
use retool::value::Value;

fn s(x: &str) -> Value {
    Value::Str(x.to_string())
}

fn num(n: i64) -> Value {
    Value::Num(n)
}

fn arr(v: Vec<Value>) -> Value {
    Value::Arr(v)
}

fn obj(fields: Vec<(&str, Value)>) -> Value {
    Value::Obj(fields.into_iter().map(|(k, v)| (k.to_string(), v)).collect())
}

fn zeros() -> Vec<Value> {
    vec![num(0), num(0), num(0), num(0), num(0), num(0)]
}

#[test]
fn allocate_fixed_str_and_dex() {
    let input = arr(vec![obj(vec![("str", num(1)), ("dex", num(2))])]);
    let expected = vec![(
        vec![num(1), num(2), num(0), num(0), num(0), num(0)],
        Value::Null,
    )];
    assert_eq!(abilities::for_race(&input), expected);
}

#[test]
fn allocate_choose_expands_count() {
    let input = arr(vec![obj(vec![("choose", obj(vec![("count", num(2))]))])]);
    let expected = vec![(zeros(), arr(vec![num(1), num(1)]))];
    assert_eq!(abilities::for_race(&input), expected);
}

#[test]
fn allocate_choose_count_and_amount() {
    let input = arr(vec![obj(vec![(
        "choose",
        obj(vec![("count", num(1)), ("amount", num(2))]),
    )])]);
    let expected = vec![(zeros(), arr(vec![num(2)]))];
    assert_eq!(abilities::for_race(&input), expected);
}

#[test]
fn allocate_weighted_takes_weights_verbatim() {
    let weighted = |weights: Vec<i64>| {
        obj(vec![(
            "choose",
            obj(vec![(
                "weighted",
                obj(vec![("weights", arr(weights.into_iter().map(num).collect()))]),
            )]),
        )])
    };
    let input = arr(vec![weighted(vec![2, 1]), weighted(vec![1, 1, 1])]);
    let expected = vec![
        (zeros(), arr(vec![num(2), num(1)])),
        (zeros(), arr(vec![num(1), num(1), num(1)])),
    ];
    assert_eq!(abilities::for_race(&input), expected);
}

#[test]
fn allocate_unknown_key_is_skipped() {
    let input = arr(vec![obj(vec![("luck", num(3)), ("str", num(1))])]);
    let expected = vec![(
        vec![num(1), num(0), num(0), num(0), num(0), num(0)],
        Value::Null,
    )];
    assert_eq!(abilities::for_race(&input), expected);
}

#[test]
fn allocate_without_specs_yields_no_variant() {
    assert_eq!(abilities::for_race(&arr(vec![])), vec![]);
    assert_eq!(abilities::for_race(&Value::Null), vec![]);
}

#[test]
fn name_without_suffix() {
    let race = obj(vec![("name", s("Name")), ("source", s("Source"))]);
    assert_eq!(name::for_race(&race, 0, false), Some("Name (Source)".to_string()));
    assert_eq!(name::for_race(&race, 2, false), Some("Name (Source)".to_string()));
}

#[test]
fn name_with_suffix_letters() {
    let race = obj(vec![("name", s("Name")), ("source", s("Source"))]);
    assert_eq!(name::for_race(&race, 0, true), Some("Name A (Source)".to_string()));
    assert_eq!(name::for_race(&race, 1, true), Some("Name B (Source)".to_string()));
}

#[test]
fn test_for_race_index_out_of_bounds() {
    assert_eq!(name::for_race(&obj(vec![]), 2, true), None)
}

#[test]
fn speed_reads_number_and_walk() {
    assert_eq!(speed::for_race(&obj(vec![("speed", num(10))])), Some(10));
    assert_eq!(
        speed::for_race(&obj(vec![("speed", obj(vec![("walk", num(20))]))])),
        Some(20)
    );
    assert_eq!(speed::for_race(&obj(vec![])), None);
}

#[test]
fn traits_render_string_entries() {
    let input = obj(vec![
        ("name", s("Trait")),
        ("entries", arr(vec![s("Entry 1"), s("Entry 2")])),
    ]);
    let expected = obj(vec![("name", s("Trait")), ("desc", s("Entry 1\n\nEntry 2"))]);
    assert_eq!(traits::for_race(&arr(vec![input])), arr(vec![expected]));
}

#[test]
fn traits_render_object_entries() {
    let input = obj(vec![
        ("name", s("Trait")),
        (
            "entries",
            arr(vec![
                obj(vec![
                    ("name", s("Name 1")),
                    ("type", s("entries")),
                    ("entries", arr(vec![s("Text 1")])),
                ]),
                obj(vec![
                    ("name", s("Name 2")),
                    ("type", s("entries")),
                    ("entries", arr(vec![s("Text 2")])),
                ]),
            ]),
        ),
    ]);
    let expected = obj(vec![
        ("name", s("Trait")),
        ("desc", s("Name 1. Text 1\n\nName 2. Text 2")),
    ]);
    assert_eq!(traits::for_race(&arr(vec![input])), arr(vec![expected]));
}

#[test]
fn traits_render_list_entries() {
    let input = obj(vec![
        ("name", s("Trait")),
        (
            "entries",
            arr(vec![
                obj(vec![
                    ("name", s("Name 1")),
                    ("type", s("list")),
                    ("items", arr(vec![obj(vec![("type", s("item")), ("entry", s("Text 1"))])])),
                ]),
                obj(vec![
                    ("name", s("Name 2")),
                    ("type", s("list")),
                    ("items", arr(vec![obj(vec![("type", s("item")), ("entry", s("Text 2"))])])),
                ]),
            ]),
        ),
    ]);
    let expected = obj(vec![
        ("name", s("Trait")),
        ("desc", s("Name 1\n- Text 1\n\nName 2\n- Text 2")),
    ]);
    assert_eq!(traits::for_race(&arr(vec![input])), arr(vec![expected]));
}

#[test]
fn traits_without_prose_take_null_desc() {
    let input = obj(vec![("name", s("Trait")), ("entries", arr(vec![]))]);
    let expected = obj(vec![("name", s("Trait")), ("desc", Value::Null)]);
    assert_eq!(traits::for_race(&arr(vec![input])), arr(vec![expected]));
}
