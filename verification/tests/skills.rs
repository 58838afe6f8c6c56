use retool::convert::feat::skills::all_skills;
use retool::convert::feat::skills::parse;
use retool::value::Value;

fn s(x: &str) -> Value {
    Value::Str(x.to_string())
}

fn num(n: i64) -> Value {
    Value::Num(n)
}

fn arr(v: Vec<Value>) -> Value {
    Value::Arr(v)
}

fn obj(fields: Vec<(&str, Value)>) -> Value {
    Value::Obj(fields.into_iter().map(|(k, v)| (k.to_string(), v)).collect())
}

#[test]
fn parse_choose() {
    let input = obj(vec![("choose", obj(vec![("from", arr(vec![s("a"), s("b")]))]))]);
    let output = Some((arr(vec![s("a"), s("b")]), 1));
    assert_eq!(parse(&input), output);
}

#[test]
fn parse_any() {
    let input = obj(vec![("any", num(1))]);
    let output = Some((all_skills(), 1));
    assert_eq!(parse(&input), output);
}

#[test]
fn parse_list() {
    let input = obj(vec![("a", Value::Bool(true)), ("b", Value::Bool(true))]);
    let output = Some((arr(vec![s("a"), s("b")]), 0));
    assert_eq!(parse(&input), output);
}

#[test]
fn parse_skips_false_flags() {
    let input = obj(vec![("a", Value::Bool(true)), ("b", Value::Bool(false))]);
    let output = Some((arr(vec![s("a")]), 0));
    assert_eq!(parse(&input), output);
}

#[test]
fn parse_empty_yields_nothing() {
    assert_eq!(parse(&obj(vec![])), None);
    assert_eq!(parse(&Value::Null), None);
}

#[test]
fn parse_any_out_of_range_yields_nothing() {
    let input = obj(vec![("any", num(300))]);
    assert_eq!(parse(&input), None);
}

#[test]
fn all_skills_has_eighteen_names() {
    if let Value::Arr(names) = all_skills() {
        assert_eq!(names.len(), 18);
        assert_eq!(names[0], s("Acrobatics"));
        assert_eq!(names[17], s("Survival"));
    } else {
        panic!("all_skills is not an array");
    }
}
