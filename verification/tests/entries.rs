use retool::convert::entries::entry_to_string;
use retool::convert::entries::plain_text;
use retool::convert::entries::to_string;
use retool::convert::markup::format_string;
use retool::value::Value;

fn s(x: &str) -> Value {
    Value::Str(x.to_string())
}

fn num(n: i64) -> Value {
    Value::Num(n)
}

fn arr(v: Vec<Value>) -> Value {
    Value::Arr(v)
}

fn obj(fields: Vec<(&str, Value)>) -> Value {
    Value::Obj(fields.into_iter().map(|(k, v)| (k.to_string(), v)).collect())
}

#[test]
fn empty_entry_array_renders_nothing() {
    assert_eq!(to_string(&arr(vec![])), None);
    assert_eq!(entry_to_string(&arr(vec![])), None);
}

#[test]
fn bare_array_joins_members_with_newline() {
    assert_eq!(
        entry_to_string(&arr(vec![s("x"), s("y")])),
        Some("x\ny".to_string())
    );
}

#[test]
fn entry_array_joins_members_with_blank_line() {
    assert_eq!(
        to_string(&arr(vec![s("Entry 1"), s("Entry 2")])),
        Some("Entry 1\n\nEntry 2".to_string())
    );
}

#[test]
fn unknown_type_renders_nothing() {
    assert_eq!(
        entry_to_string(&obj(vec![("type", s("insetReadaloud")), ("entries", arr(vec![s("x")]))])),
        None
    );
    assert_eq!(entry_to_string(&num(5)), None);
    assert_eq!(entry_to_string(&Value::Bool(true)), None);
    assert_eq!(entry_to_string(&Value::Null), None);
}

#[test]
fn item_renders_name_entry_and_entries() {
    let node = obj(vec![
        ("type", s("entries")),
        ("name", s("Name 1")),
        ("entries", arr(vec![s("Text 1")])),
    ]);
    assert_eq!(entry_to_string(&node), Some("Name 1. Text 1".to_string()));
    let node = obj(vec![("type", s("item")), ("entry", s("Only text"))]);
    assert_eq!(entry_to_string(&node), Some("Only text".to_string()));
    let node = obj(vec![("type", s("section"))]);
    assert_eq!(entry_to_string(&node), None);
}

#[test]
fn list_items_take_dash_prefix() {
    let node = obj(vec![
        ("type", s("list")),
        ("name", s("Name 1")),
        ("items", arr(vec![obj(vec![("type", s("item")), ("entry", s("Text 1"))])])),
    ]);
    assert_eq!(entry_to_string(&node), Some("Name 1\n- Text 1".to_string()));
}

#[test]
fn list_hang_style_omits_dash_prefix() {
    let node = obj(vec![
        ("type", s("list")),
        ("style", s("list-hang-notitle")),
        ("items", arr(vec![s("i1"), s("i2")])),
    ]);
    assert_eq!(entry_to_string(&node), Some("i1\ni2".to_string()));
    let node = obj(vec![
        ("type", s("list")),
        ("style", s("list-decimal")),
        ("items", arr(vec![s("i1")])),
    ]);
    assert_eq!(entry_to_string(&node), Some("- i1".to_string()));
}

#[test]
fn chance_directive_keeps_its_label() {
    assert_eq!(
        format_string("{@chance 50|fifty fifty}".to_string()),
        "fifty fifty"
    );
}

#[test]
fn tagged_directive_keeps_its_first_field() {
    assert_eq!(
        format_string("You learn {@spell fireball|phb}.".to_string()),
        "You learn fireball."
    );
    assert_eq!(
        format_string("roll {@dice 1d6}".to_string()),
        "roll 1d6"
    );
}

#[test]
fn note_directive_keeps_its_text() {
    assert_eq!(
        format_string("{@note (see the rules)}".to_string()),
        "(see the rules)"
    );
}

#[test]
fn text_without_braces_passes_through() {
    assert_eq!(
        format_string("plain text stays".to_string()),
        "plain text stays"
    );
}

#[test]
fn markup_resolves_inside_rendered_entries() {
    assert_eq!(
        entry_to_string(&s("cast {@spell fireball|phb} now")),
        Some("cast fireball now".to_string())
    );
}

#[test]
fn plain_text_shows_scalars() {
    assert_eq!(plain_text(&s("abc")), "abc");
    assert_eq!(plain_text(&num(42)), "42");
    assert_eq!(plain_text(&num(-3)), "-3");
    assert_eq!(plain_text(&Value::Bool(true)), "true");
    assert_eq!(plain_text(&Value::Bool(false)), "false");
    assert_eq!(plain_text(&Value::Null), "null");
}

#[test]
fn plain_text_dumps_containers() {
    assert_eq!(plain_text(&arr(vec![s("a"), num(1)])), "[\"a\",1]");
}

#[test]
fn table_renders_caption_and_grid() {
    let node = obj(vec![
        ("type", s("table")),
        ("caption", s("Caption 1")),
        ("colLabels", arr(vec![s("Col 1"), s("Col 2")])),
        (
            "rows",
            arr(vec![
                arr(vec![s("Row 1 Col 1"), s("Row 1 Col 2")]),
                arr(vec![s("Row 2 Col 1"), s("Row 2 Col 2")]),
            ]),
        ),
    ]);
    let expected = "Caption 1\n\
+-------------+-------------+\n\
| Col 1       | Col 2       |\n\
+===========================+\n\
| Row 1 Col 1 | Row 1 Col 2 |\n\
|-------------+-------------|\n\
| Row 2 Col 1 | Row 2 Col 2 |\n\
+-------------+-------------+";
    assert_eq!(entry_to_string(&node), Some(expected.to_string()));
}

#[test]
fn table_cells_resolve_markup() {
    let node = obj(vec![
        ("type", s("table")),
        ("colLabels", arr(vec![s("Spell")])),
        ("rows", arr(vec![arr(vec![s("{@spell mage hand|phb}")])])),
    ]);
    let expected = "+-----------+\n\
| Spell     |\n\
+===========+\n\
| mage hand |\n\
+-----------+";
    assert_eq!(entry_to_string(&node), Some(expected.to_string()));
}

#[test]
fn nested_entries_render_recursively() {
    let node = arr(vec![
        obj(vec![
            ("type", s("entries")),
            ("name", s("Name 1")),
            ("entries", arr(vec![s("Text 1")])),
        ]),
        obj(vec![
            ("type", s("entries")),
            ("name", s("Name 2")),
            ("entries", arr(vec![s("Text 2")])),
        ]),
    ]);
    assert_eq!(
        to_string(&node),
        Some("Name 1. Text 1\n\nName 2. Text 2".to_string())
    );
}

#[test]
fn unmatched_braces_pass_through() {
    assert_eq!(
        format_string("{not a directive} stays".to_string()),
        "{not a directive} stays"
    );
}

#[test]
fn item_spell_renders_as_item() {
    let node = obj(vec![("type", s("itemSpell")), ("name", s("Fly")), ("entry", s("3rd level"))]);
    assert_eq!(entry_to_string(&node), Some("Fly. 3rd level".to_string()));
}

#[test]
fn empty_table_renders_nothing() {
    let node = obj(vec![("type", s("table"))]);
    assert_eq!(entry_to_string(&node), None);
    let node = obj(vec![
        ("type", s("table")),
        ("colLabels", arr(vec![])),
        ("rows", arr(vec![])),
    ]);
    assert_eq!(entry_to_string(&node), None);
}

#[test]
fn empty_table_keeps_only_its_caption() {
    let node = obj(vec![
        ("type", s("table")),
        ("caption", s("Caption 1")),
        ("colLabels", arr(vec![])),
        ("rows", arr(vec![])),
    ]);
    assert_eq!(entry_to_string(&node), Some("Caption 1".to_string()));
}

#[test]
fn containers_dump_extreme_numerals() {
    assert_eq!(
        plain_text(&arr(vec![num(i64::MIN), num(i64::MAX)])),
        "[-9223372036854775808,9223372036854775807]"
    );
}
