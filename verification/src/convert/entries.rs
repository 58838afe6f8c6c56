use vstd::prelude::*;
use vstd::string::StrSliceExecFns;
use vstd::string::StringExecFns;
use crate::value::Value;
use crate::value::ValueView;
use crate::value::spec_get;
use crate::value::spec_get_fields;
use crate::value::spec_arr_view;
use crate::value::lemma_arr_view_len;
use crate::value::lemma_arr_view_index;
use crate::convert::markup::format_string;
use crate::convert::markup::spec_resolved;
use crate::convert::util::spec_join;
use crate::convert::util::str_eq;
use crate::convert::util::spec_int_str;
use crate::convert::util::spec_contains;
use crate::convert::util::join_with;
use crate::convert::util::int_to_string;
use crate::convert::util::contains_sub;
use crate::convert::bridge::spec_dumped;
use crate::convert::bridge::dump_document;

verus! {

// ---------------------------------------------------------------------------
// Plain text of a single value.
// ---------------------------------------------------------------------------

/// The plain text of a value as the serializer shows it: strings as their
/// characters, numbers as decimal numerals, `null`, `true` and `false` as
/// those words, and containers as their compact serialization.
pub open spec fn spec_plain_text(v: ValueView) -> Seq<char> {
    match v {
        ValueView::Str(s) => s,
        ValueView::Num(n) => spec_int_str(n),
        ValueView::Bool(b) => if b {
            "true"@
        } else {
            "false"@
        },
        ValueView::Null => "null"@,
        _ => spec_dumped(v),
    }
}

/// Renders a single value as plain text, without resolving markup.
pub fn plain_text(v: &Value) -> (r: String)
    ensures
        r@ == spec_plain_text(v@),
{
    match v {
        Value::Str(s) => s.clone(),
        Value::Num(n) => int_to_string(*n),
        Value::Bool(b) => {
            if *b {
                String::from_str("true")
            } else {
                String::from_str("false")
            }
        },
        Value::Null => String::from_str("null"),
        _ => dump_document(v),
    }
}

// ---------------------------------------------------------------------------
// The fixed-width table grid.
// ---------------------------------------------------------------------------

/// The fixed-width character grid drawn for a header row and data rows.
pub uninterp spec fn grid_of(header: Seq<Seq<char>>, rows: Seq<Seq<Seq<char>>>) -> Seq<char>;

/// Relies on comfy_table's `Table` (`set_header`, `add_row`, and its
/// `Display`): the grid drawn for given header and row texts is a function
/// of those texts alone, with columns sized to their content.
#[verifier::external_body]
fn table_grid(header: &Vec<String>, rows: &Vec<Vec<String>>) -> (r: String)
    ensures
        r@ == grid_of(header.deep_view(), rows.deep_view()),
{
    let mut tbl = comfy_table::Table::new();
    tbl.set_header(header.clone());
    for row in rows {
        tbl.add_row(row.clone());
    }
    tbl.to_string()
}

// ---------------------------------------------------------------------------
// The rendering specification.
// ---------------------------------------------------------------------------

/// The members of an array value; other values have none.
pub open spec fn spec_members(v: ValueView) -> Seq<ValueView> {
    match v {
        ValueView::Arr(a) => a,
        _ => Seq::empty(),
    }
}

/// Appends a rendered fragment to a part list when it is present.
pub open spec fn opt_push(parts: Seq<Seq<char>>, o: Option<Seq<char>>) -> Seq<Seq<char>> {
    match o {
        Some(t) => parts.push(t),
        None => parts,
    }
}

/// Appends a rendered fragment, prefixed by `pfx`, when it is present.
pub open spec fn opt_push_pfx(
    parts: Seq<Seq<char>>,
    pfx: Seq<char>,
    o: Option<Seq<char>>,
) -> Seq<Seq<char>> {
    match o {
        Some(t) => parts.push(pfx + t),
        None => parts,
    }
}

/// The header cells of a table: each label as plain text.
pub open spec fn spec_header_texts(ms: Seq<ValueView>) -> Seq<Seq<char>> {
    Seq::new(ms.len(), |i: int| spec_plain_text(ms[i]))
}

/// The cells of one table row: each cell as plain text with markup resolved.
pub open spec fn spec_cell_texts(cs: Seq<ValueView>) -> Seq<Seq<char>> {
    Seq::new(cs.len(), |i: int| spec_resolved(spec_plain_text(cs[i])))
}

/// The rows of a table, cell texts per row.
pub open spec fn spec_row_texts(rs: Seq<ValueView>) -> Seq<Seq<Seq<char>>> {
    Seq::new(rs.len(), |i: int| spec_cell_texts(spec_members(rs[i])))
}

/// Wherever a looked-up field is itself rendered, the field value sits
/// inside the object, so rendering it recurses into a structurally smaller
/// value. This lemma states that bound for the termination argument.
pub proof fn lemma_get_decreases(v: ValueView, key: Seq<char>)
    ensures
        spec_get(v, key) != ValueView::Null ==> decreases_to!(v => spec_get(v, key)),
{
    match v {
        ValueView::Obj(fields) => {
            assert(decreases_to!(v => fields));
            lemma_get_fields_decreases(v, fields, key);
        },
        _ => {},
    }
}

proof fn lemma_get_fields_decreases(
    v: ValueView,
    fields: Seq<(Seq<char>, ValueView)>,
    key: Seq<char>,
)
    requires
        decreases_to!(v => fields),
    ensures
        spec_get_fields(fields, key) != ValueView::Null ==> decreases_to!(
            v => spec_get_fields(fields, key)
        ),
    decreases fields.len(),
{
    if fields.len() == 0 {
    } else if fields[0].0 == key {
        assert(decreases_to!(fields => fields[0]));
        assert(decreases_to!(fields[0] => fields[0].1));
    } else {
        assert(decreases_to!(fields => fields.subrange(1, fields.len() as int)));
        assert(fields.drop_first() == fields.subrange(1, fields.len() as int));
        lemma_get_fields_decreases(v, fields.drop_first(), key);
    }
}

/// As `lemma_get_decreases`, for the members of an array field.
pub proof fn lemma_get_members_decreases(v: ValueView, key: Seq<char>)
    ensures
        spec_get(v, key) matches ValueView::Arr(a) ==> decreases_to!(v => a),
{
    lemma_get_decreases(v, key);
    match spec_get(v, key) {
        ValueView::Arr(a) => {
            assert(decreases_to!(spec_get(v, key) => a));
        },
        _ => {},
    }
}

/// The rendered text of one entry node, or `None` when it contributes no
/// visible text:
/// - a string renders as itself with markup resolved;
/// - an array renders its members, the non-empty results joined by newlines;
/// - an object renders by its `type` field: `entries`, `item`, `section` and
///   `itemSpell` as items, `list` as a list, `table` as a table, and
///   anything else (or no `type` at all) as nothing;
/// - null, booleans and numbers render as nothing.
pub open spec fn spec_entry_text(v: ValueView) -> Option<Seq<char>>
    decreases v, 6int,
{
    match v {
        ValueView::Str(s) => Some(spec_resolved(s)),
        ValueView::Arr(items) => {
            let parts = spec_parts(items);
            if parts.len() == 0 {
                None
            } else {
                Some(spec_join(parts, "\n"@))
            }
        },
        ValueView::Obj(_) => {
            let t = spec_get(v, "type"@);
            if t == ValueView::Str("entries"@) || t == ValueView::Str("item"@) || t
                == ValueView::Str("section"@) || t == ValueView::Str("itemSpell"@) {
                spec_item_text(v)
            } else if t == ValueView::Str("list"@) {
                spec_list_text(v)
            } else if t == ValueView::Str("table"@) {
                spec_table_text(v)
            } else {
                None
            }
        },
        _ => None,
    }
}

/// The rendered texts of the members of `items`, in order, keeping only the
/// members that render to something.
pub open spec fn spec_parts(items: Seq<ValueView>) -> Seq<Seq<char>>
    decreases items, 7int,
{
    if items.len() == 0 {
        Seq::empty()
    } else {
        let init = spec_parts(items.subrange(0, items.len() - 1));
        opt_push(init, spec_entry_text(items[items.len() - 1]))
    }
}

/// The rendered field of an object, or `None` when the field is absent or
/// renders to nothing.
pub open spec fn spec_field_text(v: ValueView, key: Seq<char>) -> Option<Seq<char>>
    decreases v, 2int,
{
    let f = spec_get(v, key);
    if f == ValueView::Null {
        None
    } else {
        proof {
            lemma_get_decreases(v, key);
        }
        spec_entry_text(f)
    }
}

/// The rendered text of an item node: its name (with a period appended), its
/// single entry, and its entry list, whichever are present, joined by single
/// spaces; `None` when none of the three renders.
pub open spec fn spec_item_text(v: ValueView) -> Option<Seq<char>>
    decreases v, 4int,
{
    let name_part = match spec_field_text(v, "name"@) {
        Some(t) => Some(t + "."@),
        None => None,
    };
    let parts = opt_push(
        opt_push(opt_push(Seq::empty(), name_part), spec_field_text(v, "entry"@)),
        spec_field_text(v, "entries"@),
    );
    if parts.len() == 0 {
        None
    } else {
        Some(spec_join(parts, " "@))
    }
}

/// The rendered items of a list, each prefixed by `pfx`, keeping only the
/// items that render to something.
pub open spec fn spec_list_items(items: Seq<ValueView>, pfx: Seq<char>) -> Seq<Seq<char>>
    decreases items, 7int,
{
    if items.len() == 0 {
        Seq::empty()
    } else {
        let init = spec_list_items(items.subrange(0, items.len() - 1), pfx);
        opt_push_pfx(init, pfx, spec_entry_text(items[items.len() - 1]))
    }
}

/// The rendered text of a list node under a given item prefix: its
/// rendered name (if any) as a heading line, then each rendered item with
/// the prefix, joined by newlines; `None` when nothing renders.
pub open spec fn spec_list_text_with(v: ValueView, pfx: Seq<char>) -> Option<Seq<char>>
    decreases v, 3int,
{
    let items = (match spec_get(v, "items"@) {
        ValueView::Arr(a) => {
            proof {
                lemma_get_members_decreases(v, "items"@);
            }
            spec_list_items(a, pfx)
        },
        _ => Seq::empty(),
    });
    let parts = opt_push(Seq::empty(), spec_field_text(v, "name"@)) + items;
    if parts.len() == 0 {
        None
    } else {
        Some(spec_join(parts, "\n"@))
    }
}

/// The rendered text of a list node: each rendered item is prefixed by
/// `"- "`, unless the list's `style` contains `list-hang`, which drops the
/// prefix.
pub open spec fn spec_list_text(v: ValueView) -> Option<Seq<char>>
    decreases v, 4int,
{
    if spec_contains(spec_plain_text(spec_get(v, "style"@)), "list-hang"@) {
        spec_list_text_with(v, Seq::empty())
    } else {
        spec_list_text_with(v, "- "@)
    }
}

/// The rendered text of a table node: its rendered caption (if any), then
/// the fixed-width grid of header labels and rows, joined by a newline. A
/// table with no labels and no rows draws no grid at all, so one that also
/// lacks a caption renders to nothing: no empty grid line.
pub open spec fn spec_table_text(v: ValueView) -> Option<Seq<char>>
    decreases v, 4int,
{
    let headers = spec_header_texts(spec_members(spec_get(v, "colLabels"@)));
    let rows = spec_row_texts(spec_members(spec_get(v, "rows"@)));
    let grid = grid_of(headers, rows);
    let with_caption = opt_push(Seq::empty(), spec_field_text(v, "caption"@));
    let parts = if (headers.len() > 0 || rows.len() > 0) && grid.len() > 0 {
        with_caption.push(grid)
    } else {
        with_caption
    };
    if parts.len() == 0 {
        None
    } else {
        Some(spec_join(parts, "\n"@))
    }
}

/// The rendered text of a whole entry array: the members that render,
/// joined by blank lines; `None` for no members or none that render.
pub open spec fn spec_entries_text(v: ValueView) -> Option<Seq<char>> {
    let parts = spec_parts(spec_members(v));
    if parts.len() == 0 {
        None
    } else {
        Some(spec_join(parts, "\n\n"@))
    }
}

/// The character view of an optional rendered string.
pub open spec fn opt_text(r: Option<String>) -> Option<Seq<char>> {
    match r {
        Some(s) => Some(s@),
        None => None,
    }
}

pub proof fn lemma_parts_push(items: Seq<ValueView>, x: ValueView)
    ensures
        spec_parts(items.push(x)) == opt_push(spec_parts(items), spec_entry_text(x)),
{
    let p = items.push(x);
    assert(p.subrange(0, p.len() - 1) =~= items);
    assert(p[p.len() - 1] == x);
}

pub proof fn lemma_list_items_push(items: Seq<ValueView>, pfx: Seq<char>, x: ValueView)
    ensures
        spec_list_items(items.push(x), pfx) == opt_push_pfx(
            spec_list_items(items, pfx),
            pfx,
            spec_entry_text(x),
        ),
{
    let p = items.push(x);
    assert(p.subrange(0, p.len() - 1) =~= items);
    assert(p[p.len() - 1] == x);
}

// ---------------------------------------------------------------------------
// Rendering laws.
// ---------------------------------------------------------------------------

/// A value with no members — an empty array, or anything that is not an
/// array — renders to nothing as an entry list.
pub proof fn lemma_render_empty(v: ValueView)
    ensures
        spec_members(v).len() == 0 ==> spec_entries_text(v) is None,
{
}

/// A table node with no caption, no header labels and no rows renders to
/// nothing: no empty grid line appears.
pub proof fn lemma_empty_table_none(v: ValueView)
    ensures
        (spec_field_text(v, "caption"@) is None && spec_members(spec_get(v, "colLabels"@)).len()
            == 0 && spec_members(spec_get(v, "rows"@)).len() == 0) ==> spec_table_text(v) is None,
{
    if spec_field_text(v, "caption"@) is None && spec_members(spec_get(v, "colLabels"@)).len() == 0
        && spec_members(spec_get(v, "rows"@)).len() == 0 {
        assert(spec_header_texts(spec_members(spec_get(v, "colLabels"@))).len() == 0);
        assert(spec_row_texts(spec_members(spec_get(v, "rows"@))).len() == 0);
    }
}

/// A list node whose `style` holds `list-hang` renders its items without
/// the `"- "` prefix; under any other style, a missing one included, each
/// item carries the prefix.
pub proof fn lemma_list_hang_prefix(v: ValueView)
    ensures
        spec_contains(spec_plain_text(spec_get(v, "style"@)), "list-hang"@) ==> spec_list_text(v)
            == spec_list_text_with(v, Seq::empty()),
        !spec_contains(spec_plain_text(spec_get(v, "style"@)), "list-hang"@) ==> spec_list_text(v)
            == spec_list_text_with(v, "- "@),
{
}

// ---------------------------------------------------------------------------
// The renderer.
// ---------------------------------------------------------------------------

fn value_is_str(v: &Value, lit: &str) -> (r: bool)
    ensures
        r == (v@ == ValueView::Str(lit@)),
{
    match v {
        Value::Str(s) => str_eq(s.as_str(), lit),
        _ => false,
    }
}

fn field_is_str(v: &Value, key: &str, lit: &str) -> (r: bool)
    ensures
        r == (spec_get(v@, key@) == ValueView::Str(lit@)),
{
    match v.get(key) {
        Some(x) => value_is_str(x, lit),
        None => false,
    }
}

fn field_plain_text(v: &Value, key: &str) -> (r: String)
    ensures
        r@ == spec_plain_text(spec_get(v@, key@)),
{
    match v.get(key) {
        Some(x) => plain_text(x),
        None => String::from_str("null"),
    }
}

/// Renders the field stored under `key`, when present and renderable.
pub fn field_to_string(v: &Value, key: &str) -> (r: Option<String>)
    ensures
        opt_text(r) == spec_field_text(v@, key@),
    decreases *v, 1int,
{
    match v.get(key) {
        Some(x) => {
            match x {
                Value::Null => None,
                _ => {
                    proof {
                        assert(x@ != ValueView::Null);
                    }
                    entry_to_string(x)
                },
            }
        },
        None => None,
    }
}

/// Renders one entry node to text, or `None` when it contributes none.
pub fn entry_to_string(entry: &Value) -> (r: Option<String>)
    ensures
        opt_text(r) == spec_entry_text(entry@),
    decreases *entry, 3int,
{
    match entry {
        Value::Str(s) => Some(format_string(s.clone())),
        Value::Arr(items) => {
            let ghost iv = spec_arr_view(items@);
            proof {
                lemma_arr_view_len(items@);
                assert(iv.take(0) =~= Seq::<ValueView>::empty());
            }
            let mut parts: Vec<String> = Vec::new();
            let mut i: usize = 0;
            while i < items.len()
                invariant
                    i <= items.len(),
                    iv == spec_arr_view(items@),
                    iv.len() == items@.len(),
                    *entry == Value::Arr(*items),
                    parts.deep_view() == spec_parts(iv.take(i as int)),
                decreases items.len() - i,
            {
                proof {
                    lemma_arr_view_index(items@, i as int);
                    assert(decreases_to!(*entry => (*entry)->Arr_0));
                    assert((*entry)->Arr_0 == *items);
                    assert(decreases_to!(*items => items@));
                    assert(decreases_to!(items@ => items@[i as int]));
                    assert(decreases_to!(*entry => items@[i as int]));
                }
                let p = entry_to_string(&items[i]);
                proof {
                    lemma_parts_push(iv.take(i as int), iv[i as int]);
                    assert(iv.take(i as int).push(iv[i as int]) =~= iv.take(i + 1));
                }
                let ghost old_dv = parts.deep_view();
                match p {
                    Some(t) => {
                        parts.push(t);
                        proof {
                            assert(parts.deep_view() =~= old_dv.push(t@));
                        }
                    },
                    None => {},
                }
                i = i + 1;
            }
            proof {
                assert(iv.take(items@.len() as int) =~= iv);
            }
            if parts.len() == 0 {
                proof {
                    assert(parts.deep_view().len() == 0);
                }
                None
            } else {
                Some(join_with(&parts, "\n"))
            }
        },
        Value::Obj(_) => {
            let item_like = field_is_str(entry, "type", "entries") || field_is_str(
                entry,
                "type",
                "item",
            ) || field_is_str(entry, "type", "section") || field_is_str(entry, "type", "itemSpell");
            if item_like {
                item_to_string(entry)
            } else if field_is_str(entry, "type", "list") {
                list_to_string(entry)
            } else if field_is_str(entry, "type", "table") {
                table_to_string(entry)
            } else {
                None
            }
        },
        _ => None,
    }
}

/// Renders an item node: optional name (with a period), optional single
/// entry, optional entry list, space-joined.
pub fn item_to_string(item: &Value) -> (r: Option<String>)
    ensures
        opt_text(r) == spec_item_text(item@),
    decreases *item, 2int,
{
    let mut stack: Vec<String> = Vec::new();
    let name_r = field_to_string(item, "name");
    if let Some(n) = name_r {
        let mut line = n;
        line.append(".");
        stack.push(line);
    }
    let ghost parts1 = opt_push(
        Seq::empty(),
        (match spec_field_text(item@, "name"@) {
            Some(t) => Some(t + "."@),
            None => None,
        }),
    );
    proof {
        assert(stack.deep_view() =~= parts1);
    }
    let entry_r = field_to_string(item, "entry");
    if let Some(t) = entry_r {
        stack.push(t);
    }
    let ghost parts2 = opt_push(parts1, spec_field_text(item@, "entry"@));
    proof {
        assert(stack.deep_view() =~= parts2);
    }
    let entries_r = field_to_string(item, "entries");
    if let Some(t) = entries_r {
        stack.push(t);
    }
    let ghost parts3 = opt_push(parts2, spec_field_text(item@, "entries"@));
    proof {
        assert(stack.deep_view() =~= parts3);
    }
    if stack.len() == 0 {
        None
    } else {
        Some(join_with(&stack, " "))
    }
}

/// Renders a list node: optional name heading, then each rendered item on
/// its own line, prefixed by `"- "` unless the style contains `list-hang`.
pub fn list_to_string(list: &Value) -> (r: Option<String>)
    ensures
        opt_text(r) == spec_list_text(list@),
    decreases *list, 2int,
{
    let mut stack: Vec<String> = Vec::new();
    if let Some(n) = field_to_string(list, "name") {
        stack.push(n);
    }
    let ghost base = opt_push(Seq::empty(), spec_field_text(list@, "name"@));
    proof {
        assert(stack.deep_view() =~= base);
    }
    let style = field_plain_text(list, "style");
    let hang = contains_sub(style.as_str(), "list-hang");
    let pfx: &str = if hang {
        ""
    } else {
        "- "
    };
    let ghost pfxv = (if spec_contains(
        spec_plain_text(spec_get(list@, "style"@)),
        "list-hang"@,
    ) {
        Seq::<char>::empty()
    } else {
        "- "@
    });
    proof {
        reveal_strlit("");
        assert(""@ =~= Seq::<char>::empty());
        assert(pfx@ == pfxv);
    }
    match list.get("items") {
        Some(x) => {
            match x {
                Value::Arr(items) => {
                    let ghost iv = spec_arr_view(items@);
                    proof {
                        lemma_arr_view_len(items@);
                        assert(iv.take(0) =~= Seq::<ValueView>::empty());
                        assert(stack.deep_view() =~= base + spec_list_items(iv.take(0), pfxv));
                    }
                    let mut i: usize = 0;
                    while i < items.len()
                        invariant
                            i <= items.len(),
                            iv == spec_arr_view(items@),
                            iv.len() == items@.len(),
                            *x == Value::Arr(*items),
                            decreases_to!(*list => *x),
                            pfx@ == pfxv,
                            stack.deep_view() == base + spec_list_items(iv.take(i as int), pfxv),
                        decreases items.len() - i,
                    {
                        proof {
                            lemma_arr_view_index(items@, i as int);
                            assert(decreases_to!(*x => (*x)->Arr_0));
                            assert((*x)->Arr_0 == *items);
                            assert(decreases_to!(*items => items@));
                            assert(decreases_to!(items@ => items@[i as int]));
                            assert(decreases_to!(*list => items@[i as int]));
                        }
                        let p = entry_to_string(&items[i]);
                        proof {
                            lemma_list_items_push(iv.take(i as int), pfxv, iv[i as int]);
                            assert(iv.take(i as int).push(iv[i as int]) =~= iv.take(i + 1));
                        }
                        let ghost old_dv = stack.deep_view();
                        match p {
                            Some(t) => {
                                let mut line = String::new();
                                line.append(pfx);
                                line.append(t.as_str());
                                stack.push(line);
                                proof {
                                    assert(stack.deep_view() =~= old_dv.push(pfxv + t@));
                                }
                            },
                            None => {},
                        }
                        i = i + 1;
                    }
                    proof {
                        assert(iv.take(items@.len() as int) =~= iv);
                    }
                },
                _ => {
                    proof {
                        assert(spec_members(x@) =~= Seq::<ValueView>::empty());
                        assert(stack.deep_view() =~= base + spec_list_items(
                            spec_members(spec_get(list@, "items"@)),
                            pfxv,
                        ));
                    }
                },
            }
        },
        None => {
            proof {
                assert(spec_members(ValueView::Null) =~= Seq::<ValueView>::empty());
                assert(stack.deep_view() =~= base + spec_list_items(
                    spec_members(spec_get(list@, "items"@)),
                    pfxv,
                ));
            }
        },
    }
    if stack.len() == 0 {
        None
    } else {
        Some(join_with(&stack, "\n"))
    }
}

/// Renders a table node: optional caption line, then the fixed-width grid
/// of header labels and stringified, markup-resolved cells.
pub fn table_to_string(table: &Value) -> (r: Option<String>)
    ensures
        opt_text(r) == spec_table_text(table@),
    decreases *table, 2int,
{
    let ghost hv = spec_members(spec_get(table@, "colLabels"@));
    let mut headers: Vec<String> = Vec::new();
    match table.get("colLabels") {
        Some(x) => {
            match x {
                Value::Arr(ls) => {
                    let ghost iv = spec_arr_view(ls@);
                    proof {
                        lemma_arr_view_len(ls@);
                    }
                    let mut i: usize = 0;
                    while i < ls.len()
                        invariant
                            i <= ls.len(),
                            iv == spec_arr_view(ls@),
                            iv.len() == ls@.len(),
                            *x == Value::Arr(*ls),
                            headers.deep_view().len() == i,
                            forall|j: int|
                                0 <= j < i ==> headers.deep_view()[j] == spec_plain_text(iv[j]),
                        decreases ls.len() - i,
                    {
                        proof {
                            lemma_arr_view_index(ls@, i as int);
                        }
                        let h = plain_text(&ls[i]);
                        let ghost old_dv = headers.deep_view();
                        headers.push(h);
                        proof {
                            assert(headers.deep_view() =~= old_dv.push(h@));
                        }
                        i = i + 1;
                    }
                    proof {
                        assert(hv == iv);
                        assert(headers.deep_view() =~= spec_header_texts(hv));
                    }
                },
                _ => {
                    proof {
                        assert(headers.deep_view() =~= spec_header_texts(hv));
                    }
                },
            }
        },
        None => {
            proof {
                assert(headers.deep_view() =~= spec_header_texts(hv));
            }
        },
    }
    let ghost rv = spec_members(spec_get(table@, "rows"@));
    let mut rows: Vec<Vec<String>> = Vec::new();
    match table.get("rows") {
        Some(x) => {
            match x {
                Value::Arr(rs) => {
                    let ghost iv = spec_arr_view(rs@);
                    proof {
                        lemma_arr_view_len(rs@);
                    }
                    let mut i: usize = 0;
                    while i < rs.len()
                        invariant
                            i <= rs.len(),
                            iv == spec_arr_view(rs@),
                            iv.len() == rs@.len(),
                            *x == Value::Arr(*rs),
                            rows.deep_view().len() == i,
                            forall|j: int|
                                0 <= j < i ==> rows.deep_view()[j] == spec_cell_texts(
                                    spec_members(iv[j]),
                                ),
                        decreases rs.len() - i,
                    {
                        proof {
                            lemma_arr_view_index(rs@, i as int);
                        }
                        let row = table_row_texts(&rs[i]);
                        let ghost old_dv = rows.deep_view();
                        let ghost rowdv = row.deep_view();
                        rows.push(row);
                        proof {
                            assert(rows.deep_view() =~= old_dv.push(rowdv));
                        }
                        i = i + 1;
                    }
                    proof {
                        assert(rv == iv);
                        assert(rows.deep_view() =~= spec_row_texts(rv));
                    }
                },
                _ => {
                    proof {
                        assert(rows.deep_view() =~= spec_row_texts(rv));
                    }
                },
            }
        },
        None => {
            proof {
                assert(rows.deep_view() =~= spec_row_texts(rv));
            }
        },
    }
    let mut stack: Vec<String> = Vec::new();
    if let Some(c) = field_to_string(table, "caption") {
        stack.push(c);
    }
    let ghost with_caption = opt_push(Seq::empty(), spec_field_text(table@, "caption"@));
    proof {
        assert(stack.deep_view() =~= with_caption);
    }
    let ghost old_dv = stack.deep_view();
    proof {
        assert(headers.deep_view().len() == headers@.len());
        assert(rows.deep_view().len() == rows@.len());
        assert(spec_header_texts(hv).len() == hv.len());
        assert(spec_row_texts(rv).len() == rv.len());
    }
    if headers.len() > 0 || rows.len() > 0 {
        let grid = table_grid(&headers, &rows);
        if grid.as_str().unicode_len() > 0 {
            stack.push(grid);
            proof {
                assert(stack.deep_view() =~= old_dv.push(grid_of(
                    spec_header_texts(hv),
                    spec_row_texts(rv),
                )));
            }
        }
    }
    if stack.len() == 0 {
        None
    } else {
        Some(join_with(&stack, "\n"))
    }
}

fn table_row_texts(row: &Value) -> (r: Vec<String>)
    ensures
        r.deep_view() == spec_cell_texts(spec_members(row@)),
{
    let mut cells: Vec<String> = Vec::new();
    match row {
        Value::Arr(cs) => {
            let ghost iv = spec_arr_view(cs@);
            proof {
                lemma_arr_view_len(cs@);
            }
            let mut i: usize = 0;
            while i < cs.len()
                invariant
                    i <= cs.len(),
                    iv == spec_arr_view(cs@),
                    iv.len() == cs@.len(),
                    *row == Value::Arr(*cs),
                    cells.deep_view().len() == i,
                    forall|j: int|
                        0 <= j < i ==> cells.deep_view()[j] == spec_resolved(spec_plain_text(
                            iv[j],
                        )),
                decreases cs.len() - i,
            {
                proof {
                    lemma_arr_view_index(cs@, i as int);
                }
                let c = format_string(plain_text(&cs[i]));
                let ghost old_dv = cells.deep_view();
                cells.push(c);
                proof {
                    assert(cells.deep_view() =~= old_dv.push(c@));
                }
                i = i + 1;
            }
            proof {
                assert(cells.deep_view() =~= spec_cell_texts(spec_members(row@)));
            }
        },
        _ => {
            proof {
                assert(cells.deep_view() =~= spec_cell_texts(spec_members(row@)));
            }
        },
    }
    cells
}

/// Renders a whole entry array into prose: the members that render are
/// joined by blank lines; `None` when nothing renders.
pub fn to_string(entries: &Value) -> (r: Option<String>)
    ensures
        opt_text(r) == spec_entries_text(entries@),
{
    match entries {
        Value::Arr(items) => {
            let ghost iv = spec_arr_view(items@);
            proof {
                lemma_arr_view_len(items@);
                assert(iv.take(0) =~= Seq::<ValueView>::empty());
            }
            let mut parts: Vec<String> = Vec::new();
            let mut i: usize = 0;
            while i < items.len()
                invariant
                    i <= items.len(),
                    iv == spec_arr_view(items@),
                    iv.len() == items@.len(),
                    *entries == Value::Arr(*items),
                    parts.deep_view() == spec_parts(iv.take(i as int)),
                decreases items.len() - i,
            {
                proof {
                    lemma_arr_view_index(items@, i as int);
                }
                let p = entry_to_string(&items[i]);
                proof {
                    lemma_parts_push(iv.take(i as int), iv[i as int]);
                    assert(iv.take(i as int).push(iv[i as int]) =~= iv.take(i + 1));
                }
                let ghost old_dv = parts.deep_view();
                match p {
                    Some(t) => {
                        parts.push(t);
                        proof {
                            assert(parts.deep_view() =~= old_dv.push(t@));
                        }
                    },
                    None => {},
                }
                i = i + 1;
            }
            proof {
                assert(iv.take(items@.len() as int) =~= iv);
            }
            if parts.len() == 0 {
                None
            } else {
                Some(join_with(&parts, "\n\n"))
            }
        },
        _ => {
            proof {
                assert(spec_members(entries@) =~= Seq::<ValueView>::empty());
            }
            None
        },
    }
}

} // verus!
