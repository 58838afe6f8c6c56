use vstd::prelude::*;
use vstd::string::StringExecFns;
use crate::value::Value;
use crate::value::ValueView;
use crate::value::spec_get;
use crate::value::spec_has_key;
use crate::value::spec_obj_fields;
use crate::value::spec_arr_view;
use crate::value::spec_fields_view;
use crate::value::lemma_arr_view_len;
use crate::value::lemma_arr_view_index;
use crate::value::lemma_fields_view_len;
use crate::value::lemma_fields_view_index;
use crate::convert::entries::spec_members;
use crate::convert::entries::spec_plain_text;
use crate::convert::entries::plain_text;
use crate::convert::entries::opt_push;
use crate::convert::util::spec_join;
use crate::convert::util::spec_join_conjunct;
use crate::convert::util::spec_ordinal;
use crate::convert::util::spec_int_str;
use crate::convert::util::spec_title_case;
use crate::convert::util::spec_contains;
use crate::convert::util::join_with;
use crate::convert::util::join_conjunct;
use crate::convert::util::ordinal_form;
use crate::convert::util::int_to_string;
use crate::convert::util::title_case;
use crate::convert::util::contains_sub;
use crate::convert::util::str_eq;

verus! {

// ---------------------------------------------------------------------------
// Level clauses.
// ---------------------------------------------------------------------------

/// The `{ordinal} level` token for a level number, available only when the
/// number is in ordinal range.
pub open spec fn spec_level_token(n: int) -> Option<Seq<char>> {
    if 0 <= n <= 255 {
        Some(spec_ordinal(n) + " level"@)
    } else {
        None
    }
}

/// The name token of a class or subclass reference: its `name` as plain
/// text, present only when its `visible` flag is exactly `true`.
pub open spec fn spec_visible_name(r: ValueView) -> Option<Seq<char>> {
    if spec_get(r, "visible"@) == ValueView::Bool(true) {
        Some(spec_plain_text(spec_get(r, "name"@)))
    } else {
        None
    }
}

/// The level fragment of a clause. A bare number renders as
/// `{ordinal} level`. An object form renders the space-joined tokens of an
/// optional `{ordinal} level` (omitted when the level is 1), then the class
/// and subclass names, each gated by its own `visible` flag.
pub open spec fn spec_level_frag(c: ValueView) -> Option<Seq<char>> {
    match spec_get(c, "level"@) {
        ValueView::Num(n) => spec_level_token(n),
        ValueView::Obj(_) => {
            let lv = spec_get(c, "level"@);
            let level_tok = (match spec_get(lv, "level"@) {
                ValueView::Num(n) => if n == 1 {
                    None
                } else {
                    spec_level_token(n)
                },
                _ => None,
            });
            let toks = opt_push(
                opt_push(
                    opt_push(Seq::empty(), level_tok),
                    spec_visible_name(spec_get(lv, "class"@)),
                ),
                spec_visible_name(spec_get(lv, "subclass"@)),
            );
            if toks.len() == 0 {
                None
            } else {
                Some(spec_join(toks, " "@))
            }
        },
        _ => None,
    }
}

// ---------------------------------------------------------------------------
// Race clauses.
// ---------------------------------------------------------------------------

/// The displayed name of one race descriptor: its `displayEntry` when
/// present, else its `name`, title-cased, with ` (subrace)` appended when a
/// subrace is given.
pub open spec fn spec_race_name(r: ValueView) -> Seq<char> {
    let base = if spec_has_key(r, "displayEntry"@) {
        spec_plain_text(spec_get(r, "displayEntry"@))
    } else {
        spec_plain_text(spec_get(r, "name"@))
    };
    let titled = spec_title_case(base);
    if spec_has_key(r, "subrace"@) {
        titled + " ("@ + spec_plain_text(spec_get(r, "subrace"@)) + ")"@
    } else {
        titled
    }
}

/// The displayed names of a race list, in order.
pub open spec fn spec_race_names(rs: Seq<ValueView>) -> Seq<Seq<char>>
    decreases rs.len(),
{
    if rs.len() == 0 {
        Seq::empty()
    } else {
        spec_race_names(rs.subrange(0, rs.len() - 1)).push(spec_race_name(rs[rs.len() - 1]))
    }
}

/// The race fragment of a clause: the race names or-joined, absent for an
/// empty race list.
pub open spec fn spec_race_frag(c: ValueView) -> Option<Seq<char>> {
    spec_join_conjunct(spec_race_names(spec_members(spec_get(c, "race"@))), ", "@, "or "@)
}

// ---------------------------------------------------------------------------
// Ability clauses.
// ---------------------------------------------------------------------------

/// Whether any member of the ability list holds the given shorthand key.
pub open spec fn spec_any_has_key(ms: Seq<ValueView>, key: Seq<char>) -> bool
    decreases ms.len(),
{
    if ms.len() == 0 {
        false
    } else {
        spec_any_has_key(ms.subrange(0, ms.len() - 1), key) || spec_has_key(
            ms[ms.len() - 1],
            key,
        )
    }
}

/// The larger of two integers.
pub open spec fn spec_max(a: int, b: int) -> int {
    if a >= b {
        a
    } else {
        b
    }
}

/// The numeric threshold a member contributes for one shorthand key.
pub open spec fn spec_key_threshold(m: ValueView, key: Seq<char>) -> int {
    match spec_get(m, key) {
        ValueView::Num(n) => n,
        _ => 0,
    }
}

/// The largest threshold a member holds under any recognized shorthand.
pub open spec fn spec_member_threshold(m: ValueView) -> int {
    spec_max(
        spec_key_threshold(m, "str"@),
        spec_max(
            spec_key_threshold(m, "dex"@),
            spec_max(
                spec_key_threshold(m, "con"@),
                spec_max(
                    spec_key_threshold(m, "int"@),
                    spec_max(spec_key_threshold(m, "wis"@), spec_key_threshold(m, "cha"@)),
                ),
            ),
        ),
    )
}

/// The largest threshold over all members of the ability list, at least 0.
pub open spec fn spec_abilities_threshold(ms: Seq<ValueView>) -> int
    decreases ms.len(),
{
    if ms.len() == 0 {
        0
    } else {
        spec_max(
            spec_abilities_threshold(ms.subrange(0, ms.len() - 1)),
            spec_member_threshold(ms[ms.len() - 1]),
        )
    }
}

/// The ability labels named anywhere in the ability list, in the fixed
/// order strength, dexterity, constitution, intelligence, wisdom, charisma.
pub open spec fn spec_ability_labels(ms: Seq<ValueView>) -> Seq<Seq<char>> {
    let l0 = opt_push(
        Seq::empty(),
        (if spec_any_has_key(ms, "str"@) {
            Some("Strength"@)
        } else {
            None
        }),
    );
    let l1 = opt_push(
        l0,
        (if spec_any_has_key(ms, "dex"@) {
            Some("Dexterity"@)
        } else {
            None
        }),
    );
    let l2 = opt_push(
        l1,
        (if spec_any_has_key(ms, "con"@) {
            Some("Constitution"@)
        } else {
            None
        }),
    );
    let l3 = opt_push(
        l2,
        (if spec_any_has_key(ms, "int"@) {
            Some("Intelligence"@)
        } else {
            None
        }),
    );
    let l4 = opt_push(
        l3,
        (if spec_any_has_key(ms, "wis"@) {
            Some("Wisdom"@)
        } else {
            None
        }),
    );
    opt_push(
        l4,
        (if spec_any_has_key(ms, "cha"@) {
            Some("Charisma"@)
        } else {
            None
        }),
    )
}

/// The ability fragment of a clause: the named ability labels or-joined,
/// then the largest threshold seen, as `... N or higher`; absent when no
/// recognized shorthand occurs.
pub open spec fn spec_ability_frag(c: ValueView) -> Option<Seq<char>> {
    let ms = spec_members(spec_get(c, "ability"@));
    match spec_join_conjunct(spec_ability_labels(ms), ", "@, "or "@) {
        Some(labels) => Some(
            labels + " "@ + spec_int_str(spec_abilities_threshold(ms)) + " or higher"@,
        ),
        None => None,
    }
}

// ---------------------------------------------------------------------------
// Proficiency clauses.
// ---------------------------------------------------------------------------

/// The proficiency items of one proficiency set, in field order: `armor`
/// fields as `{kind} armor`, `weapon` fields as `a {kind} weapon`; other
/// fields contribute nothing.
pub open spec fn spec_prof_items(fs: Seq<(Seq<char>, ValueView)>) -> Seq<Seq<char>>
    decreases fs.len(),
{
    if fs.len() == 0 {
        Seq::empty()
    } else {
        let init = spec_prof_items(fs.subrange(0, fs.len() - 1));
        let last = fs[fs.len() - 1];
        if last.0 == "armor"@ {
            init.push(spec_plain_text(last.1) + " armor"@)
        } else if last.0 == "weapon"@ {
            init.push("a "@ + spec_plain_text(last.1) + " weapon"@)
        } else {
            init
        }
    }
}

/// The and-joined text of one proficiency set, absent when the set names
/// nothing recognized.
pub open spec fn spec_prof_set_text(v: ValueView) -> Option<Seq<char>> {
    spec_join_conjunct(spec_prof_items(spec_obj_fields(v)), ", "@, "and "@)
}

/// The texts of all proficiency sets that render, in order.
pub open spec fn spec_prof_set_texts(ms: Seq<ValueView>) -> Seq<Seq<char>>
    decreases ms.len(),
{
    if ms.len() == 0 {
        Seq::empty()
    } else {
        opt_push(
            spec_prof_set_texts(ms.subrange(0, ms.len() - 1)),
            spec_prof_set_text(ms[ms.len() - 1]),
        )
    }
}

/// The proficiency fragment of a clause: `Proficiency with ` and the
/// or-joined set texts; absent when no set renders.
pub open spec fn spec_prof_frag(c: ValueView) -> Option<Seq<char>> {
    match spec_join_conjunct(
        spec_prof_set_texts(spec_members(spec_get(c, "proficiency"@))),
        ", "@,
        "or "@,
    ) {
        Some(t) => Some("Proficiency with "@ + t),
        None => None,
    }
}

// ---------------------------------------------------------------------------
// Spellcasting and free-text clauses.
// ---------------------------------------------------------------------------

/// The spellcasting fragment: a fixed sentence when the flag is `true`.
pub open spec fn spec_spellcasting_frag(c: ValueView) -> Option<Seq<char>> {
    if spec_get(c, "spellcasting"@) == ValueView::Bool(true) {
        Some("The ability to cast at least one spell"@)
    } else {
        None
    }
}

/// The feature-based spellcasting fragment: a fixed phrase when the flag is
/// `true`.
pub open spec fn spec_spellcasting2020_frag(c: ValueView) -> Option<Seq<char>> {
    if spec_get(c, "spellcasting2020"@) == ValueView::Bool(true) {
        Some("Spellcasting or Pact Magic feature"@)
    } else {
        None
    }
}

/// The free-text fragment: the `other` string passed through unchanged.
pub open spec fn spec_other_frag(c: ValueView) -> Option<Seq<char>> {
    match spec_get(c, "other"@) {
        ValueView::Str(s) => Some(s),
        _ => None,
    }
}

// ---------------------------------------------------------------------------
// Alignment clauses.
// ---------------------------------------------------------------------------

/// The word for one alignment code; codes outside the table have none.
pub open spec fn spec_align_word(code: Seq<char>) -> Option<Seq<char>> {
    if code == "L"@ {
        Some("lawful"@)
    } else if code == "C"@ {
        Some("chaotic"@)
    } else if code == "G"@ {
        Some("good"@)
    } else if code == "E"@ {
        Some("evil"@)
    } else if code == "N"@ || code == "NX"@ || code == "NY"@ {
        Some("neutral"@)
    } else if code == "U"@ {
        Some("unaligned"@)
    } else if code == "A"@ {
        Some("any alignment"@)
    } else {
        None
    }
}

/// The alignment codes of a clause as strings, or nothing when any member
/// is not a string.
pub open spec fn spec_code_strs(ms: Seq<ValueView>) -> Option<Seq<Seq<char>>>
    decreases ms.len(),
{
    if ms.len() == 0 {
        Some(Seq::empty())
    } else {
        match spec_code_strs(ms.subrange(0, ms.len() - 1)) {
            Some(init) => match ms[ms.len() - 1] {
                ValueView::Str(s) => Some(init.push(s)),
                _ => None,
            },
            None => None,
        }
    }
}

/// The alignment fragment of a clause. One or two recognized codes render
/// as their words, space-joined. A larger set renders through the fixed
/// axis-complement table: the three neutral codes together render as
/// `any neutral alignment`, and a five-code set missing exactly one of
/// good, evil, lawful or chaotic renders as `any non-{axis} alignment`.
/// Every other combination contributes nothing.
pub open spec fn spec_align_frag(c: ValueView) -> Option<Seq<char>> {
    match spec_code_strs(spec_members(spec_get(c, "alignment"@))) {
        Some(codes) => {
            if codes.len() == 1 {
                spec_align_word(codes[0])
            } else if codes.len() == 2 {
                match (spec_align_word(codes[0]), spec_align_word(codes[1])) {
                    (Some(a), Some(b)) => Some(a + " "@ + b),
                    _ => None,
                }
            } else if codes.len() == 3 && codes.contains("N"@) && codes.contains("NX"@)
                && codes.contains("NY"@) {
                Some("any neutral alignment"@)
            } else if codes.len() == 5 {
                if !codes.contains("G"@) {
                    Some("any non-good alignment"@)
                } else if !codes.contains("E"@) {
                    Some("any non-evil alignment"@)
                } else if !codes.contains("L"@) {
                    Some("any non-lawful alignment"@)
                } else if !codes.contains("C"@) {
                    Some("any non-chaotic alignment"@)
                } else {
                    None
                }
            } else {
                None
            }
        },
        None => None,
    }
}

// ---------------------------------------------------------------------------
// Clause assembly.
// ---------------------------------------------------------------------------

/// The fragments of one clause, in the registry's fixed order: level, race,
/// ability, proficiency, spellcasting, the 2020 spellcasting feature, free
/// text, then alignment. A `note` key is ignored.
pub open spec fn spec_clause_frags(c: ValueView) -> Seq<Seq<char>> {
    opt_push(
        opt_push(
            opt_push(
                opt_push(
                    opt_push(
                        opt_push(
                            opt_push(
                                opt_push(Seq::empty(), spec_level_frag(c)),
                                spec_race_frag(c),
                            ),
                            spec_ability_frag(c),
                        ),
                        spec_prof_frag(c),
                    ),
                    spec_spellcasting_frag(c),
                ),
                spec_spellcasting2020_frag(c),
            ),
            spec_other_frag(c),
        ),
        spec_align_frag(c),
    )
}

/// The precedence weight of a clause: the weight of the first registry key
/// that contributed a fragment.
pub open spec fn spec_clause_weight(c: ValueView) -> int {
    if spec_level_frag(c) is Some {
        0
    } else if spec_race_frag(c) is Some {
        4
    } else if spec_ability_frag(c) is Some {
        5
    } else if spec_prof_frag(c) is Some {
        6
    } else if spec_spellcasting_frag(c) is Some {
        7
    } else if spec_spellcasting2020_frag(c) is Some {
        7
    } else if spec_other_frag(c) is Some {
        10
    } else {
        12
    }
}

/// Joins a clause's fragments: a fragment holding ` or ` is joined to what
/// came before it with `; `, any other with `, `.
pub open spec fn spec_frags_join(frs: Seq<Seq<char>>) -> Seq<char>
    decreases frs.len(),
{
    if frs.len() == 0 {
        Seq::empty()
    } else if frs.len() == 1 {
        frs[0]
    } else {
        let last = frs[frs.len() - 1];
        let sep: Seq<char> = if spec_contains(last, " or "@) {
            "; "@
        } else {
            ", "@
        };
        spec_frags_join(frs.subrange(0, frs.len() - 1)) + sep + last
    }
}

/// The rendered text and weight of one clause, absent when no key
/// contributes.
pub open spec fn spec_clause_text(c: ValueView) -> Option<(Seq<char>, int)> {
    let frs = spec_clause_frags(c);
    if frs.len() == 0 {
        None
    } else {
        Some((spec_frags_join(frs), spec_clause_weight(c)))
    }
}

/// The rendered clauses of a prerequisite list, with weights, in order.
pub open spec fn spec_clause_texts(cs: Seq<ValueView>) -> Seq<(Seq<char>, int)>
    decreases cs.len(),
{
    if cs.len() == 0 {
        Seq::empty()
    } else {
        let init = spec_clause_texts(cs.subrange(0, cs.len() - 1));
        match spec_clause_text(cs[cs.len() - 1]) {
            Some(t) => init.push(t),
            None => init,
        }
    }
}

/// The clause texts carrying the given weight, keeping their order.
pub open spec fn spec_bucket(xs: Seq<(Seq<char>, int)>, w: int) -> Seq<Seq<char>>
    decreases xs.len(),
{
    if xs.len() == 0 {
        Seq::empty()
    } else {
        let init = spec_bucket(xs.subrange(0, xs.len() - 1), w);
        if xs[xs.len() - 1].1 == w {
            init.push(xs[xs.len() - 1].0)
        } else {
            init
        }
    }
}

/// The clause texts ordered by the fixed key-precedence table: weight
/// buckets concatenated in increasing weight, each keeping input order.
pub open spec fn spec_sorted_texts(xs: Seq<(Seq<char>, int)>) -> Seq<Seq<char>> {
    spec_bucket(xs, 0) + spec_bucket(xs, 4) + spec_bucket(xs, 5) + spec_bucket(xs, 6)
        + spec_bucket(xs, 7) + spec_bucket(xs, 10) + spec_bucket(xs, 12)
}

/// The full prerequisite sentence of a clause list: empty when no clause
/// renders, otherwise `Prerequisite: ` (for exactly one clause) or
/// `Prerequisites: ` (for more) and the ordered clause texts joined by
/// `, `.
pub open spec fn spec_prereq_text(v: ValueView) -> Seq<char> {
    let ss = spec_sorted_texts(spec_clause_texts(spec_members(v)));
    if ss.len() == 0 {
        Seq::empty()
    } else if ss.len() == 1 {
        "Prerequisite: "@ + spec_join(ss, ", "@)
    } else {
        "Prerequisites: "@ + spec_join(ss, ", "@)
    }
}

// ---------------------------------------------------------------------------
// Push lemmas for the loop proofs.
// ---------------------------------------------------------------------------

pub proof fn lemma_race_names_push(rs: Seq<ValueView>, x: ValueView)
    ensures
        spec_race_names(rs.push(x)) == spec_race_names(rs).push(spec_race_name(x)),
{
    let p = rs.push(x);
    assert(p.subrange(0, p.len() - 1) =~= rs);
}

pub proof fn lemma_any_has_key_push(ms: Seq<ValueView>, key: Seq<char>, x: ValueView)
    ensures
        spec_any_has_key(ms.push(x), key) == (spec_any_has_key(ms, key) || spec_has_key(x, key)),
{
    let p = ms.push(x);
    assert(p.subrange(0, p.len() - 1) =~= ms);
}

pub proof fn lemma_threshold_push(ms: Seq<ValueView>, x: ValueView)
    ensures
        spec_abilities_threshold(ms.push(x)) == spec_max(
            spec_abilities_threshold(ms),
            spec_member_threshold(x),
        ),
{
    let p = ms.push(x);
    assert(p.subrange(0, p.len() - 1) =~= ms);
}

pub proof fn lemma_prof_items_push(fs: Seq<(Seq<char>, ValueView)>, x: (Seq<char>, ValueView))
    ensures
        fs.push(x).subrange(0, fs.len() as int) =~= fs,
        spec_prof_items(fs.push(x)) == (if x.0 == "armor"@ {
            spec_prof_items(fs).push(spec_plain_text(x.1) + " armor"@)
        } else if x.0 == "weapon"@ {
            spec_prof_items(fs).push("a "@ + spec_plain_text(x.1) + " weapon"@)
        } else {
            spec_prof_items(fs)
        }),
{
    let p = fs.push(x);
    assert(p.subrange(0, p.len() - 1) =~= fs);
}

pub proof fn lemma_prof_set_texts_push(ms: Seq<ValueView>, x: ValueView)
    ensures
        spec_prof_set_texts(ms.push(x)) == opt_push(spec_prof_set_texts(ms), spec_prof_set_text(x)),
{
    let p = ms.push(x);
    assert(p.subrange(0, p.len() - 1) =~= ms);
}

pub proof fn lemma_code_strs_push(ms: Seq<ValueView>, x: ValueView)
    ensures
        spec_code_strs(ms.push(x)) == (match spec_code_strs(ms) {
            Some(init) => match x {
                ValueView::Str(t) => Some(init.push(t)),
                _ => None,
            },
            None => None,
        }),
{
    let p = ms.push(x);
    assert(p.subrange(0, p.len() - 1) =~= ms);
}

pub proof fn lemma_code_strs_none(ms: Seq<ValueView>, i: int)
    requires
        0 <= i < ms.len(),
        !(ms[i] is Str),
    ensures
        spec_code_strs(ms) is None,
    decreases ms.len(),
{
    if i < ms.len() - 1 {
        lemma_code_strs_none(ms.subrange(0, ms.len() - 1), i);
    }
}

pub proof fn lemma_clause_texts_push(cs: Seq<ValueView>, x: ValueView)
    ensures
        spec_clause_texts(cs.push(x)) == (match spec_clause_text(x) {
            Some(t) => spec_clause_texts(cs).push(t),
            None => spec_clause_texts(cs),
        }),
{
    let p = cs.push(x);
    assert(p.subrange(0, p.len() - 1) =~= cs);
}

pub proof fn lemma_bucket_push(xs: Seq<(Seq<char>, int)>, w: int, x: (Seq<char>, int))
    ensures
        spec_bucket(xs.push(x), w) == (if x.1 == w {
            spec_bucket(xs, w).push(x.0)
        } else {
            spec_bucket(xs, w)
        }),
{
    let p = xs.push(x);
    assert(p.subrange(0, p.len() - 1) =~= xs);
}

pub proof fn lemma_frags_join_push(frs: Seq<Seq<char>>, x: Seq<char>)
    ensures
        frs.len() == 0 ==> spec_frags_join(frs.push(x)) == x,
        frs.len() > 0 ==> spec_frags_join(frs.push(x)) == spec_frags_join(frs) + (if spec_contains(
            x,
            " or "@,
        ) {
            "; "@
        } else {
            ", "@
        }) + x,
{
    let p = frs.push(x);
    assert(p.subrange(0, p.len() - 1) =~= frs);
    if frs.len() == 0 {
        assert(spec_frags_join(p) == p[0]);
    }
}

// ---------------------------------------------------------------------------
// The assembler.
// ---------------------------------------------------------------------------

/// The array members stored under `key`, when that field is an array.
fn arr_of<'a>(v: &'a Value, key: &str) -> (r: Option<&'a Vec<Value>>)
    ensures
        r matches Some(a) ==> spec_members(spec_get(v@, key@)) == spec_arr_view(a@),
        r is None ==> spec_members(spec_get(v@, key@)) == Seq::<ValueView>::empty(),
{
    match v.get(key) {
        Some(x) => match x {
            Value::Arr(a) => Some(a),
            _ => None,
        },
        None => None,
    }
}

fn level_token(n: i64) -> (r: Option<String>)
    ensures
        (match r {
            Some(t) => Some(t@),
            None => None,
        }) == spec_level_token(n as int),
{
    if 0 <= n && n <= 255 {
        let mut t = ordinal_form(n as u8);
        t.append(" level");
        Some(t)
    } else {
        None
    }
}

fn visible_name(r: &Value) -> (o: Option<String>)
    ensures
        (match o {
            Some(t) => Some(t@),
            None => None,
        }) == spec_visible_name(r@),
{
    let visible = match r.get("visible") {
        Some(x) => match x {
            Value::Bool(b) => *b,
            _ => false,
        },
        None => false,
    };
    if visible {
        match r.get("name") {
            Some(x) => Some(plain_text(x)),
            None => Some(String::from_str("null")),
        }
    } else {
        None
    }
}

fn level_frag(c: &Value) -> (r: Option<String>)
    ensures
        (match r {
            Some(t) => Some(t@),
            None => None,
        }) == spec_level_frag(c@),
{
    match c.get("level") {
        Some(lv) => match lv {
            Value::Num(n) => level_token(*n),
            Value::Obj(_) => {
                let mut toks: Vec<String> = Vec::new();
                let level_tok = (match lv.get("level") {
                    Some(x) => match x {
                        Value::Num(n) => if *n == 1 {
                            None
                        } else {
                            level_token(*n)
                        },
                        _ => None,
                    },
                    None => None,
                });
                if let Some(t) = level_tok {
                    toks.push(t);
                }
                let class_tok = (match lv.get("class") {
                    Some(x) => visible_name(x),
                    None => visible_name(&Value::Null),
                });
                if let Some(t) = class_tok {
                    toks.push(t);
                }
                let subclass_tok = (match lv.get("subclass") {
                    Some(x) => visible_name(x),
                    None => visible_name(&Value::Null),
                });
                if let Some(t) = subclass_tok {
                    toks.push(t);
                }
                proof {
                    let ghost lvv = spec_get(c@, "level"@);
                    let ghost level_tok_s = (match spec_get(lvv, "level"@) {
                        ValueView::Num(n) => if n == 1 {
                            None
                        } else {
                            spec_level_token(n)
                        },
                        _ => None,
                    });
                    assert(toks.deep_view() =~= opt_push(
                        opt_push(
                            opt_push(Seq::empty(), level_tok_s),
                            spec_visible_name(spec_get(lvv, "class"@)),
                        ),
                        spec_visible_name(spec_get(lvv, "subclass"@)),
                    ));
                }
                if toks.len() == 0 {
                    None
                } else {
                    Some(join_with(&toks, " "))
                }
            },
            _ => None,
        },
        None => None,
    }
}

fn race_name(r: &Value) -> (o: String)
    ensures
        o@ == spec_race_name(r@),
{
    let base = if r.has_key("displayEntry") {
        match r.get("displayEntry") {
            Some(x) => plain_text(x),
            None => String::from_str("null"),
        }
    } else {
        match r.get("name") {
            Some(x) => plain_text(x),
            None => String::from_str("null"),
        }
    };
    let mut titled = title_case(base.as_str());
    if r.has_key("subrace") {
        titled.append(" (");
        let sub = match r.get("subrace") {
            Some(x) => plain_text(x),
            None => String::from_str("null"),
        };
        titled.append(sub.as_str());
        titled.append(")");
    }
    titled
}

fn race_frag(c: &Value) -> (r: Option<String>)
    ensures
        (match r {
            Some(t) => Some(t@),
            None => None,
        }) == spec_race_frag(c@),
{
    let mut names: Vec<String> = Vec::new();
    match arr_of(c, "race") {
        Some(a) => {
            let ghost iv = spec_arr_view(a@);
            proof {
                lemma_arr_view_len(a@);
                assert(iv.take(0) =~= Seq::<ValueView>::empty());
                assert(names.deep_view() =~= spec_race_names(iv.take(0)));
            }
            let mut i: usize = 0;
            while i < a.len()
                invariant
                    i <= a.len(),
                    iv == spec_arr_view(a@),
                    iv.len() == a@.len(),
                    names.deep_view() == spec_race_names(iv.take(i as int)),
                decreases a.len() - i,
            {
                proof {
                    lemma_arr_view_index(a@, i as int);
                }
                let n = race_name(&a[i]);
                let ghost old_dv = names.deep_view();
                names.push(n);
                proof {
                    lemma_race_names_push(iv.take(i as int), iv[i as int]);
                    assert(iv.take(i as int).push(iv[i as int]) =~= iv.take(i + 1));
                    assert(names.deep_view() =~= old_dv.push(n@));
                }
                i = i + 1;
            }
            proof {
                assert(iv.take(a@.len() as int) =~= iv);
            }
        },
        None => {
            proof {
                assert(names.deep_view() =~= spec_race_names(
                    spec_members(spec_get(c@, "race"@)),
                ));
            }
        },
    }
    join_conjunct(names, ", ", "or ")
}

fn ability_frag(c: &Value) -> (r: Option<String>)
    ensures
        (match r {
            Some(t) => Some(t@),
            None => None,
        }) == spec_ability_frag(c@),
{
    let mut has_str = false;
    let mut has_dex = false;
    let mut has_con = false;
    let mut has_int = false;
    let mut has_wis = false;
    let mut has_cha = false;
    let mut best: i64 = 0;
    let ghost ms = spec_members(spec_get(c@, "ability"@));
    match arr_of(c, "ability") {
        Some(a) => {
            let ghost iv = spec_arr_view(a@);
            proof {
                lemma_arr_view_len(a@);
                assert(iv.take(0) =~= Seq::<ValueView>::empty());
            }
            let mut i: usize = 0;
            while i < a.len()
                invariant
                    i <= a.len(),
                    iv == spec_arr_view(a@),
                    iv.len() == a@.len(),
                    has_str == spec_any_has_key(iv.take(i as int), "str"@),
                    has_dex == spec_any_has_key(iv.take(i as int), "dex"@),
                    has_con == spec_any_has_key(iv.take(i as int), "con"@),
                    has_int == spec_any_has_key(iv.take(i as int), "int"@),
                    has_wis == spec_any_has_key(iv.take(i as int), "wis"@),
                    has_cha == spec_any_has_key(iv.take(i as int), "cha"@),
                    best as int == spec_abilities_threshold(iv.take(i as int)),
                decreases a.len() - i,
            {
                proof {
                    lemma_arr_view_index(a@, i as int);
                    lemma_any_has_key_push(iv.take(i as int), "str"@, iv[i as int]);
                    lemma_any_has_key_push(iv.take(i as int), "dex"@, iv[i as int]);
                    lemma_any_has_key_push(iv.take(i as int), "con"@, iv[i as int]);
                    lemma_any_has_key_push(iv.take(i as int), "int"@, iv[i as int]);
                    lemma_any_has_key_push(iv.take(i as int), "wis"@, iv[i as int]);
                    lemma_any_has_key_push(iv.take(i as int), "cha"@, iv[i as int]);
                    lemma_threshold_push(iv.take(i as int), iv[i as int]);
                    assert(iv.take(i as int).push(iv[i as int]) =~= iv.take(i + 1));
                }
                let m = &a[i];
                has_str = has_str || m.has_key("str");
                has_dex = has_dex || m.has_key("dex");
                has_con = has_con || m.has_key("con");
                has_int = has_int || m.has_key("int");
                has_wis = has_wis || m.has_key("wis");
                has_cha = has_cha || m.has_key("cha");
                let t = member_threshold(m);
                if t > best {
                    best = t;
                }
                i = i + 1;
            }
            proof {
                assert(iv.take(a@.len() as int) =~= iv);
                assert(ms == iv);
            }
        },
        None => {
            proof {
                assert(ms =~= Seq::<ValueView>::empty());
            }
        },
    }
    let mut labels: Vec<String> = Vec::new();
    if has_str {
        labels.push(String::from_str("Strength"));
    }
    if has_dex {
        labels.push(String::from_str("Dexterity"));
    }
    if has_con {
        labels.push(String::from_str("Constitution"));
    }
    if has_int {
        labels.push(String::from_str("Intelligence"));
    }
    if has_wis {
        labels.push(String::from_str("Wisdom"));
    }
    if has_cha {
        labels.push(String::from_str("Charisma"));
    }
    proof {
        assert(labels.deep_view() =~= spec_ability_labels(ms));
    }
    match join_conjunct(labels, ", ", "or ") {
        Some(l) => {
            let mut out = l;
            out.append(" ");
            let num = int_to_string(best);
            out.append(num.as_str());
            out.append(" or higher");
            Some(out)
        },
        None => None,
    }
}

fn key_threshold(m: &Value, key: &str) -> (r: i64)
    ensures
        r as int == spec_key_threshold(m@, key@),
{
    match m.get(key) {
        Some(x) => match x {
            Value::Num(n) => *n,
            _ => 0,
        },
        None => 0,
    }
}

fn member_threshold(m: &Value) -> (r: i64)
    ensures
        r as int == spec_member_threshold(m@),
{
    let mut best = key_threshold(m, "cha");
    let t = key_threshold(m, "wis");
    if t > best {
        best = t;
    }
    let t = key_threshold(m, "int");
    if t > best {
        best = t;
    }
    let t = key_threshold(m, "con");
    if t > best {
        best = t;
    }
    let t = key_threshold(m, "dex");
    if t > best {
        best = t;
    }
    let t = key_threshold(m, "str");
    if t > best {
        best = t;
    }
    best
}

fn prof_set_text(v: &Value) -> (r: Option<String>)
    ensures
        (match r {
            Some(t) => Some(t@),
            None => None,
        }) == spec_prof_set_text(v@),
{
    let mut items: Vec<String> = Vec::new();
    match v {
        Value::Obj(fs) => {
            let ghost fv = spec_fields_view(fs@);
            proof {
                lemma_fields_view_len(fs@);
                assert(fv.take(0) =~= Seq::<(Seq<char>, ValueView)>::empty());
                assert(items.deep_view() =~= spec_prof_items(fv.take(0)));
            }
            let mut i: usize = 0;
            while i < fs.len()
                invariant
                    i <= fs.len(),
                    fv == spec_fields_view(fs@),
                    fv.len() == fs@.len(),
                    v@ == ValueView::Obj(fv),
                    items.deep_view() == spec_prof_items(fv.take(i as int)),
                decreases fs.len() - i,
            {
                proof {
                    lemma_fields_view_index(fs@, i as int);
                    lemma_prof_items_push(fv.take(i as int), fv[i as int]);
                    assert(fv.take(i as int).push(fv[i as int]) =~= fv.take(i + 1));
                }
                let ghost old_dv = items.deep_view();
                if str_eq(fs[i].0.as_str(), "armor") {
                    let mut t = plain_text(&fs[i].1);
                    t.append(" armor");
                    items.push(t);
                    proof {
                        assert(items.deep_view() =~= old_dv.push(
                            spec_plain_text(fv[i as int].1) + " armor"@,
                        ));
                    }
                } else if str_eq(fs[i].0.as_str(), "weapon") {
                    let mut t = String::from_str("a ");
                    let k = plain_text(&fs[i].1);
                    t.append(k.as_str());
                    t.append(" weapon");
                    items.push(t);
                    proof {
                        assert(items.deep_view() =~= old_dv.push(
                            "a "@ + spec_plain_text(fv[i as int].1) + " weapon"@,
                        ));
                    }
                }
                i = i + 1;
            }
            proof {
                assert(fv.take(fs@.len() as int) =~= fv);
            }
        },
        _ => {
            proof {
                assert(items.deep_view() =~= spec_prof_items(spec_obj_fields(v@)));
            }
        },
    }
    join_conjunct(items, ", ", "and ")
}

fn prof_frag(c: &Value) -> (r: Option<String>)
    ensures
        (match r {
            Some(t) => Some(t@),
            None => None,
        }) == spec_prof_frag(c@),
{
    let mut sets: Vec<String> = Vec::new();
    match arr_of(c, "proficiency") {
        Some(a) => {
            let ghost iv = spec_arr_view(a@);
            proof {
                lemma_arr_view_len(a@);
                assert(iv.take(0) =~= Seq::<ValueView>::empty());
                assert(sets.deep_view() =~= spec_prof_set_texts(iv.take(0)));
            }
            let mut i: usize = 0;
            while i < a.len()
                invariant
                    i <= a.len(),
                    iv == spec_arr_view(a@),
                    iv.len() == a@.len(),
                    sets.deep_view() == spec_prof_set_texts(iv.take(i as int)),
                decreases a.len() - i,
            {
                proof {
                    lemma_arr_view_index(a@, i as int);
                    lemma_prof_set_texts_push(iv.take(i as int), iv[i as int]);
                    assert(iv.take(i as int).push(iv[i as int]) =~= iv.take(i + 1));
                }
                let st = prof_set_text(&a[i]);
                let ghost old_dv = sets.deep_view();
                if let Some(t) = st {
                    sets.push(t);
                    proof {
                        assert(sets.deep_view() =~= old_dv.push(
                            spec_prof_set_text(iv[i as int])->Some_0,
                        ));
                    }
                }
                i = i + 1;
            }
            proof {
                assert(iv.take(a@.len() as int) =~= iv);
            }
        },
        None => {
            proof {
                assert(sets.deep_view() =~= spec_prof_set_texts(
                    spec_members(spec_get(c@, "proficiency"@)),
                ));
            }
        },
    }
    match join_conjunct(sets, ", ", "or ") {
        Some(t) => {
            let mut out = String::from_str("Proficiency with ");
            out.append(t.as_str());
            Some(out)
        },
        None => None,
    }
}

fn bool_flag(c: &Value, key: &str) -> (r: bool)
    ensures
        r == (spec_get(c@, key@) == ValueView::Bool(true)),
{
    match c.get(key) {
        Some(x) => match x {
            Value::Bool(b) => *b,
            _ => false,
        },
        None => false,
    }
}

fn spellcasting_frag(c: &Value) -> (r: Option<String>)
    ensures
        (match r {
            Some(t) => Some(t@),
            None => None,
        }) == spec_spellcasting_frag(c@),
{
    if bool_flag(c, "spellcasting") {
        Some(String::from_str("The ability to cast at least one spell"))
    } else {
        None
    }
}

fn spellcasting2020_frag(c: &Value) -> (r: Option<String>)
    ensures
        (match r {
            Some(t) => Some(t@),
            None => None,
        }) == spec_spellcasting2020_frag(c@),
{
    if bool_flag(c, "spellcasting2020") {
        Some(String::from_str("Spellcasting or Pact Magic feature"))
    } else {
        None
    }
}

fn other_frag(c: &Value) -> (r: Option<String>)
    ensures
        (match r {
            Some(t) => Some(t@),
            None => None,
        }) == spec_other_frag(c@),
{
    match c.get("other") {
        Some(x) => match x {
            Value::Str(s) => Some(s.clone()),
            _ => None,
        },
        None => None,
    }
}

fn align_word(code: &str) -> (r: Option<String>)
    ensures
        (match r {
            Some(t) => Some(t@),
            None => None,
        }) == spec_align_word(code@),
{
    if str_eq(code, "L") {
        Some(String::from_str("lawful"))
    } else if str_eq(code, "C") {
        Some(String::from_str("chaotic"))
    } else if str_eq(code, "G") {
        Some(String::from_str("good"))
    } else if str_eq(code, "E") {
        Some(String::from_str("evil"))
    } else if str_eq(code, "N") || str_eq(code, "NX") || str_eq(code, "NY") {
        Some(String::from_str("neutral"))
    } else if str_eq(code, "U") {
        Some(String::from_str("unaligned"))
    } else if str_eq(code, "A") {
        Some(String::from_str("any alignment"))
    } else {
        None
    }
}

fn strs_contain(v: &Vec<String>, lit: &str) -> (r: bool)
    ensures
        r == v.deep_view().contains(lit@),
{
    let mut i: usize = 0;
    while i < v.len()
        invariant
            i <= v.len(),
            forall|j: int| 0 <= j < i ==> v.deep_view()[j] != lit@,
        decreases v.len() - i,
    {
        if str_eq(v[i].as_str(), lit) {
            proof {
                assert(v.deep_view()[i as int] == lit@);
            }
            return true;
        }
        i = i + 1;
    }
    proof {
        assert(forall|j: int| 0 <= j < v.deep_view().len() ==> v.deep_view()[j] != lit@);
    }
    false
}

fn align_frag(c: &Value) -> (r: Option<String>)
    ensures
        (match r {
            Some(t) => Some(t@),
            None => None,
        }) == spec_align_frag(c@),
{
    let ghost ms = spec_members(spec_get(c@, "alignment"@));
    let mut codes: Vec<String> = Vec::new();
    match arr_of(c, "alignment") {
        Some(a) => {
            let ghost iv = spec_arr_view(a@);
            proof {
                lemma_arr_view_len(a@);
                assert(iv.take(0) =~= Seq::<ValueView>::empty());
                assert(spec_code_strs(iv.take(0)) =~= Some(Seq::<Seq<char>>::empty()));
            }
            let mut i: usize = 0;
            while i < a.len()
                invariant
                    i <= a.len(),
                    iv == spec_arr_view(a@),
                    iv.len() == a@.len(),
                    ms == iv,
                    ms == spec_members(spec_get(c@, "alignment"@)),
                    Some(codes.deep_view()) == spec_code_strs(iv.take(i as int)),
                decreases a.len() - i,
            {
                proof {
                    lemma_arr_view_index(a@, i as int);
                    lemma_code_strs_push(iv.take(i as int), iv[i as int]);
                    assert(iv.take(i as int).push(iv[i as int]) =~= iv.take(i + 1));
                }
                match &a[i] {
                    Value::Str(s) => {
                        let ghost old_dv = codes.deep_view();
                        codes.push(s.clone());
                        proof {
                            assert(codes.deep_view() =~= old_dv.push(s@));
                        }
                    },
                    _ => {
                        proof {
                            assert(ms == iv);
                            lemma_code_strs_none(iv, i as int);
                        }
                        return None;
                    },
                }
                i = i + 1;
            }
            proof {
                assert(iv.take(a@.len() as int) =~= iv);
                assert(ms == iv);
            }
        },
        None => {
            proof {
                assert(ms =~= Seq::<ValueView>::empty());
                assert(spec_code_strs(ms) =~= Some(Seq::<Seq<char>>::empty()));
            }
        },
    }
    let ghost cv = codes.deep_view();
    if codes.len() == 1 {
        align_word(codes[0].as_str())
    } else if codes.len() == 2 {
        match align_word(codes[0].as_str()) {
            Some(a) => match align_word(codes[1].as_str()) {
                Some(b) => {
                    let mut out = a;
                    out.append(" ");
                    out.append(b.as_str());
                    Some(out)
                },
                None => None,
            },
            None => None,
        }
    } else if codes.len() == 3 && strs_contain(&codes, "N") && strs_contain(&codes, "NX")
        && strs_contain(&codes, "NY") {
        Some(String::from_str("any neutral alignment"))
    } else if codes.len() == 5 {
        if !strs_contain(&codes, "G") {
            Some(String::from_str("any non-good alignment"))
        } else if !strs_contain(&codes, "E") {
            Some(String::from_str("any non-evil alignment"))
        } else if !strs_contain(&codes, "L") {
            Some(String::from_str("any non-lawful alignment"))
        } else if !strs_contain(&codes, "C") {
            Some(String::from_str("any non-chaotic alignment"))
        } else {
            None
        }
    } else {
        None
    }
}

#[verifier::rlimit(100)]
fn clause_frags(c: &Value) -> (r: (Vec<String>, u8))
    ensures
        r.0.deep_view() == spec_clause_frags(c@),
        r.1 as int == spec_clause_weight(c@),
{
    let lv = level_frag(c);
    let ra = race_frag(c);
    let ab = ability_frag(c);
    let pr = prof_frag(c);
    let sc = spellcasting_frag(c);
    let s2 = spellcasting2020_frag(c);
    let ot = other_frag(c);
    let al = align_frag(c);
    let w: u8 = if lv.is_some() {
        0
    } else if ra.is_some() {
        4
    } else if ab.is_some() {
        5
    } else if pr.is_some() {
        6
    } else if sc.is_some() {
        7
    } else if s2.is_some() {
        7
    } else if ot.is_some() {
        10
    } else {
        12
    };
    let mut frs: Vec<String> = Vec::new();
    let ghost g0 = Seq::<Seq<char>>::empty();
    if let Some(t) = lv {
        frs.push(t);
    }
    let ghost g1 = opt_push(g0, spec_level_frag(c@));
    proof {
        assert(frs.deep_view() =~= g1);
    }
    if let Some(t) = ra {
        frs.push(t);
    }
    let ghost g2 = opt_push(g1, spec_race_frag(c@));
    proof {
        assert(frs.deep_view() =~= g2);
    }
    if let Some(t) = ab {
        frs.push(t);
    }
    let ghost g3 = opt_push(g2, spec_ability_frag(c@));
    proof {
        assert(frs.deep_view() =~= g3);
    }
    if let Some(t) = pr {
        frs.push(t);
    }
    let ghost g4 = opt_push(g3, spec_prof_frag(c@));
    proof {
        assert(frs.deep_view() =~= g4);
    }
    if let Some(t) = sc {
        frs.push(t);
    }
    let ghost g5 = opt_push(g4, spec_spellcasting_frag(c@));
    proof {
        assert(frs.deep_view() =~= g5);
    }
    if let Some(t) = s2 {
        frs.push(t);
    }
    let ghost g6 = opt_push(g5, spec_spellcasting2020_frag(c@));
    proof {
        assert(frs.deep_view() =~= g6);
    }
    if let Some(t) = ot {
        frs.push(t);
    }
    let ghost g7 = opt_push(g6, spec_other_frag(c@));
    proof {
        assert(frs.deep_view() =~= g7);
    }
    if let Some(t) = al {
        frs.push(t);
    }
    let ghost g8 = opt_push(g7, spec_align_frag(c@));
    proof {
        assert(frs.deep_view() =~= g8);
        assert(g8 == spec_clause_frags(c@));
    }
    (frs, w)
}

fn clause_text(c: &Value) -> (r: Option<(String, u8)>)
    ensures
        (match r {
            Some(p) => Some((p.0@, p.1 as int)),
            None => None,
        }) == spec_clause_text(c@),
{
    let fw = clause_frags(c);
    let frs = fw.0;
    let w = fw.1;
    if frs.len() == 0 {
        proof {
            assert(frs.deep_view().len() == 0);
        }
        return None;
    }
    let ghost dv = frs.deep_view();
    let mut text = frs[0].clone();
    proof {
        assert(dv.take(1) =~= Seq::<Seq<char>>::empty().push(dv[0]));
        lemma_frags_join_push(Seq::empty(), dv[0]);
    }
    let mut i: usize = 1;
    while i < frs.len()
        invariant
            1 <= i <= frs.len(),
            dv == frs.deep_view(),
            dv.len() == frs@.len(),
            text@ == spec_frags_join(dv.take(i as int)),
        decreases frs.len() - i,
    {
        proof {
            assert(dv[i as int] == frs@[i as int]@);
        }
        let sep: &str = if contains_sub(frs[i].as_str(), " or ") {
            "; "
        } else {
            ", "
        };
        text.append(sep);
        text.append(frs[i].as_str());
        proof {
            lemma_frags_join_push(dv.take(i as int), dv[i as int]);
            assert(dv.take(i as int).push(dv[i as int]) =~= dv.take(i + 1));
        }
        i = i + 1;
    }
    proof {
        assert(dv.take(frs@.len() as int) =~= dv);
    }
    Some((text, w))
}

fn bucket_into(
    out: &mut Vec<String>,
    texts: &Vec<(String, u8)>,
    Ghost(xs): Ghost<Seq<(Seq<char>, int)>>,
    w: u8,
)
    requires
        texts@.len() == xs.len(),
        forall|j: int|
            0 <= j < xs.len() ==> ((#[trigger] texts@[j]).0@ == xs[j].0 && texts@[j].1 as int
                == xs[j].1),
    ensures
        final(out).deep_view() == old(out).deep_view() + spec_bucket(xs, w as int),
{
    let ghost base = out.deep_view();
    proof {
        assert(xs.take(0) =~= Seq::<(Seq<char>, int)>::empty());
        assert(out.deep_view() =~= base + spec_bucket(xs.take(0), w as int));
    }
    let mut j: usize = 0;
    while j < texts.len()
        invariant
            j <= texts.len(),
            texts@.len() == xs.len(),
            forall|k: int|
                0 <= k < xs.len() ==> ((#[trigger] texts@[k]).0@ == xs[k].0 && texts@[k].1 as int
                    == xs[k].1),
            out.deep_view() == base + spec_bucket(xs.take(j as int), w as int),
        decreases texts.len() - j,
    {
        proof {
            lemma_bucket_push(xs.take(j as int), w as int, xs[j as int]);
            assert(xs.take(j as int).push(xs[j as int]) =~= xs.take(j + 1));
        }
        if texts[j].1 == w {
            let t = texts[j].0.clone();
            let ghost old_dv = out.deep_view();
            out.push(t);
            proof {
                assert(out.deep_view() =~= old_dv.push(xs[j as int].0));
            }
        }
        j = j + 1;
    }
    proof {
        assert(xs.take(texts@.len() as int) =~= xs);
    }
}

/// A prerequisite list in which no clause resolves to text renders as the
/// empty string: no prefix and no trailing content.
pub proof fn lemma_prereq_empty(v: ValueView)
    ensures
        spec_clause_texts(spec_members(v)).len() == 0 ==> spec_prereq_text(v) == Seq::<
            char,
        >::empty(),
{
    let xs = spec_clause_texts(spec_members(v));
    if xs.len() == 0 {
        assert(spec_sorted_texts(xs) =~= Seq::<Seq<char>>::empty());
    }
}

/// Renders a prerequisite clause list into one sentence: each clause's
/// fragments are assembled in registry order, the clause texts are ordered
/// by the fixed key-precedence table, and the result carries the
/// `Prerequisite: ` prefix for one clause, `Prerequisites: ` for several,
/// or is empty when nothing renders.
pub fn to_string(from: &Value) -> (r: String)
    ensures
        r@ == spec_prereq_text(from@),
{
    let ghost cv = spec_members(from@);
    let mut texts: Vec<(String, u8)> = Vec::new();
    let ghost mut found: Seq<(Seq<char>, int)> = Seq::empty();
    match from {
        Value::Arr(a) => {
            let ghost iv = spec_arr_view(a@);
            proof {
                lemma_arr_view_len(a@);
                assert(iv.take(0) =~= Seq::<ValueView>::empty());
            }
            let mut i: usize = 0;
            while i < a.len()
                invariant
                    i <= a.len(),
                    iv == spec_arr_view(a@),
                    iv.len() == a@.len(),
                    found == spec_clause_texts(iv.take(i as int)),
                    texts@.len() == found.len(),
                    forall|k: int|
                        0 <= k < found.len() ==> ((#[trigger] texts@[k]).0@ == found[k].0
                            && texts@[k].1 as int == found[k].1),
                decreases a.len() - i,
            {
                proof {
                    lemma_arr_view_index(a@, i as int);
                    lemma_clause_texts_push(iv.take(i as int), iv[i as int]);
                    assert(iv.take(i as int).push(iv[i as int]) =~= iv.take(i + 1));
                }
                if let Some(p) = clause_text(&a[i]) {
                    proof {
                        found = found.push((p.0@, p.1 as int));
                    }
                    texts.push(p);
                }
                i = i + 1;
            }
            proof {
                assert(iv.take(a@.len() as int) =~= iv);
                assert(cv == iv);
            }
        },
        _ => {
            proof {
                assert(cv =~= Seq::<ValueView>::empty());
            }
        },
    }
    let ghost xs = found;
    proof {
        assert(xs == spec_clause_texts(cv));
    }
    let mut sorted: Vec<String> = Vec::new();
    bucket_into(&mut sorted, &texts, Ghost(xs), 0);
    bucket_into(&mut sorted, &texts, Ghost(xs), 4);
    bucket_into(&mut sorted, &texts, Ghost(xs), 5);
    bucket_into(&mut sorted, &texts, Ghost(xs), 6);
    bucket_into(&mut sorted, &texts, Ghost(xs), 7);
    bucket_into(&mut sorted, &texts, Ghost(xs), 10);
    bucket_into(&mut sorted, &texts, Ghost(xs), 12);
    proof {
        assert(sorted.deep_view() =~= spec_sorted_texts(xs));
    }
    if sorted.len() == 0 {
        proof {
            assert(sorted.deep_view().len() == 0);
        }
        String::new()
    } else {
        let mut out = if sorted.len() == 1 {
            String::from_str("Prerequisite: ")
        } else {
            String::from_str("Prerequisites: ")
        };
        let joined = join_with(&sorted, ", ");
        out.append(joined.as_str());
        out
    }
}

} // verus!
