use vstd::prelude::*;
use vstd::string::StringExecFns;
use crate::value::Value;
use crate::value::ValueView;
use crate::value::spec_get;
use crate::convert::entries::spec_plain_text;
use crate::convert::entries::plain_text;

verus! {

/// The display name of a race variant: `{name} ({source})`, with a letter
/// (`A` for the first variant, `B` for the second) between name and source
/// when several variants exist; a suffixed variant past the second has no
/// name and is dropped.
pub open spec fn spec_name(race: ValueView, idx: int, suffix: bool) -> Option<Seq<char>> {
    if suffix && idx >= 2 {
        None
    } else {
        let base = spec_plain_text(spec_get(race, "name"@));
        let src = spec_plain_text(spec_get(race, "source"@));
        if suffix {
            let letter: Seq<char> = if idx == 0 {
                "A"@
            } else {
                "B"@
            };
            Some(base + " "@ + letter + " ("@ + src + ")"@)
        } else {
            Some(base + " ("@ + src + ")"@)
        }
    }
}

/// Renders the display name of the race variant at `idx`, suffixed when
/// the race has several variants.
pub fn for_race(race: &Value, idx: usize, suffix: bool) -> (r: Option<String>)
    ensures
        (match r {
            Some(t) => Some(t@),
            None => None,
        }) == spec_name(race@, idx as int, suffix),
{
    if suffix && idx >= 2 {
        return None;
    }
    let base = (match race.get("name") {
        Some(x) => plain_text(x),
        None => String::from_str("null"),
    });
    let src = (match race.get("source") {
        Some(x) => plain_text(x),
        None => String::from_str("null"),
    });
    let mut out = base;
    if suffix {
        out.append(" ");
        if idx == 0 {
            out.append("A");
        } else {
            out.append("B");
        }
        out.append(" (");
    } else {
        out.append(" (");
    }
    out.append(src.as_str());
    out.append(")");
    Some(out)
}

} // verus!
