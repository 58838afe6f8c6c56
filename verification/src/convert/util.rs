use vstd::prelude::*;
use vstd::string::StrSliceExecFns;
use vstd::string::StringExecFns;

verus! {

// ---------------------------------------------------------------------------
// Joining a list of strings with a separator.
// ---------------------------------------------------------------------------

/// The separator-join of `parts`: empty for no parts, otherwise the parts in
/// order with `sep` between each neighbouring pair.
pub open spec fn spec_join(parts: Seq<Seq<char>>, sep: Seq<char>) -> Seq<char>
    decreases parts.len(),
{
    if parts.len() == 0 {
        Seq::empty()
    } else if parts.len() == 1 {
        parts[0]
    } else {
        spec_join(parts.drop_last(), sep) + sep + parts.last()
    }
}

pub proof fn lemma_join_push(parts: Seq<Seq<char>>, sep: Seq<char>, last: Seq<char>)
    ensures
        parts.len() == 0 ==> spec_join(parts.push(last), sep) == last,
        parts.len() > 0 ==> spec_join(parts.push(last), sep) == spec_join(parts, sep) + sep
            + last,
{
    let pushed = parts.push(last);
    assert(pushed.drop_last() =~= parts);
    assert(pushed.last() == last);
    if parts.len() == 0 {
        assert(spec_join(pushed, sep) == pushed[0]);
    }
}

/// Joins the strings in `parts` with the separator `sep`.
pub fn join_with(parts: &Vec<String>, sep: &str) -> (r: String)
    ensures
        r@ == spec_join(parts.deep_view(), sep@),
{
    let ghost all = parts.deep_view();
    let mut out = String::new();
    let mut i: usize = 0;
    while i < parts.len()
        invariant
            i <= parts.len(),
            all == parts.deep_view(),
            all.len() == parts.len(),
            forall|j: int| 0 <= j < all.len() ==> all[j] == parts@[j]@,
            out@ == spec_join(all.take(i as int), sep@),
        decreases parts.len() - i,
    {
        proof {
            lemma_join_push(all.take(i as int), sep@, all[i as int]);
            assert(all.take(i as int).push(all[i as int]) =~= all.take(i + 1));
        }
        if i > 0 {
            out.append(sep);
        }
        out.append(parts[i].as_str());
        i = i + 1;
    }
    proof {
        assert(all.take(parts.len() as int) =~= all);
    }
    out
}

// ---------------------------------------------------------------------------
// Natural-language conjunctive joins.
// ---------------------------------------------------------------------------

/// The conjunctive join: nothing for an empty list, a single item unchanged,
/// `"a {conjunction}b"` for a pair, and an Oxford-style list (separator
/// between all but the last item, separator plus conjunction before the last)
/// for three or more.
pub open spec fn spec_join_conjunct(v: Seq<Seq<char>>, s1: Seq<char>, s2: Seq<char>) -> Option<
    Seq<char>,
> {
    if v.len() == 0 {
        None
    } else if v.len() == 1 {
        Some(v[0])
    } else if v.len() == 2 {
        Some(v[0] + seq![' '] + s2 + v[1])
    } else {
        Some(spec_join(v.drop_last(), s1) + s1 + s2 + v.last())
    }
}

/// Joins `v` into natural-language prose: `s1` is the list separator and `s2`
/// the conjunction word (with its trailing space), as in
/// `join_conjunct(vec!["a", "b", "c"], ", ", "or ")` giving `"a, b, or c"`.
pub fn join_conjunct(v: Vec<String>, s1: &str, s2: &str) -> (r: Option<String>)
    ensures
        r is Some <==> spec_join_conjunct(v.deep_view(), s1@, s2@) is Some,
        r matches Some(s) ==> Some(s@) == spec_join_conjunct(v.deep_view(), s1@, s2@),
{
    let ghost all = v.deep_view();
    if v.len() == 0 {
        return None;
    }
    if v.len() == 1 {
        let mut out = String::new();
        out.append(v[0].as_str());
        return Some(out);
    }
    if v.len() == 2 {
        let mut out = String::new();
        out.append(v[0].as_str());
        out.append(" ");
        out.append(s2);
        out.append(v[1].as_str());
        proof {
            reveal_strlit(" ");
            assert(" "@ =~= seq![' ']);
        }
        return Some(out);
    }
    let mut head: Vec<String> = Vec::new();
    let mut i: usize = 0;
    while i < v.len() - 1
        invariant
            i <= v.len() - 1,
            v.len() >= 3,
            all == v.deep_view(),
            all.len() == v.len(),
            head.deep_view() =~= all.take(i as int),
        decreases v.len() - i,
    {
        head.push(v[i].clone());
        proof {
            assert(head.deep_view() =~= all.take(i as int).push(all[i as int]));
            assert(all.take(i as int).push(all[i as int]) =~= all.take(i + 1));
        }
        i = i + 1;
    }
    let mut out = join_with(&head, s1);
    out.append(s1);
    out.append(s2);
    out.append(v[v.len() - 1].as_str());
    proof {
        assert(all.take(v.len() - 1) =~= all.drop_last());
        assert(all[all.len() - 1] == all.last());
    }
    Some(out)
}

// ---------------------------------------------------------------------------
// Decimal numerals.
// ---------------------------------------------------------------------------

/// The decimal digit character for `d` (0 through 9).
pub open spec fn spec_digit(d: int) -> char {
    if d == 0 {
        '0'
    } else if d == 1 {
        '1'
    } else if d == 2 {
        '2'
    } else if d == 3 {
        '3'
    } else if d == 4 {
        '4'
    } else if d == 5 {
        '5'
    } else if d == 6 {
        '6'
    } else if d == 7 {
        '7'
    } else if d == 8 {
        '8'
    } else {
        '9'
    }
}

/// The decimal numeral of a non-negative integer, without sign or padding.
pub open spec fn spec_dec_digits(n: int) -> Seq<char>
    decreases n,
{
    if n < 10 {
        seq![spec_digit(n)]
    } else {
        spec_dec_digits(n / 10).push(spec_digit(n % 10))
    }
}

/// The decimal numeral of an integer, with a leading minus sign when negative.
pub open spec fn spec_int_str(n: int) -> Seq<char> {
    if n < 0 {
        seq!['-'] + spec_dec_digits(-n)
    } else {
        spec_dec_digits(n)
    }
}

fn digit_char(d: u64) -> (c: char)
    requires
        d < 10,
    ensures
        c == spec_digit(d as int),
{
    match d {
        0 => '0',
        1 => '1',
        2 => '2',
        3 => '3',
        4 => '4',
        5 => '5',
        6 => '6',
        7 => '7',
        8 => '8',
        _ => '9',
    }
}

fn push_digits(n: u64, out: &mut Vec<char>)
    ensures
        final(out)@ == old(out)@ + spec_dec_digits(n as int),
    decreases n,
{
    if n >= 10 {
        push_digits(n / 10, out);
    }
    out.push(digit_char(n % 10));
}

/// Converts a vector of characters into the string holding exactly those
/// characters. Relies on `String`'s `FromIterator`, which collects the
/// characters in order.
#[verifier::external_body]
fn chars_to_string(v: &Vec<char>) -> (r: String)
    ensures
        r@ == v@,
{
    v.iter().collect()
}

/// The decimal numeral of `n` as a string.
pub fn int_to_string(n: i64) -> (r: String)
    ensures
        r@ == spec_int_str(n as int),
{
    let mut chars: Vec<char> = Vec::new();
    if n < 0 {
        chars.push('-');
        let m: u64 = if n == i64::MIN {
            9223372036854775808u64
        } else {
            (-n) as u64
        };
        push_digits(m, &mut chars);
    } else {
        push_digits(n as u64, &mut chars);
    }
    chars_to_string(&chars)
}

// ---------------------------------------------------------------------------
// Ordinal numerals.
// ---------------------------------------------------------------------------

/// The ordinal suffix for `n`: `st`, `nd` or `rd` by the last digit, except
/// that 11, 12 and 13 (checked modulo 100) always take `th`.
pub open spec fn spec_ordinal_suffix(n: int) -> Seq<char> {
    if n % 10 == 1 && n % 100 != 11 {
        seq!['s', 't']
    } else if n % 10 == 2 && n % 100 != 12 {
        seq!['n', 'd']
    } else if n % 10 == 3 && n % 100 != 13 {
        seq!['r', 'd']
    } else {
        seq!['t', 'h']
    }
}

/// The ordinal numeral of `n`: its decimal digits followed by the suffix.
pub open spec fn spec_ordinal(n: int) -> Seq<char> {
    spec_dec_digits(n) + spec_ordinal_suffix(n)
}

/// Renders `i` as an English ordinal numeral, such as `1st`, `2nd`, `3rd`,
/// `4th`, with `11th`, `12th` and `13th` as the teen exceptions.
pub fn ordinal_form(i: u8) -> (r: String)
    ensures
        r@ == spec_ordinal(i as int),
{
    let mut chars: Vec<char> = Vec::new();
    push_digits(i as u64, &mut chars);
    let mut out = chars_to_string(&chars);
    let m0 = i % 10;
    let m1 = i % 100;
    if m0 == 1 && m1 != 11 {
        out.append("st");
        proof {
            reveal_strlit("st");
            assert("st"@ =~= seq!['s', 't']);
        }
    } else if m0 == 2 && m1 != 12 {
        out.append("nd");
        proof {
            reveal_strlit("nd");
            assert("nd"@ =~= seq!['n', 'd']);
        }
    } else if m0 == 3 && m1 != 13 {
        out.append("rd");
        proof {
            reveal_strlit("rd");
            assert("rd"@ =~= seq!['r', 'd']);
        }
    } else {
        out.append("th");
        proof {
            reveal_strlit("th");
            assert("th"@ =~= seq!['t', 'h']);
        }
    }
    out
}

// ---------------------------------------------------------------------------
// Title case.
// ---------------------------------------------------------------------------

/// Uppercases an ASCII lowercase letter; any other character is unchanged.
pub open spec fn spec_upper(c: char) -> char {
    if 'a' <= c && c <= 'z' {
        ((c as u8) - 32) as char
    } else {
        c
    }
}

/// Lowercases an ASCII uppercase letter; any other character is unchanged.
pub open spec fn spec_lower(c: char) -> char {
    if 'A' <= c && c <= 'Z' {
        ((c as u8) + 32) as char
    } else {
        c
    }
}

/// Title case over hyphen-separated segments: the first character of each
/// segment (a position at the start or right after a `-`) is uppercased and
/// every other character is lowercased; the hyphens themselves stay.
pub open spec fn spec_title_case(s: Seq<char>) -> Seq<char> {
    Seq::new(
        s.len(),
        |i: int|
            if i == 0 || s[i - 1] == '-' {
                spec_upper(s[i])
            } else {
                spec_lower(s[i])
            },
    )
}

fn upper_char(c: char) -> (r: char)
    ensures
        r == spec_upper(c),
{
    if 'a' <= c && c <= 'z' {
        ((c as u8) - 32) as char
    } else {
        c
    }
}

fn lower_char(c: char) -> (r: char)
    ensures
        r == spec_lower(c),
{
    if 'A' <= c && c <= 'Z' {
        ((c as u8) + 32) as char
    } else {
        c
    }
}

/// Capitalizes the first letter of each hyphen-separated segment of `s` and
/// lowercases the rest of each segment, keeping the hyphens.
pub fn title_case(s: &str) -> (r: String)
    ensures
        r@ == spec_title_case(s@),
{
    let n = s.unicode_len();
    let mut chars: Vec<char> = Vec::new();
    let mut i: usize = 0;
    while i < n
        invariant
            i <= n,
            n == s@.len(),
            chars@ =~= spec_title_case(s@).take(i as int),
        decreases n - i,
    {
        let c = s.get_char(i);
        let start = if i == 0 {
            true
        } else {
            s.get_char(i - 1) == '-'
        };
        if start {
            chars.push(upper_char(c));
        } else {
            chars.push(lower_char(c));
        }
        proof {
            assert(chars@ =~= spec_title_case(s@).take(i + 1));
        }
        i = i + 1;
    }
    proof {
        assert(spec_title_case(s@).take(n as int) =~= spec_title_case(s@));
    }
    chars_to_string(&chars)
}

// ---------------------------------------------------------------------------
// String comparison and substring search.
// ---------------------------------------------------------------------------

/// Whether the characters of `a` and `b` are equal.
pub fn str_eq(a: &str, b: &str) -> (r: bool)
    ensures
        r == (a@ == b@),
{
    let an = a.unicode_len();
    let bn = b.unicode_len();
    if an != bn {
        return false;
    }
    let mut i: usize = 0;
    while i < an
        invariant
            i <= an,
            an == a@.len(),
            an == b@.len(),
            forall|j: int| 0 <= j < i ==> a@[j] == b@[j],
        decreases an - i,
    {
        if a.get_char(i) != b.get_char(i) {
            return false;
        }
        i = i + 1;
    }
    proof {
        assert(a@ =~= b@);
    }
    true
}

/// Whether `n` occurs as a contiguous run inside `h`.
pub open spec fn spec_contains(h: Seq<char>, n: Seq<char>) -> bool {
    exists|i: int| 0 <= i && i + n.len() <= h.len() && #[trigger] h.subrange(i, i + n.len()) == n
}

fn matches_at(hay: &str, needle: &str, at: usize) -> (r: bool)
    requires
        at + needle@.len() <= hay@.len(),
    ensures
        r == (hay@.subrange(at as int, at + needle@.len()) == needle@),
{
    let n = needle.unicode_len();
    let hn = hay.unicode_len();
    let mut j: usize = 0;
    while j < n
        invariant
            j <= n,
            n == needle@.len(),
            hn == hay@.len(),
            at + n <= hay@.len(),
            forall|k: int| 0 <= k < j ==> hay@[at + k] == needle@[k],
        decreases n - j,
    {
        if hay.get_char(at + j) != needle.get_char(j) {
            proof {
                assert(hay@.subrange(at as int, at + n) != needle@) by {
                    assert(hay@.subrange(at as int, at + n)[j as int] != needle@[j as int]);
                }
            }
            return false;
        }
        j = j + 1;
    }
    proof {
        assert(hay@.subrange(at as int, at + n) =~= needle@);
    }
    true
}

/// Whether the characters of `needle` occur as a contiguous run inside `hay`.
pub fn contains_sub(hay: &str, needle: &str) -> (r: bool)
    ensures
        r == spec_contains(hay@, needle@),
{
    let hn = hay.unicode_len();
    let nn = needle.unicode_len();
    if nn > hn {
        return false;
    }
    if nn == 0 {
        proof {
            assert(spec_contains(hay@, needle@)) by {
                assert(hay@.subrange(0, 0 + needle@.len() as int) =~= needle@);
            }
        }
        return true;
    }
    let mut i: usize = 0;
    while i <= hn - nn
        invariant
            0 < nn <= hn,
            hn == hay@.len(),
            nn == needle@.len(),
            i <= hn - nn + 1,
            forall|k: int|
                0 <= k < i ==> #[trigger] hay@.subrange(k, k + needle@.len()) != needle@,
        decreases hn - nn + 1 - i,
    {
        if matches_at(hay, needle, i) {
            return true;
        }
        i = i + 1;
    }
    false
}

} // verus!
