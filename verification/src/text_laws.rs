//! What shortening, writing numbers and naming come to, character by character.
use crate::model::SessionSpecView;
use crate::naming::after_last_separator;
use crate::naming::ascii_short_id;
use crate::naming::component;
use crate::naming::generated_name;
use crate::naming::is_component;
use crate::naming::is_name_of;
use crate::naming::is_plain_path;
use crate::naming::is_uuid_v4;
use crate::naming::uuid_is_ascii;
use crate::naming::without_tail;
use crate::text::decimal;
use crate::text::digit;
use crate::text::first_chars;
use crate::text::is_white_space;
use crate::text::or_text;
use crate::text::signed_decimal;
use crate::text::trimmed;
use crate::text::trimmed_end;
use crate::text::trimmed_start;
use crate::text::truncated;
use vstd::prelude::*;

verus! {

// ---- choosing and shortening -----------------------------------------------

/// Of two optional texts the first one counts; the second stands in for it only
/// where it is missing.
pub proof fn the_first_text_counts(a: Seq<char>, b: Option<Seq<char>>)
    ensures
        or_text(Some(a), b) == Some(a),
        or_text(None, b) == b,
{
}

/// A text that fits is shown as it is. One that does not is cut to exactly the
/// limit and marked with one ellipsis, or cut to the limit without a mark.
pub proof fn what_is_cut_off(s: Seq<char>, max: nat)
    ensures
        s.len() <= max ==> truncated(s, max as int) == s && first_chars(s, max as int) == s,
        s.len() > max ==> {
            &&& truncated(s, max as int).len() == max + 1
            &&& truncated(s, max as int)[max as int] == '\u{2026}'
            &&& forall|i: int| 0 <= i < max ==> #[trigger] truncated(s, max as int)[i] == s[i]
            &&& first_chars(s, max as int).len() == max
            &&& forall|i: int| 0 <= i < max ==> #[trigger] first_chars(s, max as int)[i] == s[i]
        },
{
}

// ---- trimming --------------------------------------------------------------

/// Trimming takes white space from the two ends and nothing else: what is left is
/// a part of the text, neither begins nor ends with white space, and all that
/// stood before and after it was white space.
pub proof fn what_trimming_leaves(s: Seq<char>)
    ensures
        exists|i: int, j: int|
            0 <= i <= j <= s.len() && #[trigger] s.subrange(i, j) == trimmed(s) && (forall|k: int|
                0 <= k < i || j <= k < s.len() ==> is_white_space(#[trigger] s[k])),
        trimmed(s).len() > 0 ==> !is_white_space(trimmed(s)[0]) && !is_white_space(
            trimmed(s).last(),
        ),
        trimmed(s).len() == 0 <==> forall|k: int|
            0 <= k < s.len() ==> is_white_space(#[trigger] s[k]),
{
    lemma_start(s);
    let t = trimmed_start(s);
    lemma_end(t);
    let i = s.len() - t.len();
    let u = trimmed(s);
    let j = i + u.len();
    assert(s.subrange(i, j) =~= u);
    assert forall|k: int| 0 <= k < i || j <= k < s.len() implies is_white_space(
        #[trigger] s[k],
    ) by {
        if k >= j {
            assert(t[k - i] == s[k]);
        }
    }
    if u.len() > 0 {
        assert(u[0] == t[0]);
        assert(s[i] == u[0]);
    }
}

/// Blanks, tabs and line ends are white space; no ASCII character that can be
/// seen is.
pub proof fn what_white_space_is(c: char)
    ensures
        c == ' ' || c == '\t' || c == '\n' || c == '\r' ==> is_white_space(c),
        '!' <= c <= '~' ==> !is_white_space(c),
{
}

proof fn lemma_start(s: Seq<char>)
    ensures
        trimmed_start(s).len() <= s.len(),
        trimmed_start(s) == s.skip(s.len() - trimmed_start(s).len()),
        forall|k: int|
            0 <= k < s.len() - trimmed_start(s).len() ==> is_white_space(#[trigger] s[k]),
        trimmed_start(s).len() > 0 ==> !is_white_space(trimmed_start(s)[0]),
    decreases s.len(),
{
    if s.len() > 0 && is_white_space(s[0]) {
        let t = s.drop_first();
        lemma_start(t);
        let n = s.len() - trimmed_start(s).len();
        assert(s.skip(n) =~= t.skip(n - 1));
        assert forall|k: int| 0 <= k < n implies is_white_space(#[trigger] s[k]) by {
            if k > 0 {
                assert(t[k - 1] == s[k]);
            }
        }
    } else {
        assert(s.skip(0) =~= s);
    }
}

proof fn lemma_end(s: Seq<char>)
    ensures
        trimmed_end(s).len() <= s.len(),
        trimmed_end(s) == s.take(trimmed_end(s).len() as int),
        forall|k: int| trimmed_end(s).len() <= k < s.len() ==> is_white_space(#[trigger] s[k]),
        trimmed_end(s).len() > 0 ==> !is_white_space(trimmed_end(s).last()),
    decreases s.len(),
{
    if s.len() > 0 && is_white_space(s.last()) {
        let t = s.drop_last();
        lemma_end(t);
        let n = trimmed_end(s).len() as int;
        assert(s.take(n) =~= t.take(n));
        assert forall|k: int| n <= k < s.len() implies is_white_space(#[trigger] s[k]) by {
            if k < s.len() - 1 {
                assert(t[k] == s[k]);
            }
        }
    } else {
        assert(s.take(s.len() as int) =~= s);
    }
}

// ---- numbers ---------------------------------------------------------------

/// The number that a row of decimal digits stands for.
pub open spec fn number_of(s: Seq<char>) -> int
    decreases s.len(),
{
    if s.len() == 0 {
        0
    } else {
        number_of(s.drop_last()) * 10 + (s.last() as int - '0' as int)
    }
}

/// A numeral consists of digits, has no leading zero, and stands for the number
/// it was made of.
pub proof fn a_numeral_stands_for_its_number(n: nat)
    ensures
        decimal(n).len() > 0,
        forall|i: int| 0 <= i < decimal(n).len() ==> '0' <= #[trigger] decimal(n)[i] <= '9',
        decimal(n).len() > 1 ==> decimal(n)[0] != '0',
        n > 0 ==> decimal(n)[0] != '0',
        number_of(decimal(n)) == n,
    decreases n,
{
    if n < 10 {
        lemma_digit(n as int);
        reveal_with_fuel(number_of, 2);
        assert(decimal(n).drop_last() =~= Seq::<char>::empty());
    } else {
        a_numeral_stands_for_its_number(n / 10);
        lemma_digit((n % 10) as int);
        assert(decimal(n).drop_last() =~= decimal(n / 10));
        assert(decimal(n)[0] == decimal(n / 10)[0]);
    }
}

proof fn lemma_digit(d: int)
    requires
        0 <= d < 10,
    ensures
        digit(d) as int == '0' as int + d,
        '0' <= digit(d) <= '9',
        d > 0 ==> digit(d) != '0',
{
}

/// A negative number is written with one minus sign before its magnitude, any
/// other without a sign.
pub proof fn a_signed_numeral_stands_for_its_number(n: int)
    ensures
        n >= 0 ==> number_of(signed_decimal(n)) == n && signed_decimal(n)[0] != '-',
        n < 0 ==> signed_decimal(n).len() > 1 && signed_decimal(n)[0] == '-' && number_of(
            signed_decimal(n).skip(1),
        ) == -n,
{
    if n < 0 {
        a_numeral_stands_for_its_number((-n) as nat);
        assert(signed_decimal(n).skip(1) =~= decimal((-n) as nat));
    } else {
        a_numeral_stands_for_its_number(n as nat);
        assert('0' <= decimal(n as nat)[0]);
    }
}

// ---- names -----------------------------------------------------------------

/// A session keeps the name it was given. One that was given none, in a plain
/// directory `parent/dir`, is named after `dir`, with a hyphen and the first four
/// characters of its id.
pub proof fn how_a_session_is_named(
    name: Seq<char>,
    spec: SessionSpecView,
    sid: Seq<char>,
    parent: Seq<char>,
    dir: Seq<char>,
)
    requires
        is_name_of(name, spec, sid),
        is_uuid_v4(sid),
    ensures
        spec.name is Some ==> Some(name) == spec.name,
        spec.name is None && is_plain_path(spec.cwd) && spec.cwd == parent + seq!['/'] + dir
            && dir.len() > 0 && !dir.contains('/') && dir != "."@ && dir != ".."@ ==> name == dir
            + seq!['-'] + sid.take(4),
        spec.name is None && spec.cwd.len() == 0 ==> name == "session-"@ + sid.take(4),
{
    if spec.name is None {
        uuid_is_ascii(sid);
        ascii_short_id(sid);
        reveal_strlit("-");
        reveal_strlit("session");
        reveal_strlit("session-");
        reveal_strlit(".");
        reveal_strlit("..");
        assert("-"@ =~= seq!['-']);
        assert("session"@ + "-"@ =~= "session-"@);
        let path = spec.cwd;
        let base = choose|base: Option<Seq<char>>|
            is_component(base, spec.cwd) && name == #[trigger] generated_name(base, sid);
        assert(base == base);
        if is_plain_path(path) && path == parent + seq!['/'] + dir && dir.len() > 0
            && !dir.contains('/') && dir != "."@ && dir != ".."@ {
            let n = path.len() as int;
            assert(path[n - 1] == dir[dir.len() - 1]);
            assert(path[n - 1] != '/');
            if path[n - 1] == '.' && path[n - 2] == '/' {
                if dir.len() == 1 {
                    assert(dir =~= "."@);
                } else {
                    assert(path[n - 2] == dir[dir.len() - 2]);
                }
            }
            assert(without_tail(path, false) == path);
            lemma_after(parent, dir);
            assert(component(path, false) == Some(dir));
            assert(name =~= dir + seq!['-'] + sid.take(4));
        }
        if path.len() == 0 {
            assert(is_plain_path(path));
            assert(component(path, false) is None);
            assert(name =~= "session-"@ + sid.take(4));
        }
    }
}

proof fn lemma_after(parent: Seq<char>, dir: Seq<char>)
    requires
        !dir.contains('/'),
    ensures
        after_last_separator(parent + seq!['/'] + dir, false) == dir,
    decreases dir.len(),
{
    let path = parent + seq!['/'] + dir;
    if dir.len() == 0 {
        assert(path.last() == '/');
        assert(dir =~= Seq::<char>::empty());
    } else {
        let front = dir.drop_last();
        assert(!front.contains('/')) by {
            if front.contains('/') {
                let k = choose|k: int| 0 <= k < front.len() && front[k] == '/';
                assert(dir[k] == '/');
            }
        }
        lemma_after(parent, front);
        assert(path.drop_last() =~= parent + seq!['/'] + front);
        assert(path.last() == dir.last());
        assert(dir.contains(dir.last()));
        assert(front.push(dir.last()) =~= dir);
    }
}

} // verus!
