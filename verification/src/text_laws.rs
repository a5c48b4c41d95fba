//! Laws of the text helpers.
use vstd::prelude::*;

use crate::agent::tool::{copy_calls, ToolCall};
use crate::text::{
    begins_with, chars_of, copy_opt, copy_strings, decimal, decimal_is_digits, decimal_text, digit,
    ends_with, has_suffix, holds, is_blank, is_space, join, joined, opt_text, prefixed, starts_with_char,
    text_eq, trim, trim_end, trim_start, trimmed, views,
};

verus! {

/// The white space of ASCII is the space, the tab, the line feed, the vertical
/// tab, the form feed and the carriage return; nothing visible is white space.
pub proof fn ascii_space(c: char)
    requires
        c < '\u{80}',
    ensures
        is_space(c) <==> c == ' ' || c == '\t' || c == '\n' || c == '\u{b}' || c == '\u{c}' || c
            == '\r',
{
}

proof fn leading_space_is_taken(s: Seq<char>, from: int)
    requires
        0 <= from <= s.len(),
        forall|i: int| 0 <= i < from ==> is_space(s[i]),
        from < s.len() ==> !is_space(s[from]),
    ensures
        trim_start(s) == s.skip(from),
    decreases s.len(),
{
    if from == 0 {
        assert(s.skip(0) =~= s);
    } else {
        assert(is_space(s[0]));
        let rest = s.skip(1);
        assert forall|i: int| 0 <= i < from - 1 implies is_space(rest[i]) by {
            assert(rest[i] == s[i + 1]);
        }
        leading_space_is_taken(rest, from - 1);
        assert(rest.skip(from - 1) =~= s.skip(from));
    }
}

proof fn trailing_space_is_taken(s: Seq<char>, to: int)
    requires
        0 <= to <= s.len(),
        forall|i: int| to <= i < s.len() ==> is_space(s[i]),
        to > 0 ==> !is_space(s[to - 1]),
    ensures
        trim_end(s) == s.take(to),
    decreases s.len(),
{
    if to == s.len() {
        assert(s.take(to) =~= s);
    } else {
        assert(is_space(s[s.len() - 1]));
        trailing_space_is_taken(s.drop_last(), to);
        assert(s.drop_last().take(to) =~= s.take(to));
    }
}

/// Trimming takes the white space at both ends, all of it and nothing else.
pub proof fn trimming_takes_space_from_the_ends_only(s: Seq<char>, from: int, to: int)
    requires
        0 <= from <= to <= s.len(),
        forall|i: int| 0 <= i < from ==> is_space(s[i]),
        forall|i: int| to <= i < s.len() ==> is_space(s[i]),
        from < to ==> !is_space(s[from]) && !is_space(s[to - 1]),
    ensures
        trim(s) == s.subrange(from, to),
{
    if from == to {
        assert forall|i: int| 0 <= i < s.len() implies is_space(s[i]) by {}
        leading_space_is_taken(s, s.len() as int);
        assert(trim_start(s) =~= Seq::empty());
        assert(trim(s) =~= s.subrange(from, to));
    } else {
        leading_space_is_taken(s, from);
        let t = s.skip(from);
        assert forall|i: int| to - from <= i < t.len() implies is_space(t[i]) by {
            assert(t[i] == s[i + from]);
        }
        assert(t[to - from - 1] == s[to - 1]);
        trailing_space_is_taken(t, to - from);
        assert(t.take(to - from) =~= s.subrange(from, to));
    }
}

/// A text that neither begins nor ends with white space is left as it is, and
/// trimming twice is trimming once.
pub proof fn trimming_twice_is_trimming_once(s: Seq<char>)
    ensures
        trim(trim(s)) == trim(s),
        s.len() > 0 && !is_space(s[0]) && !is_space(s.last()) ==> trim(s) == s,
        trim(s).len() > 0 ==> !is_space(trim(s)[0]) && !is_space(trim(s).last()),
{
    let a = leading_space(s);
    let t = s.skip(a);
    leading_space_is_taken(s, a);
    let b = trailing_space(t);
    trailing_space_is_taken(t, b);
    let r = trim(s);
    assert(r == t.take(b));
    if r.len() > 0 {
        assert(r[0] == s[a]);
        assert(r.last() == t[b - 1]);
        trimming_takes_space_from_the_ends_only(r, 0, r.len() as int);
        assert(r.subrange(0, r.len() as int) =~= r);
    } else {
        trimming_takes_space_from_the_ends_only(r, 0, 0);
        assert(r.subrange(0, 0) =~= r);
    }
    if s.len() > 0 && !is_space(s[0]) && !is_space(s.last()) {
        trimming_takes_space_from_the_ends_only(s, 0, s.len() as int);
        assert(s.subrange(0, s.len() as int) =~= s);
    }
}

proof fn leading_space(s: Seq<char>) -> (n: int)
    ensures
        0 <= n <= s.len(),
        forall|i: int| 0 <= i < n ==> is_space(s[i]),
        n < s.len() ==> !is_space(s[n]),
    decreases s.len(),
{
    if s.len() > 0 && is_space(s[0]) {
        let m = leading_space(s.skip(1));
        assert forall|i: int| 0 <= i < m + 1 implies is_space(s[i]) by {
            if i > 0 {
                assert(s[i] == s.skip(1)[i - 1]);
            }
        }
        m + 1
    } else {
        0
    }
}

proof fn trailing_space(s: Seq<char>) -> (n: int)
    ensures
        0 <= n <= s.len(),
        forall|i: int| n <= i < s.len() ==> is_space(s[i]),
        n > 0 ==> !is_space(s[n - 1]),
    decreases s.len(),
{
    if s.len() > 0 && is_space(s.last()) {
        let m = trailing_space(s.drop_last());
        assert forall|i: int| m <= i < s.len() implies is_space(s[i]) by {
            if i < s.len() - 1 {
                assert(s[i] == s.drop_last()[i]);
            }
        }
        m
    } else {
        s.len() as int
    }
}

/// The number that a string of decimal digits stands for.
pub open spec fn number_of(s: Seq<char>) -> nat
    decreases s.len(),
{
    if s.len() == 0 {
        0
    } else {
        (10 * number_of(s.drop_last()) + (s.last() as int - '0' as int)) as nat
    }
}

/// A decimal notation stands for the number that it was made of, without
/// needless zeros in front.
pub proof fn decimals_are_read_back(n: nat)
    ensures
        number_of(decimal(n)) == n,
        n > 0 ==> decimal(n)[0] != '0',
        n == 0 ==> decimal(n) == seq!['0'],
    decreases n,
{
    if n < 10 {
        reveal_with_fuel(number_of, 2);
        assert(decimal(n).drop_last() =~= Seq::empty());
        assert(digit(n) as int == 48 + n);
    } else {
        decimals_are_read_back(n / 10);
        decimal_is_digits(n / 10);
        assert(decimal(n).drop_last() =~= decimal(n / 10));
        assert(digit(n % 10) as int == 48 + n % 10);
        assert(decimal(n)[0] == decimal(n / 10)[0]);
    }
}

/// A text ends with another exactly when it is something and then the other,
/// and begins with a character exactly when it is that character and then
/// something.
pub proof fn ends_are_ends(before: Seq<char>, end: Seq<char>, s: Seq<char>, c: char)
    ensures
        has_suffix(before + end, end),
        has_suffix(s, end) ==> s == s.take(s.len() - end.len()) + end,
        begins_with(seq![c] + end, c),
        begins_with(s, c) ==> s == seq![c] + s.skip(1),
{
    assert((before + end).skip((before + end).len() - end.len()) =~= end);
    if has_suffix(s, end) {
        assert(s =~= s.take(s.len() - end.len()) + s.skip(s.len() - end.len()));
    }
    if begins_with(s, c) {
        assert(s =~= seq![c] + s.skip(1));
    }
}

/// Joining is putting the separator between one list's text and the other's;
/// a single part is itself.
pub proof fn joining_splits(a: Seq<Seq<char>>, b: Seq<Seq<char>>, sep: Seq<char>)
    ensures
        joined(Seq::empty(), sep) == Seq::<char>::empty(),
        a.len() == 1 ==> joined(a, sep) == a[0],
        a.len() > 0 && b.len() > 0 ==> joined(a + b, sep) == joined(a, sep) + sep + joined(b, sep),
    decreases b.len(),
{
    if a.len() > 0 && b.len() > 0 {
        assert((a + b).drop_last() =~= a + b.drop_last());
        if b.len() == 1 {
            assert(a + b.drop_last() =~= a);
        } else {
            joining_splits(a, b.drop_last(), sep);
            assert(joined(a + b, sep) =~= joined(a, sep) + sep + joined(b, sep));
        }
    }
}

/// Beyond ASCII the next line, the no-break space and the spaces of Unicode's
/// separator classes are white space, and nothing else is.
pub proof fn other_space(c: char)
    requires
        c >= '\u{80}',
    ensures
        is_space(c) <==> {
            ||| c == '\u{85}' || c == '\u{a0}' || c == '\u{1680}' || c == '\u{202f}'
            ||| c == '\u{205f}' || c == '\u{3000}' || c == '\u{2028}' || c == '\u{2029}'
            ||| 0x2000 <= c as int <= 0x200a
        },
{
}

/// The helpers do what their names say.
pub proof fn helpers_do_what_they_say(
    a: &str,
    b: &str,
    c: char,
    same: bool,
    chars: Vec<char>,
    inner: &str,
    blank: bool,
    ends: bool,
    starts: bool,
    both: String,
)
    requires
        call_ensures(text_eq, (a, b), same),
        call_ensures(chars_of, (a,), chars),
        call_ensures(trimmed, (a,), inner),
        call_ensures(is_blank, (a,), blank),
        call_ensures(ends_with, (a, b), ends),
        call_ensures(starts_with_char, (a, c), starts),
        call_ensures(prefixed, (a, b), both),
    ensures
        same <==> a@ == b@,
        chars@ == a@,
        inner@ == trim(a@),
        blank <==> inner@.len() == 0,
        ends <==> b@.len() <= a@.len() && a@.skip(a@.len() - b@.len()) == b@,
        starts <==> a@.len() > 0 && a@[0] == c,
        both@ == a@ + b@,
{
}

/// The helpers for lists and numbers do what their names say.
pub proof fn list_helpers_do_what_they_say(
    list: Vec<String>,
    s: &str,
    has: bool,
    copied: Vec<String>,
    text: String,
    n: u128,
    digits: String,
)
    requires
        call_ensures(holds, (&list, s), has),
        call_ensures(copy_strings, (&list,), copied),
        call_ensures(join, (&list, s), text),
        call_ensures(decimal_text, (n,), digits),
    ensures
        has <==> views(list@).contains(s@),
        copied@ == list@,
        text@ == joined(views(list@), s@),
        number_of(digits@) == n,
{
    decimals_are_read_back(n as nat);
}

/// Copies are what they are copies of.
pub proof fn copies_are_the_same(
    o: Option<String>,
    copied: Option<String>,
    text: Option<&str>,
    calls: Vec<ToolCall>,
    same: Vec<ToolCall>,
)
    requires
        call_ensures(copy_opt, (&o,), copied),
        call_ensures(opt_text, (&o,), text),
        call_ensures(copy_calls, (&calls,), same),
    ensures
        copied == o,
        text is Some <==> o is Some,
        text is Some ==> text->0@ == o->0@,
        same@ == calls@,
{
}

} // verus!
