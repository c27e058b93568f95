//! What holds of the string operations that prompts are built from.
use crate::text::{
    after_prefix, before_suffix, blank, contains, decimal, digit, ends_with, is_space,
    joined_texts, occurs_at, signed, starts_with,
};
use vstd::prelude::*;

verus! {

/// The number that decimal digits stand for, read from the left.
pub open spec fn value_of(s: Seq<char>) -> nat
    decreases s.len(),
{
    if s.len() == 0 {
        0
    } else {
        value_of(s.drop_last()) * 10 + (s.last() as u32 - 48) as nat
    }
}

/// A number in decimal stands for that number: it is made of digits alone,
/// and begins with a zero only where it is zero.
pub proof fn decimals_stand_for_their_numbers(n: nat)
    ensures
        decimal(n).len() > 0,
        value_of(decimal(n)) == n,
        forall|i: int| 0 <= i < decimal(n).len() ==> '0' <= #[trigger] decimal(n)[i] <= '9',
        decimal(n)[0] == '0' <==> n == 0,
        n < 10 ==> decimal(n).len() == 1,
    decreases n,
{
    let s = decimal(n);
    let last = digit(n % 10);
    assert(last as u32 == 48 + n % 10);
    if n < 10 {
        assert(s.drop_last() =~= Seq::empty());
        assert(value_of(s.drop_last()) == 0);
    } else {
        decimals_stand_for_their_numbers(n / 10);
        assert(s.drop_last() =~= decimal(n / 10));
        assert(s.last() == last);
        assert(s[0] == decimal(n / 10)[0]);
        assert forall|i: int| 0 <= i < s.len() implies '0' <= #[trigger] s[i] <= '9' by {
            if i < s.len() - 1 {
                assert(s[i] == decimal(n / 10)[i]);
            }
        }
    }
}

/// A number below zero is written as its size behind a minus sign.
pub proof fn signs_stand_in_front(n: int)
    ensures
        n >= 0 ==> value_of(signed(n)) == n && signed(n)[0] != '-',
        n < 0 ==> signed(n)[0] == '-' && value_of(signed(n).skip(1)) == -n,
{
    if n < 0 {
        decimals_stand_for_their_numbers((-n) as nat);
        reveal_strlit("-");
        assert(signed(n).skip(1) =~= decimal((-n) as nat));
    } else {
        decimals_stand_for_their_numbers(n as nat);
    }
}

/// The characters that Unicode calls white space.
pub open spec fn white_space() -> Seq<char> {
    seq![
        '\t',
        '\n',
        '\u{b}',
        '\u{c}',
        '\r',
        ' ',
        '\u{85}',
        '\u{a0}',
        '\u{1680}',
        '\u{2000}',
        '\u{2001}',
        '\u{2002}',
        '\u{2003}',
        '\u{2004}',
        '\u{2005}',
        '\u{2006}',
        '\u{2007}',
        '\u{2008}',
        '\u{2009}',
        '\u{200a}',
        '\u{2028}',
        '\u{2029}',
        '\u{202f}',
        '\u{205f}',
        '\u{3000}',
    ]
}

proof fn white_space_is_listed(c: char)
    ensures
        is_space(c) <==> white_space().contains(c),
{
    let list = white_space();
    if is_space(c) {
        let n = c as u32;
        let i: int = if n <= 0xd {
            n - 9
        } else if n == 0x20 {
            5
        } else if n == 0x85 {
            6
        } else if n == 0xa0 {
            7
        } else if n == 0x1680 {
            8
        } else if n <= 0x200a {
            n - 0x2000 + 9
        } else if n == 0x2028 {
            20
        } else if n == 0x2029 {
            21
        } else if n == 0x202f {
            22
        } else if n == 0x205f {
            23
        } else {
            24
        };
        assert(list[i] as u32 == n);
        assert(list[i] == c);
    }
}

/// A text is blank where every character of it is one of the white space
/// characters of Unicode; one other character is enough for it to say
/// something.
pub proof fn blank_texts_hold_white_space_alone(s: Seq<char>)
    ensures
        blank(s) <==> forall|i: int|
            0 <= i < s.len() ==> white_space().contains(#[trigger] s[i]),
        !blank(s) <==> exists|i: int|
            0 <= i < s.len() && !white_space().contains(#[trigger] s[i]),
{
    assert forall|i: int| 0 <= i < s.len() implies is_space(#[trigger] s[i])
        == white_space().contains(s[i]) by {
        white_space_is_listed(s[i]);
    }
    if !blank(s) {
        let i = choose|i: int| 0 <= i < s.len() && !is_space(#[trigger] s[i]);
        assert(!white_space().contains(s[i]));
    }
}

/// A text holds another where it is that text between two others.
pub proof fn held_texts_stand_between_others(s: Seq<char>, part: Seq<char>)
    ensures
        contains(s, part) <==> exists|a: Seq<char>, b: Seq<char>| s == #[trigger] (a + part + b),
        starts_with(s, part) <==> exists|b: Seq<char>| s == #[trigger] (part + b),
        ends_with(s, part) <==> exists|a: Seq<char>| s == #[trigger] (a + part),
{
    if contains(s, part) {
        let at = choose|at: int| occurs_at(s, part, at);
        let a = s.take(at);
        let b = s.skip(at + part.len());
        assert(s =~= a + part + b);
    }
    if exists|a: Seq<char>, b: Seq<char>| s == #[trigger] (a + part + b) {
        let (a, b) = choose|a: Seq<char>, b: Seq<char>| s == #[trigger] (a + part + b);
        let at = a.len() as int;
        assert(s.subrange(at, at + part.len()) =~= part);
        assert(occurs_at(s, part, at));
    }
    if starts_with(s, part) {
        assert(s =~= part + s.skip(part.len() as int));
    }
    if exists|b: Seq<char>| s == #[trigger] (part + b) {
        assert(s.subrange(0, part.len() as int) =~= part);
    }
    if ends_with(s, part) {
        assert(s =~= s.take(s.len() - part.len()) + part);
    }
    if exists|a: Seq<char>| s == #[trigger] (a + part) {
        let a = choose|a: Seq<char>| s == #[trigger] (a + part);
        let at = a.len() as int;
        assert(s.subrange(at, at + part.len()) =~= part);
    }
}

/// What is taken off the front or the end of a text can be put back.
pub proof fn taken_parts_can_be_put_back(s: Seq<char>, part: Seq<char>)
    ensures
        after_prefix(s, part) matches Some(rest) ==> s == part + rest,
        after_prefix(part + s, part) == Some(s),
        before_suffix(s, part) matches Some(rest) ==> s == rest + part,
        before_suffix(s + part, part) == Some(s),
{
    held_texts_stand_between_others(s, part);
    if let Some(rest) = after_prefix(s, part) {
        assert(s =~= part + rest);
    }
    if let Some(rest) = before_suffix(s, part) {
        assert(s =~= rest + part);
    }
    assert((part + s).subrange(0, part.len() as int) =~= part);
    assert((part + s).skip(part.len() as int) =~= s);
    assert((s + part).subrange(s.len() as int, (s.len() + part.len()) as int) =~= part);
    assert((s + part).take(s.len() as int) =~= s);
}

/// Where text `k` of a list starts in the texts joined by a separator.
pub open spec fn joint(list: Seq<Seq<char>>, separator: Seq<char>, k: int) -> int
    decreases k,
{
    if k <= 0 {
        0
    } else {
        joint(list, separator, k - 1) + list[k - 1].len() + separator.len()
    }
}

/// What stands in a text still stands there when text is put behind it.
pub proof fn texts_stay_in_front(front: Seq<char>, rest: Seq<char>, part: Seq<char>, at: int)
    requires
        occurs_at(front, part, at),
    ensures
        occurs_at(front + rest, part, at),
{
    assert((front + rest).subrange(at, at + part.len()) =~= front.subrange(at, at + part.len()));
}

/// Text that is put behind a text stands where that ends.
pub proof fn texts_stand_behind(front: Seq<char>, part: Seq<char>)
    ensures
        occurs_at(front + part, part, front.len() as int),
{
    let at = front.len() as int;
    assert((front + part).subrange(at, at + part.len()) =~= part);
}

/// Joined texts have the length of the texts and of a separator between each
/// two of them.
pub proof fn joined_texts_are_complete(list: Seq<Seq<char>>, separator: Seq<char>)
    ensures
        list.len() == 0 ==> joined_texts(list, separator).len() == 0,
        list.len() > 0 ==> joined_texts(list, separator).len() == joint(
            list,
            separator,
            list.len() - 1,
        ) + list.last().len(),
    decreases list.len(),
{
    if list.len() > 1 {
        let before = list.drop_last();
        joined_texts_are_complete(before, separator);
        joints_agree(before, list, separator, list.len() - 2);
        assert(before.last() == list[list.len() - 2]);
    }
}

/// Joined texts stand one behind the other, with a separator in front of each
/// but the first.
pub proof fn joined_texts_stand_in_order(list: Seq<Seq<char>>, separator: Seq<char>, k: int)
    requires
        0 <= k < list.len(),
    ensures
        occurs_at(joined_texts(list, separator), list[k], joint(list, separator, k)),
        k > 0 ==> occurs_at(
            joined_texts(list, separator),
            separator,
            joint(list, separator, k) - separator.len(),
        ),
    decreases list.len(),
{
    let whole = joined_texts(list, separator);
    if list.len() == 1 {
        assert(whole.subrange(0, whole.len() as int) =~= whole);
    } else {
        let n = list.len() as int;
        let before = list.drop_last();
        let front = joined_texts(before, separator);
        joints_agree(before, list, separator, k);
        if k < n - 1 {
            joined_texts_stand_in_order(before, separator, k);
            let at = joint(list, separator, k);
            texts_stay_in_front(front, separator, list[k], at);
            texts_stay_in_front(front + separator, list.last(), list[k], at);
            if k > 0 {
                texts_stay_in_front(front, separator, separator, at - separator.len());
                texts_stay_in_front(
                    front + separator,
                    list.last(),
                    separator,
                    at - separator.len(),
                );
            }
        } else {
            joined_texts_are_complete(before, separator);
            joints_agree(before, list, separator, n - 2);
            assert(before.last() == list[n - 2]);
            texts_stand_behind(front, separator);
            texts_stay_in_front(front + separator, list.last(), separator, front.len() as int);
            texts_stand_behind(front + separator, list.last());
        }
    }
}

proof fn joints_agree(a: Seq<Seq<char>>, b: Seq<Seq<char>>, separator: Seq<char>, k: int)
    requires
        k <= a.len() <= b.len(),
        forall|i: int| 0 <= i < a.len() ==> #[trigger] a[i] == b[i],
    ensures
        joint(a, separator, k) == joint(b, separator, k),
    decreases k,
{
    if k > 0 {
        joints_agree(a, b, separator, k - 1);
        assert(a[k - 1] == b[k - 1]);
    }
}

} // verus!
