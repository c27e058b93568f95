//! What holds of lists of tokens that are joined.
use crate::tokens::joined;
use vstd::prelude::*;

verus! {

/// How many tokens lists hold together.
pub open spec fn token_count(lists: Seq<Seq<u32>>) -> nat
    decreases lists.len(),
{
    if lists.len() == 0 {
        0
    } else {
        lists[0].len() + token_count(lists.subrange(1, lists.len() as int))
    }
}

/// Joined lists hold as many tokens as the lists together.
pub proof fn counts_agree(lists: Seq<Seq<u32>>, n: nat)
    requires
        n <= lists.len(),
    ensures
        joined(lists, n).len() == token_count(lists.subrange(0, n as int)),
    decreases n,
{
    if n > 0 {
        counts_agree(lists, (n - 1) as nat);
        let part = lists.subrange(0, n as int);
        count_of_last(part);
        assert(part.drop_last() =~= lists.subrange(0, n - 1));
    }
}

/// The last list adds its own tokens.
pub proof fn count_of_last(lists: Seq<Seq<u32>>)
    requires
        lists.len() > 0,
    ensures
        token_count(lists) == token_count(lists.drop_last()) + lists.last().len(),
    decreases lists.len(),
{
    let rest = lists.subrange(1, lists.len() as int);
    if lists.len() > 1 {
        count_of_last(rest);
        assert(rest.drop_last() =~= lists.drop_last().subrange(
            1,
            lists.drop_last().len() as int,
        ));
        assert(lists.drop_last()[0] == lists[0]);
        assert(rest.last() == lists.last());
    } else {
        assert(token_count(rest) == 0);
        assert(token_count(lists.drop_last()) == 0);
        assert(rest.len() == 0);
        assert(lists.drop_last().len() == 0);
    }
}

/// Joined lists stand one behind the other: list `k` starts where the tokens
/// of the lists before it end.
pub proof fn joined_lists_stand_in_order(lists: Seq<Seq<u32>>, n: nat, k: int)
    requires
        0 <= k < n <= lists.len(),
    ensures
        ({
            let at = token_count(lists.subrange(0, k)) as int;
            &&& at + lists[k].len() <= joined(lists, n).len()
            &&& joined(lists, n).subrange(at, at + lists[k].len()) == lists[k]
        }),
    decreases n,
{
    let m = (n - 1) as nat;
    let at = token_count(lists.subrange(0, k)) as int;
    let whole = joined(lists, n);
    counts_agree(lists, k as nat);
    if k < m {
        joined_lists_stand_in_order(lists, m, k);
        assert(whole.subrange(at, at + lists[k].len()) =~= joined(lists, m).subrange(
            at,
            at + lists[k].len(),
        ));
    } else {
        assert(whole.subrange(at, at + lists[k].len()) =~= lists[k]);
    }
}

/// Lists that follow each other hold the tokens of both parts.
pub proof fn counts_add_up(a: Seq<Seq<u32>>, b: Seq<Seq<u32>>)
    ensures
        token_count(a + b) == token_count(a) + token_count(b),
    decreases b.len(),
{
    if b.len() == 0 {
        assert(a + b =~= a);
    } else {
        count_of_last(a + b);
        count_of_last(b);
        counts_add_up(a, b.drop_last());
        assert((a + b).drop_last() =~= a + b.drop_last());
    }
}

} // verus!
