use vstd::prelude::*;

verus! {

/// One row of the balance table: an account and the tokens it holds.
#[derive(Debug)]
pub struct Holding {
    pub account: String,
    pub amount: u128,
}

/// Balance of `a` in a table: the amount of its row, or zero when it has none.
pub open spec fn balance_in(s: Seq<Holding>, a: Seq<char>) -> u128
    decreases s.len(),
{
    if s.len() == 0 {
        0
    } else if s.last().account@ == a {
        s.last().amount
    } else {
        balance_in(s.drop_last(), a)
    }
}

/// Sum of all amounts in a table.
pub open spec fn total_of(s: Seq<Holding>) -> nat
    decreases s.len(),
{
    if s.len() == 0 {
        0
    } else {
        total_of(s.drop_last()) + s.last().amount as nat
    }
}

/// No account has two rows.
pub open spec fn accounts_unique(s: Seq<Holding>) -> bool {
    forall|i: int, j: int|
        0 <= i < j < s.len() ==> #[trigger] s[i].account@ != #[trigger] s[j].account@
}

pub proof fn lemma_balance_le_total(s: Seq<Holding>, a: Seq<char>)
    ensures
        balance_in(s, a) <= total_of(s),
    decreases s.len(),
{
    if s.len() > 0 {
        lemma_balance_le_total(s.drop_last(), a);
    }
}

pub proof fn lemma_two_balances_le_total(s: Seq<Holding>, a: Seq<char>, b: Seq<char>)
    requires
        a != b,
    ensures
        balance_in(s, a) + balance_in(s, b) <= total_of(s),
    decreases s.len(),
{
    if s.len() > 0 {
        lemma_two_balances_le_total(s.drop_last(), a, b);
        lemma_balance_le_total(s.drop_last(), a);
        lemma_balance_le_total(s.drop_last(), b);
    }
}

pub proof fn lemma_absent(s: Seq<Holding>, a: Seq<char>)
    requires
        forall|j: int| 0 <= j < s.len() ==> #[trigger] s[j].account@ != a,
    ensures
        balance_in(s, a) == 0,
    decreases s.len(),
{
    if s.len() > 0 {
        lemma_absent(s.drop_last(), a);
    }
}

pub proof fn lemma_balance_at(s: Seq<Holding>, i: int)
    requires
        accounts_unique(s),
        0 <= i < s.len(),
    ensures
        balance_in(s, s[i].account@) == s[i].amount,
    decreases s.len(),
{
    if i < s.len() - 1 {
        assert(s[i].account@ != s[s.len() - 1].account@);
        assert(s.drop_last()[i] == s[i]);
        lemma_balance_at(s.drop_last(), i);
    }
}

pub proof fn lemma_push(s: Seq<Holding>, h: Holding)
    ensures
        forall|a: Seq<char>|
            #[trigger] balance_in(s.push(h), a) == if a == h.account@ {
                h.amount
            } else {
                balance_in(s, a)
            },
        total_of(s.push(h)) == total_of(s) + h.amount,
        accounts_unique(s) && (forall|j: int| 0 <= j < s.len() ==> #[trigger] s[j].account@ != h.account@)
            ==> accounts_unique(s.push(h)),
{
    assert(s.push(h).drop_last() =~= s);
    if accounts_unique(s) && (forall|j: int| 0 <= j < s.len() ==> #[trigger] s[j].account@ != h.account@) {
        assert forall|i: int, j: int| 0 <= i < j < s.push(h).len() implies
            #[trigger] s.push(h)[i].account@ != #[trigger] s.push(h)[j].account@ by {
            if j == s.len() {
                assert(s.push(h)[i] == s[i]);
            } else {
                assert(s.push(h)[i] == s[i] && s.push(h)[j] == s[j]);
            }
        }
    }
}

pub proof fn lemma_update(s: Seq<Holding>, i: int, h: Holding)
    requires
        accounts_unique(s),
        0 <= i < s.len(),
        h.account@ == s[i].account@,
    ensures
        forall|a: Seq<char>|
            #[trigger] balance_in(s.update(i, h), a) == if a == h.account@ {
                h.amount
            } else {
                balance_in(s, a)
            },
        total_of(s.update(i, h)) + s[i].amount == total_of(s) + h.amount,
        accounts_unique(s.update(i, h)),
    decreases s.len(),
{
    let t = s.update(i, h);
    assert forall|p: int, q: int| 0 <= p < q < t.len() implies
        #[trigger] t[p].account@ != #[trigger] t[q].account@ by {
        assert(s[p].account@ != s[q].account@);
    }
    if i == s.len() - 1 {
        assert(t.drop_last() =~= s.drop_last());
        assert forall|a: Seq<char>| #[trigger] balance_in(t, a) == if a == h.account@ {
            h.amount
        } else {
            balance_in(s, a)
        } by {}
    } else {
        let d = s.drop_last();
        assert(t.drop_last() =~= d.update(i, h));
        assert(accounts_unique(d)) by {
            assert forall|p: int, q: int| 0 <= p < q < d.len() implies
                #[trigger] d[p].account@ != #[trigger] d[q].account@ by {
                assert(s[p].account@ != s[q].account@);
            }
        }
        assert(d[i] == s[i]);
        lemma_update(d, i, h);
        assert(s.last().account@ != h.account@) by {
            assert(s[i].account@ != s[s.len() - 1].account@);
        }
        assert forall|a: Seq<char>| #[trigger] balance_in(t, a) == if a == h.account@ {
            h.amount
        } else {
            balance_in(s, a)
        } by {
            assert(balance_in(d.update(i, h), a) == if a == h.account@ {
                h.amount
            } else {
                balance_in(d, a)
            });
        }
    }
}

} // verus!
