//! Quest queries: pages of the registered quests that match a filter, in
//! registration order.

use vstd::prelude::*;

use crate::storage::{self, Env, EnvView};
use crate::types::{Address, Quest, QuestStatus};

verus! {

/// Which quests a query selects.
pub enum QuestFilter {
    ByStatus(QuestStatus),
    ByCreator(Address),
    ByRewardRange(i128, i128),
}

pub open spec fn filter_matches(f: QuestFilter, q: Quest) -> bool {
    match f {
        QuestFilter::ByStatus(s) => q.status == s,
        QuestFilter::ByCreator(c) => q.creator@ == c@,
        QuestFilter::ByRewardRange(lo, hi) => lo <= q.reward_amount <= hi,
    }
}

/// The registered quests, in registration order.
pub open spec fn quests_in_order(v: EnvView) -> Seq<Quest> {
    v.quest_order.map_values(|k: Seq<Seq<char>>| v.quests[k])
}

/// The registered quests that match a filter, in registration order.
pub open spec fn matching(v: EnvView, f: QuestFilter) -> Seq<Quest> {
    quests_in_order(v).filter(|q: Quest| filter_matches(f, q))
}

/// The page of a list that skips `offset` entries and keeps at most `limit`.
pub open spec fn page<T>(s: Seq<T>, offset: nat, limit: nat) -> Seq<T> {
    let start = if offset < s.len() {
        offset
    } else {
        s.len()
    };
    let end = if offset + limit < s.len() {
        offset + limit
    } else {
        s.len()
    };
    s.subrange(start as int, end as int)
}

proof fn lemma_page_push<T>(s: Seq<T>, x: T, offset: nat, limit: nat)
    ensures
        page(s.push(x), offset, limit) == if offset <= s.len() < offset + limit {
            page(s, offset, limit).push(x)
        } else {
            page(s, offset, limit)
        },
{
    let t = s.push(x);
    if offset <= s.len() < offset + limit {
        assert(page(t, offset, limit) =~= page(s, offset, limit).push(x));
    } else {
        assert(page(t, offset, limit) =~= page(s, offset, limit));
    }
}

fn quest_matches(f: &QuestFilter, q: &Quest) -> (r: bool)
    ensures
        r == filter_matches(*f, *q),
{
    match f {
        QuestFilter::ByStatus(s) => q.status == *s,
        QuestFilter::ByCreator(c) => q.creator == *c,
        QuestFilter::ByRewardRange(lo, hi) => *lo <= q.reward_amount && q.reward_amount <= *hi,
    }
}

/// The page, at `offset` and of at most `limit` quests, of the registered
/// quests that match the filter.
pub fn select_quests(env: &Env, f: &QuestFilter, offset: u32, limit: u32) -> (r: Vec<Quest>)
    requires
        env.wf(),
    ensures
        r@ == page(matching(env@, *f), offset as nat, limit as nat),
{
    let ghost pred = |q: Quest| filter_matches(*f, q);
    let ghost all = quests_in_order(env@);
    let n = storage::quest_count(env);
    let mut r: Vec<Quest> = Vec::new();
    let mut seen: u64 = 0;
    let mut i: usize = 0;
    while i < n
        invariant
            env.wf(),
            n == env@.quest_order.len(),
            all == quests_in_order(env@),
            pred == (|q: Quest| filter_matches(*f, q)),
            i <= n,
            seen as nat == all.take(i as int).filter(pred).len(),
            seen <= i,
            r@ == page(all.take(i as int).filter(pred), offset as nat, limit as nat),
        decreases n - i,
    {
        let q = storage::quest_at(env, i);
        proof {
            assert(all.take(i + 1) =~= all.take(i as int).push(all[i as int]));
            assert(all[i as int] == q);
            all.take(i as int).lemma_filter_push(q, pred);
            lemma_page_push(all.take(i as int).filter(pred), q, offset as nat, limit as nat);
        }
        if quest_matches(f, &q) {
            if seen >= offset as u64 && seen < (offset as u64) + (limit as u64) {
                r.push(q);
            }
            seen = seen + 1;
        }
        i = i + 1;
    }
    proof {
        assert(all.take(n as int) =~= all);
    }
    r
}

} // verus!
