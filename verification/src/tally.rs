//! The tally engine: reduces the append-only vote log to one counted vote
//! per (voter, variant) — the most recently inserted — and aggregates the
//! counted votes into per-variant summaries and the ranked closing report.

use vstd::prelude::*;

use crate::gateway::{ChannelUser, PollReportSource, PollViewSource, SingleVariantSource, VotesResult};
use crate::view_model::{views_of, PollReport, PollResult, PollView, SingleVariant};

verus! {

/// Whether `a` is a vote by voter `u` on variant `v`.
pub open spec fn pair_matches(a: VotesResult, u: i32, v: i32) -> bool {
    a.user_id == u && a.poll_variant_id == v
}

/// Whether some vote by voter `u` on variant `v` occurs in `s`.
pub open spec fn has_pair(s: Seq<VotesResult>, u: i32, v: i32) -> bool {
    exists|i: int| 0 <= i < s.len() && pair_matches(#[trigger] s[i], u, v)
}

/// Index of the first vote by voter `u` on variant `v`; meaningful only
/// where `has_pair` holds.
pub open spec fn first_pair_index(s: Seq<VotesResult>, u: i32, v: i32) -> int
    decreases s.len(),
{
    if s.len() == 0 {
        0
    } else if pair_matches(s[0], u, v) {
        0
    } else {
        1 + first_pair_index(s.skip(1), u, v)
    }
}

proof fn lemma_first_pair_index(s: Seq<VotesResult>, u: i32, v: i32)
    requires
        has_pair(s, u, v),
    ensures
        0 <= first_pair_index(s, u, v) < s.len(),
        pair_matches(s[first_pair_index(s, u, v)], u, v),
        forall|k: int| 0 <= k < first_pair_index(s, u, v) ==> !pair_matches(#[trigger] s[k], u, v),
    decreases s.len(),
{
    if s.len() > 0 && !pair_matches(s[0], u, v) {
        let t = s.skip(1);
        assert(has_pair(t, u, v)) by {
            let i = choose|i: int| 0 <= i < s.len() && pair_matches(#[trigger] s[i], u, v);
            assert(pair_matches(t[i - 1], u, v));
        }
        lemma_first_pair_index(t, u, v);
        assert(forall|k: int| 1 <= k < s.len() ==> s[k] == #[trigger] t[k - 1]);
        assert forall|k: int| 0 <= k < first_pair_index(s, u, v) implies !pair_matches(
            #[trigger] s[k],
            u,
            v,
        ) by {
            if k >= 1 {
                assert(s[k] == t[k - 1]);
                assert(!pair_matches(t[k - 1], u, v));
            }
        }
    }
}

/// An index found by scanning forward is the first matching index.
proof fn lemma_first_pair_index_of(s: Seq<VotesResult>, u: i32, v: i32, j: int)
    requires
        0 <= j < s.len(),
        pair_matches(s[j], u, v),
        forall|k: int| 0 <= k < j ==> !pair_matches(#[trigger] s[k], u, v),
    ensures
        has_pair(s, u, v),
        first_pair_index(s, u, v) == j,
{
    assert(has_pair(s, u, v));
    lemma_first_pair_index(s, u, v);
    let f = first_pair_index(s, u, v);
    if f < j {
        assert(!pair_matches(s[f], u, v));
    }
    if f > j {
        assert(!pair_matches(s[j], u, v));
    }
}

/// One step of the tally: a newly read vote row replaces the counted vote of
/// the same voter and variant when it is more recent, and is appended when
/// that voter has no counted vote on that variant yet.
pub open spec fn count_step(kept: Seq<VotesResult>, x: VotesResult) -> Seq<VotesResult> {
    if has_pair(kept, x.user_id, x.poll_variant_id) {
        let j = first_pair_index(kept, x.user_id, x.poll_variant_id);
        if x.id > kept[j].id {
            kept.update(j, x)
        } else {
            kept
        }
    } else {
        kept.push(x)
    }
}

/// The counted votes of a vote log: exactly one per (voter, variant) present,
/// the one with the greatest id, ordered by each pair's first appearance.
pub open spec fn counted_votes(s: Seq<VotesResult>) -> Seq<VotesResult>
    decreases s.len(),
{
    if s.len() == 0 {
        Seq::empty()
    } else {
        count_step(counted_votes(s.drop_last()), s.last())
    }
}

/// Reduces the vote log to its counted votes: re-voting silently supersedes
/// the voter's earlier vote on the same variant without deleting history.
pub fn dedup_votes(votes: &Vec<VotesResult>) -> (kept: Vec<VotesResult>)
    ensures
        kept@ == counted_votes(votes@),
{
    let mut kept: Vec<VotesResult> = Vec::new();
    let mut i: usize = 0;
    while i < votes.len()
        invariant
            i <= votes@.len(),
            kept@ == counted_votes(votes@.take(i as int)),
        decreases votes@.len() - i,
    {
        let x = votes[i];
        let ghost prior = kept@;
        let mut j: usize = 0;
        let mut found = false;
        while j < kept.len() && !found
            invariant
                j <= kept@.len(),
                !found ==> forall|k: int|
                    0 <= k < j ==> !pair_matches(#[trigger] kept@[k], x.user_id, x.poll_variant_id),
                found ==> j < kept@.len() && pair_matches(kept@[j as int], x.user_id, x.poll_variant_id)
                    && forall|k: int|
                    0 <= k < j ==> !pair_matches(#[trigger] kept@[k], x.user_id, x.poll_variant_id),
                kept@ == prior,
            decreases kept@.len() - j + if found { 0int } else { 1int },
        {
            if kept[j].user_id == x.user_id && kept[j].poll_variant_id == x.poll_variant_id {
                found = true;
            } else {
                j = j + 1;
            }
        }
        if found {
            proof {
                lemma_first_pair_index_of(kept@, x.user_id, x.poll_variant_id, j as int);
            }
            if x.id > kept[j].id {
                kept.set(j, x);
            }
        } else {
            proof {
                assert(!has_pair(kept@, x.user_id, x.poll_variant_id));
            }
            kept.push(x);
        }
        proof {
            assert(votes@.take(i + 1).drop_last() =~= votes@.take(i as int));
            assert(votes@.take(i + 1).last() == x);
            assert(kept@ == count_step(prior, x));
        }
        i = i + 1;
    }
    proof {
        assert(votes@.take(votes@.len() as int) =~= votes@);
    }
    kept
}

/// No two counted votes share a voter and variant.
pub open spec fn pairs_unique(s: Seq<VotesResult>) -> bool {
    forall|j: int, k: int|
        0 <= j < k < s.len() ==> !pair_matches(
            #[trigger] s[j],
            (#[trigger] s[k]).user_id,
            s[k].poll_variant_id,
        )
}

proof fn lemma_counted_pairs_unique(s: Seq<VotesResult>)
    ensures
        pairs_unique(counted_votes(s)),
        forall|u: i32, v: i32|
            has_pair(counted_votes(s), u, v) <==> #[trigger] has_pair(s, u, v),
    decreases s.len(),
{
    if s.len() > 0 {
        lemma_counted_pairs_unique(s.drop_last());
        let rest = counted_votes(s.drop_last());
        let x = s.last();
        if has_pair(rest, x.user_id, x.poll_variant_id) {
            lemma_first_pair_index(rest, x.user_id, x.poll_variant_id);
        }
        assert(forall|u: i32, v: i32|
            #[trigger] has_pair(s, u, v) ==> has_pair(s.drop_last(), u, v) || pair_matches(
                x,
                u,
                v,
            )) by {
            assert forall|u: i32, v: i32| #[trigger] has_pair(s, u, v) implies has_pair(
                s.drop_last(),
                u,
                v,
            ) || pair_matches(x, u, v) by {
                let i = choose|i: int| 0 <= i < s.len() && pair_matches(#[trigger] s[i], u, v);
                if i < s.len() - 1 {
                    assert(pair_matches(s.drop_last()[i], u, v));
                }
            }
        }
        assert forall|u: i32, v: i32| #[trigger] has_pair(s, u, v) implies has_pair(
            counted_votes(s),
            u,
            v,
        ) by {
            if has_pair(s.drop_last(), u, v) {
                let i = choose|i: int| 0 <= i < rest.len() && pair_matches(#[trigger] rest[i], u, v);
                if has_pair(rest, x.user_id, x.poll_variant_id) {
                    let j = first_pair_index(rest, x.user_id, x.poll_variant_id);
                    // whether or not x supersedes the entry at j, position i
                    // still holds a vote of the pair (u, v)
                    assert(pair_matches(counted_votes(s)[i], u, v));
                } else {
                    assert(pair_matches(counted_votes(s)[i], u, v));
                }
            } else {
                let i = choose|i: int| 0 <= i < s.len() && pair_matches(#[trigger] s[i], u, v);
                assert(i == s.len() - 1) by {
                    if i < s.len() - 1 {
                        assert(pair_matches(s.drop_last()[i], u, v));
                    }
                }
                assert(pair_matches(x, u, v));
                if has_pair(rest, x.user_id, x.poll_variant_id) {
                    let j = first_pair_index(rest, x.user_id, x.poll_variant_id);
                    assert(pair_matches(rest[j], x.user_id, x.poll_variant_id));
                } else {
                    assert(pair_matches(counted_votes(s).last(), u, v));
                }
            }
        }
        assert forall|u: i32, v: i32| #[trigger] has_pair(counted_votes(s), u, v) implies has_pair(
            s,
            u,
            v,
        ) by {
            let i = choose|i: int|
                0 <= i < counted_votes(s).len() && pair_matches(#[trigger] counted_votes(s)[i], u, v);
            if has_pair(rest, x.user_id, x.poll_variant_id) {
                let j = first_pair_index(rest, x.user_id, x.poll_variant_id);
                if x.id > rest[j].id && i == j {
                    assert(pair_matches(x, u, v));
                    assert(pair_matches(s[s.len() - 1], u, v));
                } else {
                    assert(pair_matches(rest[i], u, v));
                    assert(has_pair(rest, u, v));
                    assert(has_pair(s.drop_last(), u, v));
                    let k = choose|k: int|
                        0 <= k < s.drop_last().len() && pair_matches(#[trigger] s.drop_last()[k], u, v);
                    assert(s.drop_last()[k] == s[k]);
                    assert(pair_matches(s[k], u, v));
                }
            } else {
                if i == counted_votes(s).len() - 1 {
                    assert(pair_matches(x, u, v));
                    assert(pair_matches(s[s.len() - 1], u, v));
                } else {
                    assert(pair_matches(rest[i], u, v));
                    assert(has_pair(rest, u, v));
                    assert(has_pair(s.drop_last(), u, v));
                    let k = choose|k: int|
                        0 <= k < s.drop_last().len() && pair_matches(#[trigger] s.drop_last()[k], u, v);
                    assert(s.drop_last()[k] == s[k]);
                    assert(pair_matches(s[k], u, v));
                }
            }
        }
    }
}

/// Every counted vote occurs in the log, and no vote in the log by the same
/// voter on the same variant is more recent.
proof fn lemma_counted_latest(s: Seq<VotesResult>)
    ensures
        forall|j: int|
            0 <= j < counted_votes(s).len() ==> s.contains(#[trigger] counted_votes(s)[j]),
        forall|j: int, i: int|
            0 <= j < counted_votes(s).len() && 0 <= i < s.len() && pair_matches(
                #[trigger] s[i],
                (#[trigger] counted_votes(s)[j]).user_id,
                counted_votes(s)[j].poll_variant_id,
            ) ==> s[i].id <= counted_votes(s)[j].id,
    decreases s.len(),
{
    if s.len() > 0 {
        lemma_counted_latest(s.drop_last());
        lemma_counted_pairs_unique(s.drop_last());
        let rest = counted_votes(s.drop_last());
        let x = s.last();
        let cur = counted_votes(s);
        assert(forall|k: int|
            0 <= k < s.len() - 1 ==> #[trigger] s[k] == s.drop_last()[k]);
        assert(forall|y: VotesResult| s.drop_last().contains(y) ==> s.contains(y)) by {
            assert forall|y: VotesResult| s.drop_last().contains(y) implies s.contains(y) by {
                let k = choose|k: int| 0 <= k < s.drop_last().len() && s.drop_last()[k] == y;
                assert(s[k] == y);
            }
        }
        if has_pair(rest, x.user_id, x.poll_variant_id) {
            lemma_first_pair_index(rest, x.user_id, x.poll_variant_id);
        } else {
            assert(s.contains(x)) by {
                assert(s[s.len() - 1] == x);
            }
        }
        assert forall|j: int, i: int|
            0 <= j < cur.len() && 0 <= i < s.len() && pair_matches(
                #[trigger] s[i],
                (#[trigger] cur[j]).user_id,
                cur[j].poll_variant_id,
            ) implies s[i].id <= cur[j].id by {
            if has_pair(rest, x.user_id, x.poll_variant_id) {
                let f = first_pair_index(rest, x.user_id, x.poll_variant_id);
                if x.id > rest[f].id {
                    // cur == rest.update(f, x)
                    if j == f {
                        if i < s.len() - 1 {
                            assert(s.drop_last()[i] == s[i]);
                            assert(s[i].id <= rest[f].id);
                        }
                    } else {
                        if i == s.len() - 1 {
                            // s[i] == x shares the pair of cur[j] == rest[j]: but the
                            // unique pair holder of x's pair in rest is at f != j
                            assert(!pair_matches(rest[j], x.user_id, x.poll_variant_id)) by {
                                if j < f {
                                    assert(!pair_matches(rest[j], x.user_id, x.poll_variant_id));
                                } else {
                                    assert(pairs_unique(rest));
                                }
                            }
                        } else {
                            assert(s.drop_last()[i] == s[i]);
                        }
                    }
                } else {
                    // cur == rest
                    if i == s.len() - 1 {
                        if pair_matches(x, cur[j].user_id, cur[j].poll_variant_id) {
                            assert(pair_matches(rest[j], x.user_id, x.poll_variant_id));
                            assert(j == f) by {
                                if j < f {
                                    assert(!pair_matches(rest[j], x.user_id, x.poll_variant_id));
                                } else if j > f {
                                    assert(pairs_unique(rest));
                                }
                            }
                        }
                    } else {
                        assert(s.drop_last()[i] == s[i]);
                    }
                }
            } else {
                // cur == rest.push(x)
                if j == cur.len() - 1 {
                    if i < s.len() - 1 {
                        assert(s.drop_last()[i] == s[i]);
                        assert(has_pair(s.drop_last(), x.user_id, x.poll_variant_id));
                        assert(has_pair(rest, x.user_id, x.poll_variant_id));
                    }
                } else {
                    assert(cur[j] == rest[j]);
                    if i == s.len() - 1 {
                        assert(pair_matches(rest[j], x.user_id, x.poll_variant_id));
                        assert(has_pair(rest, x.user_id, x.poll_variant_id));
                    } else {
                        assert(s.drop_last()[i] == s[i]);
                    }
                }
            }
        }
    }
}

/// For any log and any voter and variant with at least one vote, the tally
/// counts exactly one vote of that voter on that variant — the most recently
/// inserted one; superseded votes stay in the log but are never counted.
pub proof fn lemma_one_counted_vote(s: Seq<VotesResult>, u: i32, v: i32)
    requires
        has_pair(s, u, v),
    ensures
        exists|j: int|
            0 <= j < counted_votes(s).len() && pair_matches(#[trigger] counted_votes(s)[j], u, v),
        forall|j: int, k: int|
            0 <= j < counted_votes(s).len() && 0 <= k < counted_votes(s).len() && pair_matches(
                #[trigger] counted_votes(s)[j],
                u,
                v,
            ) && pair_matches(#[trigger] counted_votes(s)[k], u, v) ==> j == k,
        forall|j: int|
            0 <= j < counted_votes(s).len() && pair_matches(#[trigger] counted_votes(s)[j], u, v)
                ==> s.contains(counted_votes(s)[j]) && forall|i: int|
                0 <= i < s.len() && pair_matches(#[trigger] s[i], u, v) ==> s[i].id
                    <= counted_votes(s)[j].id,
{
    lemma_counted_pairs_unique(s);
    lemma_counted_latest(s);
    assert(has_pair(counted_votes(s), u, v));
    let j = choose|j: int|
        0 <= j < counted_votes(s).len() && pair_matches(#[trigger] counted_votes(s)[j], u, v);
    assert(0 <= j < counted_votes(s).len() && pair_matches(counted_votes(s)[j], u, v));
    assert forall|j: int, k: int|
        0 <= j < counted_votes(s).len() && 0 <= k < counted_votes(s).len() && pair_matches(
            #[trigger] counted_votes(s)[j],
            u,
            v,
        ) && pair_matches(#[trigger] counted_votes(s)[k], u, v) implies j == k by {
        if j < k {
            assert(!pair_matches(counted_votes(s)[j], u, v));
        } else if k < j {
            assert(!pair_matches(counted_votes(s)[k], u, v));
        }
    }
}

/// How many counted votes a variant has.
pub open spec fn count_for_variant(votes: Seq<VotesResult>, vid: i32) -> int
    decreases votes.len(),
{
    if votes.len() == 0 {
        0
    } else {
        count_for_variant(votes.drop_last(), vid) + if votes.last().poll_variant_id == vid {
            1int
        } else {
            0int
        }
    }
}

/// A variant's displayed vote count over already-deduplicated votes.
pub fn variant_vote_count(votes: &Vec<VotesResult>, variant_id: i32) -> (r: usize)
    ensures
        r == count_for_variant(votes@, variant_id),
{
    let mut r: usize = 0;
    let mut i: usize = 0;
    while i < votes.len()
        invariant
            i <= votes@.len(),
            r == count_for_variant(votes@.take(i as int), variant_id),
            r <= i,
        decreases votes@.len() - i,
    {
        proof {
            assert(votes@.take(i + 1).drop_last() =~= votes@.take(i as int));
        }
        if votes[i].poll_variant_id == variant_id {
            r = r + 1;
        }
        i = i + 1;
    }
    proof {
        assert(votes@.take(votes@.len() as int) =~= votes@);
    }
    r
}

/// A cached voter's thumbnail as displayed: the empty string where none is
/// cached.
pub open spec fn thumb_view(u: ChannelUser) -> Seq<char> {
    match u.user_thumbnail {
        Some(t) => t@,
        None => Seq::empty(),
    }
}

/// The thumbnails of all cached rows of one voter, in cache order.
pub open spec fn thumbs_of_user(users: Seq<ChannelUser>, uid: i32) -> Seq<Seq<char>>
    decreases users.len(),
{
    if users.len() == 0 {
        Seq::empty()
    } else {
        let prior = thumbs_of_user(users.drop_last(), uid);
        if users.last().id == uid {
            prior.push(thumb_view(users.last()))
        } else {
            prior
        }
    }
}

/// The image strip of a variant: for each counted vote on it, in order, the
/// thumbnails cached for that voter.
pub open spec fn images_of_variant(
    votes: Seq<VotesResult>,
    users: Seq<ChannelUser>,
    vid: i32,
) -> Seq<Seq<char>>
    decreases votes.len(),
{
    if votes.len() == 0 {
        Seq::empty()
    } else {
        let prior = images_of_variant(votes.drop_last(), users, vid);
        if votes.last().poll_variant_id == vid {
            prior + thumbs_of_user(users, votes.last().user_id)
        } else {
            prior
        }
    }
}

/// Collects one variant's image strip from already-deduplicated votes and
/// the voter cache.
pub fn variant_images(votes: &Vec<VotesResult>, users: &Vec<ChannelUser>, variant_id: i32) -> (r:
    Vec<String>)
    ensures
        views_of(r@) == images_of_variant(votes@, users@, variant_id),
{
    let mut r: Vec<String> = Vec::new();
    let mut i: usize = 0;
    while i < votes.len()
        invariant
            i <= votes@.len(),
            views_of(r@) == images_of_variant(votes@.take(i as int), users@, variant_id),
        decreases votes@.len() - i,
    {
        proof {
            assert(votes@.take(i + 1).drop_last() =~= votes@.take(i as int));
        }
        if votes[i].poll_variant_id == variant_id {
            let uid = votes[i].user_id;
            let ghost prior = views_of(r@);
            let mut j: usize = 0;
            while j < users.len()
                invariant
                    j <= users@.len(),
                    views_of(r@) =~= prior + thumbs_of_user(users@.take(j as int), uid),
                decreases users@.len() - j,
            {
                proof {
                    assert(users@.take(j + 1).drop_last() =~= users@.take(j as int));
                }
                if users[j].id == uid {
                    let thumb = match &users[j].user_thumbnail {
                        Some(t) => t.clone(),
                        None => String::new(),
                    };
                    let ghost before = r@;
                    r.push(thumb);
                    proof {
                        assert(views_of(r@) =~= views_of(before).push(thumb_view(users@[j as int])));
                    }
                }
                j = j + 1;
            }
            proof {
                assert(users@.take(users@.len() as int) =~= users@);
            }
        }
        i = i + 1;
    }
    proof {
        assert(votes@.take(votes@.len() as int) =~= votes@);
    }
    r
}

/// The most recent four images, newest first: what the posted message shows
/// beside a variant.
pub fn last_four_reversed(images: &Vec<String>) -> (r: Vec<String>)
    ensures
        r@.len() == if images@.len() < 4 {
            images@.len() as int
        } else {
            4int
        },
        forall|k: int| 0 <= k < r@.len() ==> #[trigger] r@[k] == images@[images@.len() - 1 - k],
{
    let take_n: usize = if images.len() < 4 {
        images.len()
    } else {
        4
    };
    let mut r: Vec<String> = Vec::new();
    let mut k: usize = 0;
    while k < take_n
        invariant
            k <= take_n,
            take_n <= images@.len(),
            r@.len() == k,
            forall|m: int| 0 <= m < k ==> #[trigger] r@[m] == images@[images@.len() - 1 - m],
        decreases take_n - k,
    {
        r.push(images[images.len() - 1 - k].clone());
        k = k + 1;
    }
    r
}

/// What an optional stored text displays: the empty string where absent.
pub open spec fn text_or_empty(t: Option<String>) -> Seq<char> {
    match t {
        Some(s) => s@,
        None => Seq::empty(),
    }
}

/// Assembles the displayed poll from its stored rows: the raw vote log is
/// reduced to counted votes, and each variant shows its count and its
/// voters' cached thumbnails.
pub fn assemble_poll_view(
    poll: PollViewSource,
    variants: &Vec<SingleVariantSource>,
    users: &Vec<ChannelUser>,
    votes: &Vec<VotesResult>,
) -> (r: PollView)
    requires
        votes@.len() <= i32::MAX,
    ensures
        r.id == Some(poll.id),
        r.channel == poll.channel,
        r.is_closed == poll.is_closed,
        r.time == poll.time,
        r.variants@.len() == variants@.len(),
        forall|i: int|
            0 <= i < variants@.len() ==> {
                let row = #[trigger] variants@[i];
                let counted = counted_votes(votes@);
                let n = count_for_variant(counted, row.id);
                &&& r.variants@[i].id == Some(row.id)
                &&& r.variants@[i].title@ == text_or_empty(row.title)
                &&& r.variants@[i].variant@ == text_or_empty(row.variant)
                &&& r.variants@[i].start_date == row.start_date
                &&& views_of(r.variants@[i].images@) == images_of_variant(counted, users@, row.id)
                &&& r.variants@[i].votes == if n == 0 {
                    None::<i32>
                } else {
                    Some(n as i32)
                }
            },
{
    let counted = dedup_votes(votes);
    proof {
        lemma_counted_len(votes@);
    }
    let mut out: Vec<SingleVariant> = Vec::new();
    let mut i: usize = 0;
    while i < variants.len()
        invariant
            i <= variants@.len(),
            out@.len() == i,
            counted@ == counted_votes(votes@),
            counted@.len() <= votes@.len() <= i32::MAX,
            forall|k: int|
                0 <= k < i ==> {
                    let row = #[trigger] variants@[k];
                    let n = count_for_variant(counted@, row.id);
                    &&& out@[k].id == Some(row.id)
                    &&& out@[k].title@ == text_or_empty(row.title)
                    &&& out@[k].variant@ == text_or_empty(row.variant)
                    &&& out@[k].start_date == row.start_date
                    &&& views_of(out@[k].images@) == images_of_variant(counted@, users@, row.id)
                    &&& out@[k].votes == if n == 0 {
                        None::<i32>
                    } else {
                        Some(n as i32)
                    }
                },
        decreases variants@.len() - i,
    {
        let row = &variants[i];
        let n = variant_vote_count(&counted, row.id);
        proof {
            lemma_count_le_len(counted@, row.id);
        }
        let images = variant_images(&counted, users, row.id);
        let title = match &row.title {
            Some(t) => t.clone(),
            None => String::new(),
        };
        let variant_text = match &row.variant {
            Some(t) => t.clone(),
            None => String::new(),
        };
        out.push(
            SingleVariant {
                id: Some(row.id),
                title,
                variant: variant_text,
                images,
                votes: if n == 0 {
                    None
                } else {
                    Some(n as i32)
                },
                start_date: row.start_date,
            },
        );
        i = i + 1;
    }
    PollView {
        id: Some(poll.id),
        variants: out,
        channel: poll.channel,
        is_closed: poll.is_closed,
        time: poll.time,
    }
}

proof fn lemma_counted_len(s: Seq<VotesResult>)
    ensures
        counted_votes(s).len() <= s.len(),
    decreases s.len(),
{
    if s.len() > 0 {
        lemma_counted_len(s.drop_last());
        let rest = counted_votes(s.drop_last());
        let x = s.last();
        if has_pair(rest, x.user_id, x.poll_variant_id) {
            lemma_first_pair_index(rest, x.user_id, x.poll_variant_id);
        }
    }
}

proof fn lemma_count_le_len(s: Seq<VotesResult>, vid: i32)
    ensures
        0 <= count_for_variant(s, vid) <= s.len(),
    decreases s.len(),
{
    if s.len() > 0 {
        lemma_count_le_len(s.drop_last(), vid);
    }
}

/// One counted vote carrying the labels of its report group. Scores are in
/// hundredths of a point, at most 100 points.
pub struct ReportVote {
    pub team: String,
    pub channel: String,
    pub score: i64,
}

/// Model of one report vote.
pub struct ReportVoteModel {
    pub team: Seq<char>,
    pub channel: Seq<char>,
    pub score: int,
}

/// Model of one report group while it accumulates.
pub struct GroupModel {
    pub team: Seq<char>,
    pub channel: Seq<char>,
    pub votes: int,
    pub sum: int,
}

pub open spec fn vote_model(e: ReportVote) -> ReportVoteModel {
    ReportVoteModel { team: e.team@, channel: e.channel@, score: e.score as int }
}

pub open spec fn vote_models(s: Seq<ReportVote>) -> Seq<ReportVoteModel> {
    s.map(|i: int, e: ReportVote| vote_model(e))
}

pub open spec fn has_channel(gs: Seq<GroupModel>, c: Seq<char>) -> bool {
    exists|i: int| 0 <= i < gs.len() && (#[trigger] gs[i]).channel == c
}

pub open spec fn first_channel_index(gs: Seq<GroupModel>, c: Seq<char>) -> int
    decreases gs.len(),
{
    if gs.len() == 0 {
        0
    } else if gs[0].channel == c {
        0
    } else {
        1 + first_channel_index(gs.skip(1), c)
    }
}

proof fn lemma_first_channel_index_of(gs: Seq<GroupModel>, c: Seq<char>, j: int)
    requires
        0 <= j < gs.len(),
        gs[j].channel == c,
        forall|k: int| 0 <= k < j ==> (#[trigger] gs[k]).channel != c,
    ensures
        has_channel(gs, c),
        first_channel_index(gs, c) == j,
    decreases j,
{
    assert(has_channel(gs, c));
    if j > 0 {
        let t = gs.skip(1);
        assert(forall|k: int| 0 <= k < t.len() ==> #[trigger] t[k] == gs[k + 1]);
        lemma_first_channel_index_of(t, c, j - 1);
    }
}

/// One step of the report aggregation: a vote joins its channel's group, or
/// opens a new group at the end.
pub open spec fn group_step(gs: Seq<GroupModel>, e: ReportVoteModel) -> Seq<GroupModel> {
    if has_channel(gs, e.channel) {
        let j = first_channel_index(gs, e.channel);
        gs.update(
            j,
            GroupModel { votes: gs[j].votes + 1, sum: gs[j].sum + e.score, ..gs[j] },
        )
    } else {
        gs.push(GroupModel { team: e.team, channel: e.channel, votes: 1, sum: e.score })
    }
}

/// The report groups of a vote list: grouped by channel in order of first
/// appearance, each with its vote count and score sum.
pub open spec fn grouped(s: Seq<ReportVoteModel>) -> Seq<GroupModel>
    decreases s.len(),
{
    if s.len() == 0 {
        Seq::empty()
    } else {
        group_step(grouped(s.drop_last()), s.last())
    }
}

/// How many votes a channel has in a report vote list.
pub open spec fn channel_count(s: Seq<ReportVoteModel>, c: Seq<char>) -> int
    decreases s.len(),
{
    if s.len() == 0 {
        0
    } else {
        channel_count(s.drop_last(), c) + if s.last().channel == c {
            1int
        } else {
            0int
        }
    }
}

/// The sum of a channel's scores in a report vote list.
pub open spec fn channel_sum(s: Seq<ReportVoteModel>, c: Seq<char>) -> int
    decreases s.len(),
{
    if s.len() == 0 {
        0
    } else {
        channel_sum(s.drop_last(), c) + if s.last().channel == c {
            s.last().score
        } else {
            0int
        }
    }
}

pub open spec fn some_entry_of_channel(s: Seq<ReportVoteModel>, c: Seq<char>) -> bool {
    exists|i: int| 0 <= i < s.len() && (#[trigger] s[i]).channel == c
}

proof fn lemma_absent_channel_counts_zero(s: Seq<ReportVoteModel>, c: Seq<char>)
    requires
        !some_entry_of_channel(s, c),
    ensures
        channel_count(s, c) == 0,
        channel_sum(s, c) == 0,
    decreases s.len(),
{
    if s.len() > 0 {
        assert(!some_entry_of_channel(s.drop_last(), c)) by {
            if some_entry_of_channel(s.drop_last(), c) {
                let i = choose|i: int|
                    0 <= i < s.drop_last().len() && (#[trigger] s.drop_last()[i]).channel == c;
                assert(s[i].channel == c);
            }
        }
        lemma_absent_channel_counts_zero(s.drop_last(), c);
        assert(s.last().channel != c) by {
            assert(s[s.len() - 1] == s.last());
        }
    }
}

proof fn lemma_grouped_channels_unique(s: Seq<ReportVoteModel>)
    ensures
        forall|j: int, k: int|
            0 <= j < k < grouped(s).len() ==> (#[trigger] grouped(s)[j]).channel
                != (#[trigger] grouped(s)[k]).channel,
        forall|c: Seq<char>|
            has_channel(grouped(s), c) <==> #[trigger] some_entry_of_channel(s, c),
    decreases s.len(),
{
    if s.len() > 0 {
        lemma_grouped_channels_unique(s.drop_last());
        let rest = grouped(s.drop_last());
        let x = s.last();
        if has_channel(rest, x.channel) {
            lemma_first_channel_index_of_exists(rest, x.channel);
        }
        assert(forall|k: int| 0 <= k < s.len() - 1 ==> #[trigger] s[k] == s.drop_last()[k]);
        assert forall|c: Seq<char>| #[trigger] some_entry_of_channel(s, c) implies has_channel(
            grouped(s),
            c,
        ) by {
            let i = choose|i: int| 0 <= i < s.len() && (#[trigger] s[i]).channel == c;
            if i < s.len() - 1 {
                assert(some_entry_of_channel(s.drop_last(), c)) by {
                    assert(s.drop_last()[i].channel == c);
                }
                let j = choose|j: int|
                    0 <= j < rest.len() && (#[trigger] rest[j]).channel == c;
                assert(grouped(s)[j].channel == c);
            } else {
                assert(x.channel == c);
                if has_channel(rest, x.channel) {
                    let j = first_channel_index(rest, x.channel);
                    assert(grouped(s)[j].channel == c);
                } else {
                    assert(grouped(s).last().channel == c);
                }
            }
        }
        assert forall|c: Seq<char>| has_channel(grouped(s), c) implies #[trigger] some_entry_of_channel(
            s,
            c,
        ) by {
            let j = choose|j: int|
                0 <= j < grouped(s).len() && (#[trigger] grouped(s)[j]).channel == c;
            if has_channel(rest, x.channel) {
                let f = first_channel_index(rest, x.channel);
                if j == f && c == x.channel {
                    assert(s[s.len() - 1].channel == c);
                } else {
                    assert(rest[j].channel == c);
                    assert(some_entry_of_channel(s.drop_last(), c));
                    let i = choose|i: int|
                        0 <= i < s.drop_last().len() && (#[trigger] s.drop_last()[i]).channel == c;
                    assert(s[i].channel == c);
                }
            } else {
                if j == grouped(s).len() - 1 {
                    assert(s[s.len() - 1].channel == c);
                } else {
                    assert(rest[j].channel == c);
                    assert(some_entry_of_channel(s.drop_last(), c));
                    let i = choose|i: int|
                        0 <= i < s.drop_last().len() && (#[trigger] s.drop_last()[i]).channel == c;
                    assert(s[i].channel == c);
                }
            }
        }
    }
}

proof fn lemma_first_channel_index_of_exists(gs: Seq<GroupModel>, c: Seq<char>)
    requires
        has_channel(gs, c),
    ensures
        0 <= first_channel_index(gs, c) < gs.len(),
        gs[first_channel_index(gs, c)].channel == c,
    decreases gs.len(),
{
    if gs.len() > 0 && gs[0].channel != c {
        let t = gs.skip(1);
        assert(has_channel(t, c)) by {
            let i = choose|i: int| 0 <= i < gs.len() && (#[trigger] gs[i]).channel == c;
            assert(t[i - 1].channel == c);
        }
        lemma_first_channel_index_of_exists(t, c);
        assert(forall|k: int| 0 <= k < t.len() ==> #[trigger] t[k] == gs[k + 1]);
    }
}

/// Every report group's vote count and score sum are exactly those of its
/// channel's entries: nothing is dropped, nothing is counted twice.
pub proof fn lemma_group_totals(s: Seq<ReportVoteModel>)
    ensures
        forall|j: int|
            0 <= j < grouped(s).len() ==> (#[trigger] grouped(s)[j]).votes == channel_count(
                s,
                grouped(s)[j].channel,
            ) && grouped(s)[j].sum == channel_sum(s, grouped(s)[j].channel),
    decreases s.len(),
{
    if s.len() > 0 {
        lemma_group_totals(s.drop_last());
        lemma_grouped_channels_unique(s.drop_last());
        let rest = grouped(s.drop_last());
        let x = s.last();
        assert(s[s.len() - 1] == x);
        if has_channel(rest, x.channel) {
            lemma_first_channel_index_of_exists(rest, x.channel);
        }
        assert forall|j: int| 0 <= j < grouped(s).len() implies (#[trigger] grouped(s)[j]).votes
            == channel_count(s, grouped(s)[j].channel) && grouped(s)[j].sum == channel_sum(
            s,
            grouped(s)[j].channel,
        ) by {
            if has_channel(rest, x.channel) {
                let f = first_channel_index(rest, x.channel);
                if j == f {
                    assert(grouped(s)[j].channel == x.channel);
                } else {
                    assert(grouped(s)[j] == rest[j]);
                    assert(rest[j].channel != x.channel) by {
                        if j < f {
                            // the first matching index sits after j
                            lemma_first_channel_index_prefix(rest, x.channel, j);
                        }
                    }
                }
            } else {
                if j == grouped(s).len() - 1 {
                    assert(grouped(s)[j].channel == x.channel);
                    assert(!some_entry_of_channel(s.drop_last(), x.channel));
                    lemma_absent_channel_counts_zero(s.drop_last(), x.channel);
                } else {
                    assert(grouped(s)[j] == rest[j]);
                    assert(rest[j].channel != x.channel) by {
                        if rest[j].channel == x.channel {
                            assert(has_channel(rest, x.channel));
                        }
                    }
                }
            }
        }
    }
}

proof fn lemma_first_channel_index_prefix(gs: Seq<GroupModel>, c: Seq<char>, j: int)
    requires
        has_channel(gs, c),
        0 <= j < first_channel_index(gs, c),
    ensures
        gs[j].channel != c,
    decreases j,
{
    lemma_first_channel_index_of_exists(gs, c);
    if gs[0].channel != c && j > 0 {
        let t = gs.skip(1);
        assert(has_channel(t, c)) by {
            let i = choose|i: int| 0 <= i < gs.len() && (#[trigger] gs[i]).channel == c;
            assert(t[i - 1].channel == c);
        }
        lemma_first_channel_index_prefix(t, c, j - 1);
        assert(gs[j] == t[j - 1]);
    }
}

/// Aggregates counted votes into report rows: grouped by channel, with the
/// group's vote count and its average score in hundredths of a point.
pub fn aggregate_votes(entries: &Vec<ReportVote>) -> (r: Vec<PollReportSource>)
    requires
        entries@.len() <= i32::MAX,
        forall|i: int| 0 <= i < entries@.len() ==> 0 <= (#[trigger] entries@[i]).score <= 10_000,
    ensures
        ({
            let gs = grouped(vote_models(entries@));
            &&& r@.len() == gs.len()
            &&& forall|i: int|
                0 <= i < gs.len() ==> (#[trigger] r@[i]).team@ == gs[i].team && r@[i].channel@
                    == gs[i].channel && r@[i].total_votes == gs[i].votes && r@[i].score == gs[i].sum
                    / gs[i].votes
        }),
{
    let ghost models = vote_models(entries@);
    let mut teams: Vec<String> = Vec::new();
    let mut channels: Vec<String> = Vec::new();
    let mut votes: Vec<i32> = Vec::new();
    let mut sums: Vec<i64> = Vec::new();
    let mut i: usize = 0;
    while i < entries.len()
        invariant
            i <= entries@.len(),
            entries@.len() <= i32::MAX,
            forall|k: int| 0 <= k < entries@.len() ==> 0 <= (#[trigger] entries@[k]).score <= 10_000,
            models == vote_models(entries@),
            teams@.len() == grouped(models.take(i as int)).len(),
            channels@.len() == teams@.len(),
            votes@.len() == teams@.len(),
            sums@.len() == teams@.len(),
            forall|k: int|
                0 <= k < teams@.len() ==> {
                    let g = #[trigger] grouped(models.take(i as int))[k];
                    teams@[k]@ == g.team && channels@[k]@ == g.channel && votes@[k] == g.votes
                        && sums@[k] == g.sum
                },
            forall|k: int|
                0 <= k < votes@.len() ==> 1 <= #[trigger] votes@[k] && votes@[k] <= i,
            forall|k: int|
                0 <= k < sums@.len() ==> 0 <= #[trigger] sums@[k] && sums@[k] <= votes@[k] as int
                    * 10_000,
        decreases entries@.len() - i,
    {
        let e = &entries[i];
        let ghost prior = grouped(models.take(i as int));
        proof {
            assert(models.take(i + 1).drop_last() =~= models.take(i as int));
            assert(models.take(i + 1).last() == vote_model(entries@[i as int]));
        }
        let mut j: usize = 0;
        let mut found = false;
        while j < channels.len() && !found
            invariant
                j <= channels@.len(),
                channels@.len() == teams@.len(),
                forall|k: int|
                    0 <= k < teams@.len() ==> (#[trigger] channels@[k])@ == prior[k].channel,
                teams@.len() == prior.len(),
                !found ==> forall|k: int| 0 <= k < j ==> (#[trigger] prior[k]).channel != e.channel@,
                found ==> j < prior.len() && prior[j as int].channel == e.channel@ && forall|k: int|
                    0 <= k < j ==> (#[trigger] prior[k]).channel != e.channel@,
            decreases channels@.len() - j + if found { 0int } else { 1int },
        {
            if channels[j].eq(&e.channel) {
                found = true;
            } else {
                j = j + 1;
            }
        }
        if found {
            proof {
                lemma_first_channel_index_of(prior, e.channel@, j as int);
            }
            let nv = votes[j] + 1;
            let ns = sums[j] + e.score;
            votes.set(j, nv);
            sums.set(j, ns);
        } else {
            proof {
                assert(!has_channel(prior, e.channel@));
            }
            teams.push(e.team.clone());
            channels.push(e.channel.clone());
            votes.push(1);
            sums.push(e.score);
        }
        i = i + 1;
    }
    proof {
        assert(models.take(models.len() as int) =~= models);
    }
    let ghost gs = grouped(models);
    let mut r: Vec<PollReportSource> = Vec::new();
    let mut k: usize = 0;
    while k < teams.len()
        invariant
            k <= teams@.len(),
            channels@.len() == teams@.len(),
            votes@.len() == teams@.len(),
            sums@.len() == teams@.len(),
            teams@.len() == gs.len(),
            forall|m: int|
                0 <= m < teams@.len() ==> {
                    let g = #[trigger] gs[m];
                    teams@[m]@ == g.team && channels@[m]@ == g.channel && votes@[m] == g.votes
                        && sums@[m] == g.sum
                },
            forall|m: int| 0 <= m < votes@.len() ==> 1 <= #[trigger] votes@[m],
            forall|m: int| 0 <= m < sums@.len() ==> 0 <= #[trigger] sums@[m],
            r@.len() == k,
            forall|m: int|
                0 <= m < k ==> (#[trigger] r@[m]).team@ == gs[m].team && r@[m].channel@
                    == gs[m].channel && r@[m].total_votes == gs[m].votes && r@[m].score == gs[m].sum
                    / gs[m].votes,
        decreases teams@.len() - k,
    {
        let avg = ((sums[k] as u64) / (votes[k] as u64)) as i64;
        proof {
            assert(sums@[k as int] as u64 == sums@[k as int] as int);
            assert(votes@[k as int] as u64 == votes@[k as int] as int);
            assert((sums@[k as int] as int) / (votes@[k as int] as int) <= sums@[k as int]) by {
                vstd::arithmetic::div_mod::lemma_div_is_ordered_by_denominator(
                    sums@[k as int] as int,
                    1,
                    votes@[k as int] as int,
                );
            }
        }
        r.push(
            PollReportSource {
                team: teams[k].clone(),
                channel: channels[k].clone(),
                total_votes: votes[k],
                score: avg,
            },
        );
        k = k + 1;
    }
    r
}

/// The report groups that meet the minimum-vote threshold, in order.
pub open spec fn meets_threshold(s: Seq<PollReportSource>, min_votes: int) -> Seq<PollReportSource>
    decreases s.len(),
{
    if s.len() == 0 {
        Seq::empty()
    } else {
        let prior = meets_threshold(s.drop_last(), min_votes);
        if s.last().total_votes >= min_votes {
            prior.push(s.last())
        } else {
            prior
        }
    }
}

fn clone_row(row: &PollReportSource) -> (r: PollReportSource)
    ensures
        r == *row,
{
    PollReportSource {
        team: row.team.clone(),
        channel: row.channel.clone(),
        total_votes: row.total_votes,
        score: row.score,
    }
}

/// Drops the report groups under the minimum-vote threshold.
pub fn filter_by_threshold(rows: &Vec<PollReportSource>, min_votes: i32) -> (r: Vec<
    PollReportSource,
>)
    ensures
        r@ == meets_threshold(rows@, min_votes as int),
{
    let mut r: Vec<PollReportSource> = Vec::new();
    let mut i: usize = 0;
    while i < rows.len()
        invariant
            i <= rows@.len(),
            r@ == meets_threshold(rows@.take(i as int), min_votes as int),
        decreases rows@.len() - i,
    {
        proof {
            assert(rows@.take(i + 1).drop_last() =~= rows@.take(i as int));
        }
        if rows[i].total_votes >= min_votes {
            r.push(clone_row(&rows[i]));
        }
        i = i + 1;
    }
    proof {
        assert(rows@.take(rows@.len() as int) =~= rows@);
    }
    r
}

/// Insertion of a row into a descending run: it goes after every row scoring
/// at least as much, so earlier rows keep their place on ties.
pub open spec fn insert_desc(s: Seq<PollReportSource>, x: PollReportSource) -> Seq<
    PollReportSource,
>
    decreases s.len(),
{
    if s.len() == 0 {
        seq![x]
    } else if s.last().score >= x.score {
        s.push(x)
    } else {
        insert_desc(s.drop_last(), x).push(s.last())
    }
}

/// Stable descending sort by score: ties keep their input order.
pub open spec fn sort_desc(s: Seq<PollReportSource>) -> Seq<PollReportSource>
    decreases s.len(),
{
    if s.len() == 0 {
        Seq::empty()
    } else {
        insert_desc(sort_desc(s.drop_last()), s.last())
    }
}

proof fn lemma_insert_desc_at(s: Seq<PollReportSource>, x: PollReportSource, p: int)
    requires
        0 <= p <= s.len(),
        forall|k: int| p <= k < s.len() ==> (#[trigger] s[k]).score < x.score,
        p > 0 ==> s[p - 1].score >= x.score,
    ensures
        insert_desc(s, x) =~= s.insert(p, x),
    decreases s.len() - p,
{
    if p == s.len() {
        if s.len() == 0 {
            assert(insert_desc(s, x) =~= s.insert(p, x));
        } else {
            assert(s.last().score >= x.score);
            assert(s.push(x) =~= s.insert(p, x));
        }
    } else {
        assert(s.last().score < x.score);
        lemma_insert_desc_at(s.drop_last(), x, p);
        assert(insert_desc(s.drop_last(), x).push(s.last()) =~= s.insert(p, x));
    }
}

/// Sorts report rows by score, highest first; rows with equal scores keep
/// their input order.
pub fn sort_report(rows: &Vec<PollReportSource>) -> (r: Vec<PollReportSource>)
    ensures
        r@ == sort_desc(rows@),
{
    let mut r: Vec<PollReportSource> = Vec::new();
    let mut i: usize = 0;
    while i < rows.len()
        invariant
            i <= rows@.len(),
            r@ == sort_desc(rows@.take(i as int)),
            r@.len() == i,
        decreases rows@.len() - i,
    {
        proof {
            assert(rows@.take(i + 1).drop_last() =~= rows@.take(i as int));
        }
        let x = clone_row(&rows[i]);
        let mut p: usize = r.len();
        while p > 0 && r[p - 1].score < x.score
            invariant
                p <= r@.len(),
                forall|k: int| p <= k < r@.len() ==> (#[trigger] r@[k]).score < x.score,
            decreases p,
        {
            p = p - 1;
        }
        proof {
            lemma_insert_desc_at(r@, x, p as int);
        }
        r.insert(p, x);
        i = i + 1;
    }
    proof {
        assert(rows@.take(rows@.len() as int) =~= rows@);
    }
    r
}

/// A descending run stays descending when a row is inserted its stable way.
proof fn lemma_insert_desc_sorted(s: Seq<PollReportSource>, x: PollReportSource)
    requires
        forall|j: int, k: int| 0 <= j < k < s.len() ==> (#[trigger] s[j]).score >= (#[trigger] s[k]).score,
    ensures
        forall|j: int, k: int|
            0 <= j < k < insert_desc(s, x).len() ==> (#[trigger] insert_desc(s, x)[j]).score
                >= (#[trigger] insert_desc(s, x)[k]).score,
    decreases s.len(),
{
    if s.len() > 0 && s.last().score < x.score {
        assert(forall|j: int, k: int|
            0 <= j < k < s.drop_last().len() ==> (#[trigger] s.drop_last()[j]).score
                >= (#[trigger] s.drop_last()[k]).score);
        lemma_insert_desc_sorted(s.drop_last(), x);
        let t = insert_desc(s.drop_last(), x);
        assert forall|j: int| 0 <= j < t.len() implies (#[trigger] t[j]).score >= s.last().score by {
            lemma_insert_desc_members(s.drop_last(), x, j);
        }
    }
}

proof fn lemma_insert_desc_members(s: Seq<PollReportSource>, x: PollReportSource, j: int)
    requires
        0 <= j < insert_desc(s, x).len(),
    ensures
        insert_desc(s, x)[j] == x || s.contains(insert_desc(s, x)[j]),
    decreases s.len(),
{
    if s.len() == 0 {
    } else if s.last().score >= x.score {
        if j < s.len() {
            assert(s.contains(insert_desc(s, x)[j])) by {
                assert(insert_desc(s, x)[j] == s[j]);
            }
        }
    } else {
        let t = insert_desc(s.drop_last(), x);
        if j < t.len() {
            lemma_insert_desc_members(s.drop_last(), x, j);
            if s.drop_last().contains(t[j]) {
                let k = choose|k: int| 0 <= k < s.drop_last().len() && s.drop_last()[k] == t[j];
                assert(s[k] == t[j]);
            }
        } else {
            assert(insert_desc(s, x)[j] == s.last());
            assert(s[s.len() - 1] == s.last());
        }
    }
}

proof fn lemma_insert_desc_multiset(s: Seq<PollReportSource>, x: PollReportSource)
    ensures
        insert_desc(s, x).to_multiset() =~= s.to_multiset().insert(x),
    decreases s.len(),
{
    broadcast use vstd::seq_lib::group_to_multiset_ensures;

    if s.len() == 0 {
        assert(seq![x] =~= Seq::<PollReportSource>::empty().push(x));
    } else if s.last().score >= x.score {
    } else {
        lemma_insert_desc_multiset(s.drop_last(), x);
        assert(s =~= s.drop_last().push(s.last()));
        assert(insert_desc(s, x).to_multiset() =~= s.drop_last().to_multiset().insert(x).insert(
            s.last(),
        ));
        assert(s.to_multiset().insert(x) =~= s.drop_last().to_multiset().insert(s.last()).insert(
            x,
        ));
    }
}

/// The sorted report holds exactly the given rows: sorting neither drops nor
/// invents a group.
pub proof fn lemma_sort_desc_permutes(s: Seq<PollReportSource>)
    ensures
        sort_desc(s).to_multiset() =~= s.to_multiset(),
    decreases s.len(),
{
    broadcast use vstd::seq_lib::group_to_multiset_ensures;

    if s.len() > 0 {
        lemma_sort_desc_permutes(s.drop_last());
        lemma_insert_desc_multiset(sort_desc(s.drop_last()), s.last());
        assert(s =~= s.drop_last().push(s.last()));
        assert(s.to_multiset() =~= s.drop_last().to_multiset().insert(s.last()));
    }
}

/// The sorted report really is descending in score.
pub proof fn lemma_sort_desc_sorted(s: Seq<PollReportSource>)
    ensures
        forall|j: int, k: int|
            0 <= j < k < sort_desc(s).len() ==> (#[trigger] sort_desc(s)[j]).score
                >= (#[trigger] sort_desc(s)[k]).score,
    decreases s.len(),
{
    if s.len() > 0 {
        lemma_sort_desc_sorted(s.drop_last());
        lemma_insert_desc_sorted(sort_desc(s.drop_last()), s.last());
    }
}

/// The fixed rank markers of the top three report rows; every later row is
/// unlabeled.
pub open spec fn place_label_text(n: int) -> Seq<char> {
    if n == 1 {
        "🏆*Первое место:*\n"@
    } else if n == 2 {
        "🌟*Второе место:*\n"@
    } else if n == 3 {
        "🌟*Третье место:*\n"@
    } else {
        ""@
    }
}

/// The rank marker shown before the `n`-th report row.
pub fn place_label(n: i32) -> (r: String)
    ensures
        r@ == place_label_text(n as int),
{
    if n == 1 {
        "🏆*Первое место:*\n".to_owned()
    } else if n == 2 {
        "🌟*Второе место:*\n".to_owned()
    } else if n == 3 {
        "🌟*Третье место:*\n".to_owned()
    } else {
        "".to_owned()
    }
}

/// Labels report rows in their given order: the first three get the fixed
/// rank markers, the rest stay unlabeled.
pub fn labelled_report(rows: &Vec<PollReportSource>) -> (r: PollReport)
    ensures
        r.results@.len() == rows@.len(),
        forall|i: int|
            0 <= i < rows@.len() ==> (#[trigger] r.results@[i]).place@ == place_label_text(i + 1)
                && r.results@[i].variant_title == rows@[i].team && r.results@[i].votes_count
                == rows@[i].total_votes && r.results@[i].points_count == rows@[i].score,
{
    let mut results: Vec<PollResult> = Vec::new();
    let mut i: usize = 0;
    while i < rows.len()
        invariant
            i <= rows@.len(),
            results@.len() == i,
            forall|k: int|
                0 <= k < i ==> (#[trigger] results@[k]).place@ == place_label_text(k + 1)
                    && results@[k].variant_title == rows@[k].team && results@[k].votes_count
                    == rows@[k].total_votes && results@[k].points_count == rows@[k].score,
        decreases rows@.len() - i,
    {
        let marker: i32 = if i >= 3 {
            4
        } else {
            (i + 1) as i32
        };
        let entry = PollResult {
            place: place_label(marker),
            variant_title: rows[i].team.clone(),
            votes_count: rows[i].total_votes,
            points_count: rows[i].score,
        };
        results.push(entry);
        i = i + 1;
    }
    PollReport { results }
}

/// Builds the closing report from report rows: groups under the threshold
/// are dropped, the rest are ranked by score, highest first and stable on
/// ties, and the top three get the fixed rank markers.
pub fn rank_report(rows: &Vec<PollReportSource>, min_votes: i32) -> (r: PollReport)
    ensures
        ({
            let ranked = sort_desc(meets_threshold(rows@, min_votes as int));
            &&& r.results@.len() == ranked.len()
            &&& forall|i: int|
                0 <= i < ranked.len() ==> (#[trigger] r.results@[i]).place@ == place_label_text(
                    i + 1,
                ) && r.results@[i].variant_title == ranked[i].team && r.results@[i].votes_count
                    == ranked[i].total_votes && r.results@[i].points_count == ranked[i].score
        }),
        forall|j: int, k: int|
            0 <= j < k < r.results@.len() ==> (#[trigger] r.results@[j]).points_count
                >= (#[trigger] r.results@[k]).points_count,
{
    let kept = filter_by_threshold(rows, min_votes);
    let ranked = sort_report(&kept);
    proof {
        lemma_sort_desc_sorted(kept@);
    }
    labelled_report(&ranked)
}

} // verus!
