//! The voting service: poll creation and update rules, validated vote
//! casting modelled as the store's atomic counter increment, and vote
//! statistics.

use vstd::prelude::*;

use crate::errors::ApiError;

verus! {

/// A poll: a titled, ordered set of options with a parallel vote count per
/// option. The store assigns `id` and `created_at`.
#[derive(Debug)]
pub struct Poll {
    pub id: i32,
    pub title: String,
    pub options: Vec<String>,
    pub votes: Vec<i32>,
    pub created_at: String,
}

/// A vote request: the index of the chosen option.
#[derive(Debug)]
pub struct VoteRequest {
    pub option_index: i32,
}

/// One row of a poll's statistics. The percentage is carried exactly, in
/// hundredths of a percent rounded down, so `10000` is one hundred percent.
#[derive(Debug)]
pub struct PollOptionStats {
    pub option: String,
    pub votes: i32,
    pub percent_hundredths: u32,
}

impl Poll {
    /// The poll invariant: one counter per option, and counters never
    /// negative.
    pub open spec fn wf(self) -> bool {
        &&& self.votes@.len() == self.options@.len()
        &&& forall|i: int| 0 <= i < self.votes@.len() ==> self.votes@[i] >= 0
    }
}

/// A vote's option index is valid when it addresses an existing option.
pub open spec fn vote_in_range(p: Poll, option_index: int) -> bool {
    0 <= option_index < p.options@.len()
}

/// A counter vector of `n` zeroes: the vote state of a fresh poll.
fn zero_votes(n: usize) -> (r: Vec<i32>)
    ensures
        r@.len() == n,
        forall|i: int| 0 <= i < n ==> r@[i] == 0,
{
    let mut v: Vec<i32> = Vec::new();
    let mut i: usize = 0;
    while i < n
        invariant
            i <= n,
            v@.len() == i,
            forall|j: int| 0 <= j < i ==> v@[j] == 0,
        decreases n - i,
    {
        v.push(0);
        i += 1;
    }
    v
}

/// Build a new poll: at least two options are required, and every counter
/// starts at zero. `id` and `created_at` are whatever the store assigned.
pub fn new_poll(id: i32, title: String, options: Vec<String>, created_at: String) -> (r: Result<
    Poll,
    ApiError,
>)
    ensures
        options@.len() < 2 ==> r == Err::<Poll, ApiError>(ApiError::InvalidArgument),
        options@.len() >= 2 ==> match r {
            Ok(p) => {
                &&& p.id == id
                &&& p.title == title
                &&& p.options == options
                &&& p.created_at == created_at
                &&& p.votes@.len() == options@.len()
                &&& forall|i: int| 0 <= i < p.votes@.len() ==> p.votes@[i] == 0
                &&& p.wf()
            },
            Err(_) => false,
        },
{
    if options.len() < 2 {
        return Err(ApiError::InvalidArgument);
    }
    let votes = zero_votes(options.len());
    Ok(Poll { id, title, options, votes, created_at })
}

/// The `NotFound` rule shared by every by-id poll operation: a fetch that
/// found nothing fails the request.
pub fn poll_or_not_found(p: Option<Poll>) -> (r: Result<Poll, ApiError>)
    ensures
        match p {
            Some(found) => r == Ok::<Poll, ApiError>(found),
            None => r == Err::<Poll, ApiError>(ApiError::NotFound),
        },
{
    match p {
        Some(found) => Ok(found),
        None => Err(ApiError::NotFound),
    }
}

/// Validate a vote request against a poll: the index must address an existing
/// option, else the vote is an `InvalidArgument`.
pub fn validate_vote_index(p: &Poll, option_index: i32) -> (r: Result<(), ApiError>)
    ensures
        vote_in_range(*p, option_index as int) ==> r == Ok::<(), ApiError>(()),
        !vote_in_range(*p, option_index as int) ==> r == Err::<(), ApiError>(
            ApiError::InvalidArgument,
        ),
{
    if option_index >= 0 && (option_index as usize) < p.options.len() {
        Ok(())
    } else {
        Err(ApiError::InvalidArgument)
    }
}

/// Cast a vote: validate the option index, then increment exactly that
/// option's counter by one, leaving every other counter and every other field
/// unchanged — the store-level atomic increment. An out-of-range index is an
/// `InvalidArgument` and mutates nothing; a counter already at its maximum
/// cannot be incremented by the store and is a `StorageError`, with nothing
/// changed either.
pub fn cast_vote(p: &mut Poll, option_index: i32) -> (r: Result<(), ApiError>)
    requires
        old(p).wf(),
    ensures
        final(p).wf(),
        final(p).id == old(p).id,
        final(p).title == old(p).title,
        final(p).options == old(p).options,
        final(p).created_at == old(p).created_at,
        !vote_in_range(*old(p), option_index as int) ==> r == Err::<(), ApiError>(
            ApiError::InvalidArgument,
        ) && final(p).votes == old(p).votes,
        vote_in_range(*old(p), option_index as int) && old(p).votes@[option_index as int]
            == i32::MAX ==> r == Err::<(), ApiError>(ApiError::StorageError) && final(p).votes
            == old(p).votes,
        vote_in_range(*old(p), option_index as int) && old(p).votes@[option_index as int]
            < i32::MAX ==> r == Ok::<(), ApiError>(()) && final(p).votes@ == old(
            p,
        ).votes@.update(option_index as int, (old(p).votes@[option_index as int] + 1) as i32),
        r == Ok::<(), ApiError>(()) ==> forall|j: int|
            0 <= j < old(p).votes@.len() && j != option_index as int ==> final(p).votes@[j] == old(
                p,
            ).votes@[j],
{
    if option_index < 0 || (option_index as usize) >= p.options.len() {
        return Err(ApiError::InvalidArgument);
    }
    let i: usize = option_index as usize;
    let current: i32 = p.votes[i];
    if current == i32::MAX {
        return Err(ApiError::StorageError);
    }
    p.votes.set(i, current + 1);
    Ok(())
}

/// The counters as unbounded integers, for stating laws about sums and
/// increments.
pub open spec fn as_ints(s: Seq<i32>) -> Seq<int> {
    s.map(|_i: int, v: i32| v as int)
}

/// One store-serialized increment of the counter at `i`.
pub open spec fn inc_at(votes: Seq<int>, i: int) -> Seq<int> {
    votes.update(i, votes[i] + 1)
}

/// `n` store-serialized increments of the counter at `i`.
pub open spec fn inc_n_at(votes: Seq<int>, i: int, n: nat) -> Seq<int>
    decreases n,
{
    if n == 0 {
        votes
    } else {
        inc_at(inc_n_at(votes, i, (n - 1) as nat), i)
    }
}

/// A successful `cast_vote` performs exactly one serialized increment of the
/// chosen counter: the bridge from the executable update to the increment
/// model.
pub proof fn lemma_cast_vote_is_inc(old_votes: Seq<i32>, new_votes: Seq<i32>, i: int)
    requires
        0 <= i < old_votes.len(),
        old_votes[i] < i32::MAX,
        new_votes == old_votes.update(i, (old_votes[i] + 1) as i32),
    ensures
        as_ints(new_votes) == inc_at(as_ints(old_votes), i),
{
    assert(as_ints(new_votes) =~= inc_at(as_ints(old_votes), i));
}

/// No lost updates: concurrent votes on the same poll and option are
/// serialized by the store's atomic increment, and `n` of them leave that
/// counter exactly `n` higher than before, with every other counter
/// unchanged.
pub proof fn lemma_no_lost_updates(votes: Seq<int>, i: int, n: nat)
    requires
        0 <= i < votes.len(),
    ensures
        inc_n_at(votes, i, n).len() == votes.len(),
        inc_n_at(votes, i, n)[i] == votes[i] + n,
        forall|j: int| 0 <= j < votes.len() && j != i ==> inc_n_at(votes, i, n)[j] == votes[j],
    decreases n,
{
    if n > 0 {
        lemma_no_lost_updates(votes, i, (n - 1) as nat);
    }
}

/// Whether every counter of a sequence is non-negative.
pub open spec fn all_nonneg(s: Seq<int>) -> bool {
    forall|i: int| 0 <= i < s.len() ==> s[i] >= 0
}

/// The sum of a sequence of counters.
pub open spec fn sum_of(s: Seq<int>) -> int
    decreases s.len(),
{
    if s.len() == 0 {
        0
    } else {
        sum_of(s.drop_last()) + s.last()
    }
}

/// A poll's total number of ballots.
pub open spec fn total_votes(p: Poll) -> int {
    sum_of(as_ints(p.votes@))
}

/// The share of `v` ballots out of `total`, in hundredths of a percent
/// rounded down; zero when no ballot was cast.
pub open spec fn pct_hundredths(v: int, total: int) -> int {
    if total > 0 {
        v * 10000 / total
    } else {
        0
    }
}

proof fn lemma_sum_nonneg(s: Seq<int>)
    requires
        all_nonneg(s),
    ensures
        sum_of(s) >= 0,
    decreases s.len(),
{
    if s.len() > 0 {
        assert(all_nonneg(s.drop_last()));
        lemma_sum_nonneg(s.drop_last());
    }
}

proof fn lemma_sum_take_succ(s: Seq<int>, i: int)
    requires
        0 <= i < s.len(),
    ensures
        sum_of(s.take(i + 1)) == sum_of(s.take(i)) + s[i],
{
    assert(s.take(i + 1).drop_last() =~= s.take(i));
    assert(s.take(i + 1).last() == s[i]);
}

proof fn lemma_sum_take_le(s: Seq<int>, i: int)
    requires
        all_nonneg(s),
        0 <= i <= s.len(),
    ensures
        sum_of(s.take(i)) <= sum_of(s),
    decreases s.len() - i,
{
    if i == s.len() {
        assert(s.take(i) =~= s);
    } else {
        lemma_sum_take_succ(s, i);
        lemma_sum_take_le(s, i + 1);
    }
}

proof fn lemma_elem_le_sum(s: Seq<int>, i: int)
    requires
        all_nonneg(s),
        0 <= i < s.len(),
    ensures
        s[i] <= sum_of(s),
{
    lemma_sum_take_succ(s, i);
    lemma_sum_take_le(s, i + 1);
    assert(all_nonneg(s.take(i)));
    lemma_sum_nonneg(s.take(i));
}

/// Compute the statistics of a poll: for every option, its text, its ballot
/// count, and its share of the total in hundredths of a percent rounded
/// down — all zero shares when no ballot was cast at all. Pure: the one
/// store access is the fetch the caller already made.
pub fn compute_stats(p: &Poll) -> (r: Vec<PollOptionStats>)
    requires
        p.wf(),
        total_votes(*p) <= i32::MAX,
    ensures
        r@.len() == p.options@.len(),
        forall|i: int|
            #![trigger r@[i]]
            0 <= i < r@.len() ==> {
                &&& r@[i].option@ == p.options@[i]@
                &&& r@[i].votes == p.votes@[i]
                &&& r@[i].percent_hundredths as int == pct_hundredths(
                    p.votes@[i] as int,
                    total_votes(*p),
                )
                &&& r@[i].percent_hundredths <= 10000
            },
{
    let ghost ints = as_ints(p.votes@);
    let n: usize = p.votes.len();
    let mut total: i32 = 0;
    let mut i: usize = 0;
    while i < n
        invariant
            p.wf(),
            total_votes(*p) <= i32::MAX,
            ints == as_ints(p.votes@),
            all_nonneg(ints),
            n == p.votes@.len(),
            i <= n,
            total as int == sum_of(ints.take(i as int)),
            total >= 0,
        decreases n - i,
    {
        proof {
            lemma_sum_take_succ(ints, i as int);
            lemma_sum_take_le(ints, i as int + 1);
            lemma_sum_nonneg(ints.take(i as int + 1));
        }
        total = total + p.votes[i];
        i += 1;
    }
    proof {
        assert(ints.take(n as int) =~= ints);
    }
    let mut r: Vec<PollOptionStats> = Vec::new();
    let mut i: usize = 0;
    while i < n
        invariant
            p.wf(),
            ints == as_ints(p.votes@),
            all_nonneg(ints),
            n == p.votes@.len(),
            i <= n,
            total as int == total_votes(*p),
            total >= 0,
            r@.len() == i,
            forall|j: int|
                #![trigger r@[j]]
                0 <= j < i ==> {
                    &&& r@[j].option@ == p.options@[j]@
                    &&& r@[j].votes == p.votes@[j]
                    &&& r@[j].percent_hundredths as int == pct_hundredths(
                        p.votes@[j] as int,
                        total_votes(*p),
                    )
                    &&& r@[j].percent_hundredths <= 10000
                },
        decreases n - i,
    {
        let v: i32 = p.votes[i];
        let pct: u32 = if total > 0 {
            proof {
                lemma_elem_le_sum(ints, i as int);
                vstd::arithmetic::mul::lemma_mul_inequality(v as int, total as int, 10000);
                vstd::arithmetic::div_mod::lemma_div_is_ordered(
                    v as int * 10000,
                    total as int * 10000,
                    total as int,
                );
                vstd::arithmetic::div_mod::lemma_div_multiples_vanish(10000, total as int);
                vstd::arithmetic::div_mod::lemma_div_pos_is_pos(v as int * 10000, total as int);
            }
            let q: u64 = (v as u64) * 10000 / (total as u64);
            q as u32
        } else {
            0
        };
        r.push(PollOptionStats { option: p.options[i].clone(), votes: v, percent_hundredths: pct });
        i += 1;
    }
    r
}

/// The sum of the rounded percentage shares of a sequence of counters.
pub open spec fn sum_pct(votes: Seq<int>, total: int) -> int
    decreases votes.len(),
{
    if votes.len() == 0 {
        0
    } else {
        sum_pct(votes.drop_last(), total) + pct_hundredths(votes.last(), total)
    }
}

proof fn lemma_sum_pct_bounds(votes: Seq<int>, total: int)
    requires
        all_nonneg(votes),
        total > 0,
    ensures
        total * sum_pct(votes, total) <= 10000 * sum_of(votes),
        total * sum_pct(votes, total) >= 10000 * sum_of(votes) - votes.len() * (total - 1),
    decreases votes.len(),
{
    if votes.len() == 0 {
    } else {
        let prefix = votes.drop_last();
        let v = votes.last();
        let q = v * 10000 / total;
        let rem = (v * 10000) % total;
        assert(all_nonneg(prefix));
        lemma_sum_pct_bounds(prefix, total);
        vstd::arithmetic::div_mod::lemma_fundamental_div_mod(v * 10000, total);
        vstd::arithmetic::div_mod::lemma_mod_bound(v * 10000, total);
        let sp = sum_pct(prefix, total);
        let n = prefix.len() as int;
        assert(sum_pct(votes, total) == sp + q);
        assert(sum_of(votes) == sum_of(prefix) + v);
        assert(total * (sp + q) == total * sp + total * q) by (nonlinear_arith);
        assert(total * q == v * 10000 - rem);
        assert((n + 1) * (total - 1) == n * (total - 1) + (total - 1)) by (nonlinear_arith);
        assert(total * sp <= 10000 * sum_of(prefix));
        assert(total * sp >= 10000 * sum_of(prefix) - n * (total - 1));
        assert(0 <= rem <= total - 1);
    }
}

/// Accounting for every ballot: whenever the total is positive, the rounded
/// percentage shares of the counters sum to one hundred percent, up to the
/// strictly-less-than-one-hundredth rounding loss of each option — and never
/// above it.
pub proof fn lemma_percentages_account_for_all(votes: Seq<int>)
    requires
        all_nonneg(votes),
        sum_of(votes) > 0,
    ensures
        sum_pct(votes, sum_of(votes)) <= 10000,
        sum_pct(votes, sum_of(votes)) > 10000 - votes.len(),
{
    let t = sum_of(votes);
    assert(votes.len() > 0);
    lemma_sum_pct_bounds(votes, t);
    let sp = sum_pct(votes, t);
    let n = votes.len() as int;
    assert(sp <= 10000) by (nonlinear_arith)
        requires
            t > 0,
            t * sp <= 10000 * t,
    ;
    assert(sp > 10000 - n) by (nonlinear_arith)
        requires
            t > 0,
            n >= 1,
            t * sp >= 10000 * t - n * (t - 1),
    ;
}

/// The sum of the percentage fields of a statistics row sequence.
pub open spec fn percent_sum(stats: Seq<PollOptionStats>) -> int
    decreases stats.len(),
{
    if stats.len() == 0 {
        0
    } else {
        percent_sum(stats.drop_last()) + stats.last().percent_hundredths
    }
}

/// The percentage fields of a computed statistics row sequence sum to
/// `sum_pct` of the counters they were computed from: the bridge from
/// `compute_stats`'s per-row contract to the accounting law.
pub proof fn lemma_stats_percent_sum(stats: Seq<PollOptionStats>, votes: Seq<int>, total: int)
    requires
        stats.len() == votes.len(),
        forall|i: int|
            0 <= i < stats.len() ==> stats[i].percent_hundredths as int == pct_hundredths(
                votes[i],
                total,
            ),
    ensures
        percent_sum(stats) == sum_pct(votes, total),
    decreases stats.len(),
{
    if stats.len() > 0 {
        assert(stats.drop_last().len() == votes.drop_last().len());
        lemma_stats_percent_sum(stats.drop_last(), votes.drop_last(), total);
    }
}

/// Whether two option lists carry the same texts in the same order.
pub open spec fn options_eq(a: Seq<String>, b: Seq<String>) -> bool {
    a.len() == b.len() && forall|i: int| 0 <= i < a.len() ==> a[i]@ == b[i]@
}

fn options_equal(a: &Vec<String>, b: &Vec<String>) -> (r: bool)
    ensures
        r == options_eq(a@, b@),
{
    let n: usize = a.len();
    if n != b.len() {
        return false;
    }
    let mut i: usize = 0;
    while i < n
        invariant
            n == a@.len(),
            n == b@.len(),
            i <= n,
            forall|j: int| 0 <= j < i ==> a@[j]@ == b@[j]@,
        decreases n - i,
    {
        if !(a[i] == b[i]) {
            return false;
        }
        i += 1;
    }
    true
}

/// Resolve a poll update: when the options are unchanged the existing
/// counters are kept; when they change, the new list must again hold at
/// least two options and every counter is reset to zero.
pub fn resolve_update(
    current_options: &Vec<String>,
    current_votes: Vec<i32>,
    new_options: &Vec<String>,
) -> (r: Result<Vec<i32>, ApiError>)
    requires
        current_votes@.len() == current_options@.len(),
        forall|i: int| 0 <= i < current_votes@.len() ==> current_votes@[i] >= 0,
    ensures
        options_eq(current_options@, new_options@) ==> r == Ok::<Vec<i32>, ApiError>(
            current_votes,
        ),
        !options_eq(current_options@, new_options@) && new_options@.len() < 2 ==> r == Err::<
            Vec<i32>,
            ApiError,
        >(ApiError::InvalidArgument),
        !options_eq(current_options@, new_options@) && new_options@.len() >= 2 ==> match r {
            Ok(v) => v@.len() == new_options@.len() && forall|i: int| 0 <= i < v@.len() ==> v@[i]
                == 0,
            Err(_) => false,
        },
        r matches Ok(v) ==> v@.len() == new_options@.len() && forall|i: int|
            0 <= i < v@.len() ==> v@[i] >= 0,
{
    if options_equal(current_options, new_options) {
        Ok(current_votes)
    } else if new_options.len() < 2 {
        Err(ApiError::InvalidArgument)
    } else {
        Ok(zero_votes(new_options.len()))
    }
}

} // verus!
