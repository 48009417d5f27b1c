//! The assignment solver: who gives to whom.
//!
//! Participants are numbered `0..n` in roster order. A candidate assignment is
//! a vector `p` of length `n` in which `p[i]` is the index of the giftee of
//! participant `i`. The restriction table has one row per participant; entry
//! `k` of row `i` is the index of the giftee that participant `i` had `k`
//! events ago, or any value `>= n` where there was none.

use crate::random::{random_ratio, shuffle_indices};
use vstd::prelude::*;

verus! {

/// Number of prior events consulted when avoiding repeat pairings.
pub const PREV_RELEVANT_EVENTS: usize = 3;

/// How strongly a repeat of one prior event's pairing is avoided: the
/// probability `numerator / denominator` with which a candidate that repeats
/// such a pairing is let through.
#[derive(Clone, Copy, Debug)]
pub struct Weight {
    numerator: u32,
    denominator: u32,
}

impl Weight {
    #[verifier::type_invariant]
    spec fn in_unit_interval(self) -> bool {
        0 < self.denominator && self.numerator <= self.denominator
    }

    /// The numerator of the probability.
    pub closed spec fn spec_numerator(self) -> nat {
        self.numerator as nat
    }

    /// The denominator of the probability.
    pub closed spec fn spec_denominator(self) -> nat {
        self.denominator as nat
    }

    /// A weight of zero: a repeat at this recency is never accepted.
    pub open spec fn forbids(self) -> bool {
        self.spec_numerator() == 0
    }

    /// A weight of one: a repeat at this recency is always accepted.
    pub open spec fn always_allows(self) -> bool {
        self.spec_numerator() == self.spec_denominator()
    }

    /// The weight `numerator / denominator`, if that is a probability.
    pub fn new(numerator: u32, denominator: u32) -> (w: Option<Weight>)
        ensures
            w is Some <==> 0 < denominator && numerator <= denominator,
            w is Some ==> w->0.spec_numerator() == numerator && w->0.spec_denominator()
                == denominator,
    {
        if 0 < denominator && numerator <= denominator {
            Some(Weight { numerator, denominator })
        } else {
            None
        }
    }

    /// The weight zero.
    pub fn never() -> (w: Weight)
        ensures
            w.spec_numerator() == 0,
            w.spec_denominator() == 1,
    {
        Weight { numerator: 0, denominator: 1 }
    }

    /// The weight one half.
    pub fn half() -> (w: Weight)
        ensures
            w.spec_numerator() == 1,
            w.spec_denominator() == 2,
    {
        Weight { numerator: 1, denominator: 2 }
    }

    /// The weight one.
    pub fn always() -> (w: Weight)
        ensures
            w.spec_numerator() == 1,
            w.spec_denominator() == 1,
    {
        Weight { numerator: 1, denominator: 1 }
    }

    /// The numerator of the probability.
    pub fn numerator(&self) -> (r: u32)
        ensures
            r == self.spec_numerator(),
    {
        self.numerator
    }

    /// The denominator of the probability, which is not zero and not less
    /// than the numerator.
    pub fn denominator(&self) -> (r: u32)
        ensures
            r == self.spec_denominator(),
            r > 0,
            self.spec_numerator() <= r,
    {
        proof {
            use_type_invariant(self);
        }
        self.denominator
    }
}

/// No participant is their own giftee.
pub open spec fn no_fixed_point(p: Seq<usize>) -> bool {
    forall|i: int| 0 <= i < p.len() ==> p[i] != i
}

/// Participant `i` would give to the same person as `k` events ago.
pub open spec fn repeats(p: Seq<usize>, restrictions: Seq<[usize; 3]>, i: int, k: int) -> bool {
    p[i] == restrictions[i][k]
}

/// No pairing is repeated from an event whose weight is zero.
pub open spec fn respects_hard_restrictions(
    p: Seq<usize>,
    restrictions: Seq<[usize; 3]>,
    weights: [Weight; 3],
) -> bool {
    forall|i: int, k: int|
        0 <= i < p.len() && 0 <= k < 3 && weights[k].forbids() ==> !#[trigger] repeats(
            p,
            restrictions,
            i,
            k,
        )
}

/// Every pairing that is repeated comes from an event whose weight is one.
pub open spec fn repeats_only_where_always_allowed(
    p: Seq<usize>,
    restrictions: Seq<[usize; 3]>,
    weights: [Weight; 3],
) -> bool {
    forall|i: int, k: int|
        0 <= i < p.len() && 0 <= k < 3 && #[trigger] repeats(p, restrictions, i, k)
            ==> weights[k].always_allows()
}

/// Whether a candidate is accepted, given how the trials came out: `hits`
/// holds, for participant `i` and recency `k`, whether the repeat of that
/// pairing was let through. A candidate is accepted if nobody is their own
/// giftee and every pairing that it repeats has a weight above zero and
/// either the weight one or a trial that let it through.
pub open spec fn accepted_given(
    p: Seq<usize>,
    restrictions: Seq<[usize; 3]>,
    weights: [Weight; 3],
    hits: Seq<[bool; 3]>,
) -> bool {
    no_fixed_point(p) && forall|i: int, k: int|
        0 <= i < p.len() && 0 <= k < 3 && #[trigger] repeats(p, restrictions, i, k)
            ==> !weights[k].forbids() && (weights[k].always_allows() || hits[i][k])
}

/// Decides whether a candidate assignment is accepted, given how the trials
/// for its repeats came out.
pub fn check_assignment_with(
    permutation: &Vec<usize>,
    restrictions: &Vec<[usize; 3]>,
    weights: &[Weight; 3],
    hits: &Vec<[bool; 3]>,
) -> (accepted: bool)
    requires
        permutation.len() <= restrictions.len(),
        permutation.len() <= hits.len(),
    ensures
        accepted == accepted_given(permutation@, restrictions@, *weights, hits@),
{
    let n = permutation.len();
    let mut elem: usize = 0;
    while elem < n
        invariant
            elem <= n,
            n == permutation.len(),
            n <= restrictions.len(),
            n <= hits.len(),
            forall|i: int| 0 <= i < elem ==> permutation@[i] != i,
            forall|i: int, k: int|
                0 <= i < elem && 0 <= k < 3 && #[trigger] repeats(permutation@, restrictions@, i, k)
                    ==> !weights[k].forbids() && (weights[k].always_allows() || hits@[i][k]),
        decreases n - elem,
    {
        if permutation[elem] == elem {
            return false;
        }
        let mut prev_event: usize = 0;
        while prev_event < PREV_RELEVANT_EVENTS
            invariant
                prev_event <= 3,
                elem < n,
                n == permutation.len(),
                n <= restrictions.len(),
                n <= hits.len(),
                forall|k: int|
                    0 <= k < prev_event && #[trigger] repeats(
                        permutation@,
                        restrictions@,
                        elem as int,
                        k,
                    ) ==> !weights[k].forbids() && (weights[k].always_allows()
                        || hits@[elem as int][k]),
            decreases 3 - prev_event,
        {
            if permutation[elem] == restrictions[elem][prev_event] {
                assert(repeats(permutation@, restrictions@, elem as int, prev_event as int));
                let numerator = weights[prev_event].numerator();
                let denominator = weights[prev_event].denominator();
                if numerator == 0 {
                    return false;
                }
                if numerator != denominator && !hits[elem][prev_event] {
                    return false;
                }
            }
            prev_event += 1;
        }
        elem += 1;
    }
    true
}

/// Holds the trials for the repeats of a candidate: for each pairing that it
/// repeats from an event whose weight is above zero, one trial that lets the
/// repeat through with the probability that the weight gives.
fn draw_trials(
    permutation: &Vec<usize>,
    restrictions: &Vec<[usize; 3]>,
    weights: &[Weight; 3],
) -> (hits: Vec<[bool; 3]>)
    requires
        permutation.len() <= restrictions.len(),
    ensures
        hits.len() == permutation.len(),
{
    let n = permutation.len();
    let mut hits: Vec<[bool; 3]> = Vec::new();
    let mut elem: usize = 0;
    while elem < n
        invariant
            elem <= n,
            n == permutation.len(),
            n <= restrictions.len(),
            hits.len() == elem,
        decreases n - elem,
    {
        let mut row: [bool; 3] = [false; 3];
        let mut prev_event: usize = 0;
        while prev_event < PREV_RELEVANT_EVENTS
            invariant
                prev_event <= 3,
                elem < n,
                n == permutation.len(),
                n <= restrictions.len(),
            decreases 3 - prev_event,
        {
            if permutation[elem] == restrictions[elem][prev_event] {
                let numerator = weights[prev_event].numerator();
                let denominator = weights[prev_event].denominator();
                if numerator != 0 {
                    row[prev_event] = random_ratio(numerator, denominator);
                }
            }
            prev_event += 1;
        }
        hits.push(row);
        elem += 1;
    }
    hits
}

/// Decides whether a candidate assignment is accepted.
///
/// A candidate with a fixed point is rejected, and so is one that repeats a
/// pairing from an event of weight zero. A repeat from an event of weight
/// `w > 0` is let through with probability `w`, by an independent trial for
/// each such repeat; the candidate is accepted if every one of them is let
/// through. So the result is what `check_assignment_with` gives for the
/// trials that were held: acceptance implies the hard rules, a candidate
/// that meets the hard rules and repeats nothing but pairings of weight one
/// is always accepted, and between the two chance decides.
pub fn check_assignment_validation(
    permutation: &Vec<usize>,
    restrictions: &Vec<[usize; 3]>,
    weights: &[Weight; 3],
) -> (accepted: bool)
    requires
        permutation.len() <= restrictions.len(),
    ensures
        exists|hits: Seq<[bool; 3]>|
            hits.len() == permutation@.len() && accepted == #[trigger] accepted_given(
                permutation@,
                restrictions@,
                *weights,
                hits,
            ),
        accepted ==> no_fixed_point(permutation@) && respects_hard_restrictions(
            permutation@,
            restrictions@,
            *weights,
        ),
        no_fixed_point(permutation@) && repeats_only_where_always_allowed(
            permutation@,
            restrictions@,
            *weights,
        ) ==> accepted,
{
    let hits = draw_trials(permutation, restrictions, weights);
    let accepted = check_assignment_with(permutation, restrictions, weights, &hits);
    assert(accepted == accepted_given(permutation@, restrictions@, *weights, hits@));
    let first = weights[0];
    let second = weights[1];
    let third = weights[2];
    proof {
        use_type_invariant(&first);
        use_type_invariant(&second);
        use_type_invariant(&third);
        if accepted {
            assert forall|i: int, k: int|
                0 <= i < permutation@.len() && 0 <= k < 3
                    && weights[k].forbids() implies !#[trigger] repeats(
                permutation@,
                restrictions@,
                i,
                k,
            ) by {}
        }
    }
    accepted
}

/// The first `a.len()` participants have giftees that break no rule among
/// themselves: each giftee is a participant, nobody gives to themselves, no
/// two give to the same person, and no pairing of weight zero is repeated.
pub open spec fn partial_assignment(
    a: Seq<usize>,
    n: nat,
    restrictions: Seq<[usize; 3]>,
    weights: [Weight; 3],
) -> bool {
    &&& a.len() <= n
    &&& forall|i: int| 0 <= i < a.len() ==> a[i] < n
    &&& a.no_duplicates()
    &&& no_fixed_point(a)
    &&& respects_hard_restrictions(a, restrictions, weights)
}

/// A complete assignment for `n` participants: a derangement of `0..n` that
/// repeats no pairing of weight zero.
pub open spec fn valid_assignment(
    p: Seq<usize>,
    n: nat,
    restrictions: Seq<[usize; 3]>,
    weights: [Weight; 3],
) -> bool {
    p.len() == n && partial_assignment(p, n, restrictions, weights)
}

/// Some complete assignment exists.
pub open spec fn assignment_exists(
    n: nat,
    restrictions: Seq<[usize; 3]>,
    weights: [Weight; 3],
) -> bool {
    exists|p: Seq<usize>| valid_assignment(p, n, restrictions, weights)
}

/// `p` agrees with `prefix` on the participants that `prefix` covers.
pub open spec fn extends(p: Seq<usize>, prefix: Seq<usize>) -> bool {
    prefix.len() <= p.len() && forall|i: int| 0 <= i < prefix.len() ==> p[i] == prefix[i]
}

/// `giftee` is ruled out for a participant with restriction row `row`.
pub open spec fn hard_repeat(row: [usize; 3], giftee: usize, weights: [Weight; 3]) -> bool {
    exists|k: int| 0 <= k < 3 && weights[k].forbids() && row[k] == giftee
}

fn is_hard_repeat(row: &[usize; 3], giftee: usize, weights: &[Weight; 3]) -> (r: bool)
    ensures
        r == hard_repeat(*row, giftee, *weights),
{
    let mut k: usize = 0;
    while k < PREV_RELEVANT_EVENTS
        invariant
            k <= 3,
            forall|j: int| 0 <= j < k ==> !(weights[j].forbids() && row[j] == giftee),
        decreases 3 - k,
    {
        if weights[k].numerator() == 0 && row[k] == giftee {
            return true;
        }
        k += 1;
    }
    false
}

/// Depth-first search for a completion of the partial assignment in
/// `assigned`. On success `assigned` holds a complete assignment; on failure
/// both vectors are as they were, and no complete assignment extends the
/// partial one.
fn extend_assignment(
    n: usize,
    restrictions: &Vec<[usize; 3]>,
    weights: &[Weight; 3],
    assigned: &mut Vec<usize>,
    used: &mut Vec<bool>,
) -> (found: bool)
    requires
        n <= restrictions.len(),
        old(used).len() == n,
        partial_assignment(old(assigned)@, n as nat, restrictions@, *weights),
        forall|j: int| 0 <= j < n ==> old(used)@[j] == old(assigned)@.contains(j as usize),
    ensures
        found ==> valid_assignment(final(assigned)@, n as nat, restrictions@, *weights),
        !found ==> final(assigned)@ == old(assigned)@ && final(used)@ == old(used)@,
        !found ==> forall|p: Seq<usize>|
            valid_assignment(p, n as nat, restrictions@, *weights) ==> !#[trigger] extends(
                p,
                old(assigned)@,
            ),
    decreases n - old(assigned).len(),
{
    let pos: usize = assigned.len();
    if pos == n {
        return true;
    }
    let ghost a0 = assigned@;
    let ghost u0 = used@;
    let mut candidate: usize = 0;
    while candidate < n
        invariant
            candidate <= n,
            pos < n,
            pos == a0.len(),
            n <= restrictions.len(),
            assigned@ == a0,
            used@ == u0,
            old(assigned)@ == a0,
            old(used)@ == u0,
            u0.len() == n,
            partial_assignment(a0, n as nat, restrictions@, *weights),
            forall|j: int| 0 <= j < n ==> u0[j] == a0.contains(j as usize),
            forall|p: Seq<usize>|
                valid_assignment(p, n as nat, restrictions@, *weights) && #[trigger] extends(p, a0)
                    ==> p[pos as int] >= candidate,
        decreases n - candidate,
    {
        let usable = !used[candidate] && candidate != pos && !is_hard_repeat(
            &restrictions[pos],
            candidate,
            weights,
        );
        if usable {
            assigned.push(candidate);
            used.set(candidate, true);
            proof {
                let a1 = a0.push(candidate);
                assert(assigned@ == a1);
                assert forall|i: int, j: int| 0 <= i < a1.len() && 0 <= j < a1.len() && i != j implies a1[i] != a1[j] by {
                    if i < pos && j == pos {
                        assert(a0.contains(a0[i]));
                    }
                    if j < pos && i == pos {
                        assert(a0.contains(a0[j]));
                    }
                }
                assert forall|i: int, k: int|
                    0 <= i < a1.len() && 0 <= k < 3 && weights[k].forbids() implies !#[trigger] repeats(
                    a1,
                    restrictions@,
                    i,
                    k,
                ) by {
                    if i < pos {
                        assert(!repeats(a0, restrictions@, i, k));
                    }
                }
                assert forall|j: int| 0 <= j < n implies used@[j] == a1.contains(j as usize) by {
                    if j == candidate {
                        assert(a1[pos as int] == candidate);
                    } else if a0.contains(j as usize) {
                        let i = choose|i: int| 0 <= i < a0.len() && a0[i] == j as usize;
                        assert(a1[i] == j as usize);
                    } else if a1.contains(j as usize) {
                        let i = choose|i: int| 0 <= i < a1.len() && a1[i] == j as usize;
                        assert(i < pos);
                        assert(a0[i] == j as usize);
                    }
                }
            }
            if extend_assignment(n, restrictions, weights, assigned, used) {
                return true;
            }
            assigned.pop();
            used.set(candidate, false);
            proof {
                assert(assigned@ =~= a0);
                assert(used@ =~= u0);
                assert forall|p: Seq<usize>|
                    valid_assignment(p, n as nat, restrictions@, *weights) && #[trigger] extends(
                        p,
                        a0,
                    ) implies p[pos as int] >= candidate + 1 by {
                    if p[pos as int] == candidate {
                        assert(extends(p, a0.push(candidate)));
                    }
                }
            }
        } else {
            proof {
                assert forall|p: Seq<usize>|
                    valid_assignment(p, n as nat, restrictions@, *weights) && #[trigger] extends(
                        p,
                        a0,
                    ) implies p[pos as int] >= candidate + 1 by {
                    if p[pos as int] == candidate {
                        if u0[candidate as int] {
                            let i = choose|i: int| 0 <= i < a0.len() && a0[i] == candidate;
                            assert(p[i] == p[pos as int]);
                        } else if candidate != pos {
                            let k = choose|k: int|
                                0 <= k < 3 && weights[k].forbids() && restrictions@[pos as int][k]
                                    == candidate;
                            assert(repeats(p, restrictions@, pos as int, k));
                        }
                    }
                }
            }
        }
        candidate += 1;
    }
    false
}

/// Finds a complete assignment by exhaustive search, if there is one.
pub fn find_assignment(
    num_participants: usize,
    restrictions: &Vec<[usize; 3]>,
    weights: &[Weight; 3],
) -> (found: Option<Vec<usize>>)
    requires
        num_participants <= restrictions.len(),
    ensures
        found is Some <==> assignment_exists(num_participants as nat, restrictions@, *weights),
        found is Some ==> valid_assignment(
            found->0@,
            num_participants as nat,
            restrictions@,
            *weights,
        ),
{
    let mut assigned: Vec<usize> = Vec::new();
    let mut used: Vec<bool> = Vec::new();
    let mut j: usize = 0;
    while j < num_participants
        invariant
            j <= num_participants,
            used.len() == j,
            forall|i: int| 0 <= i < j ==> !used@[i],
        decreases num_participants - j,
    {
        used.push(false);
        j += 1;
    }
    if extend_assignment(num_participants, restrictions, weights, &mut assigned, &mut used) {
        Some(assigned)
    } else {
        proof {
            assert forall|p: Seq<usize>|
                !valid_assignment(p, num_participants as nat, restrictions@, *weights) by {
                assert(extends(p, Seq::<usize>::empty()));
            }
        }
        None
    }
}


/// What the solver is run with: one weight for each of the prior events it
/// looks back on, most recent first, and the number of random candidates it
/// tries before it falls back on exhaustive search.
#[derive(Clone, Copy, Debug)]
pub struct SolverConfig {
    pub weights: [Weight; 3],
    pub max_attempts: u32,
}

impl SolverConfig {
    /// Repeats of the last two events are forbidden, a repeat of the one
    /// before is let through half of the time; up to 10000 random candidates.
    pub fn standard() -> (config: SolverConfig)
        ensures
            config.weights[0].forbids(),
            config.weights[1].forbids(),
            config.weights[2].spec_numerator() == 1,
            config.weights[2].spec_denominator() == 2,
            config.max_attempts == 10000,
    {
        SolverConfig { weights: [Weight::never(), Weight::never(), Weight::half()], max_attempts: 10000 }
    }
}

/// The participants in roster order: `0, 1, .., n - 1`.
pub open spec fn identity(n: nat) -> Seq<usize> {
    Seq::new(n, |i: int| i as usize)
}

/// A rearrangement of `0..n` has length `n`, values below `n`, and no value
/// twice.
pub proof fn lemma_rearranged_identity(s: Seq<usize>, n: nat)
    requires
        n <= usize::MAX,
        s.to_multiset() == identity(n).to_multiset(),
    ensures
        s.len() == n,
        forall|i: int| 0 <= i < s.len() ==> s[i] < n,
        s.no_duplicates(),
{
    let id = identity(n);
    s.to_multiset_ensures();
    id.to_multiset_ensures();
    assert(id.no_duplicates());
    id.lemma_multiset_has_no_duplicates();
    s.lemma_multiset_has_no_duplicates_conv();
    assert forall|i: int| 0 <= i < s.len() implies s[i] < n by {
        assert(s.contains(s[i]));
        assert(id.to_multiset().count(s[i]) > 0);
        assert(id.contains(s[i]));
        let j = choose|j: int| 0 <= j < id.len() && id[j] == s[i];
        assert(id[j] == j as usize);
    }
}

fn identity_assignment(n: usize) -> (v: Vec<usize>)
    ensures
        v@ == identity(n as nat),
{
    let mut v: Vec<usize> = Vec::new();
    let mut i: usize = 0;
    while i < n
        invariant
            i <= n,
            v@ == identity(i as nat),
        decreases n - i,
    {
        v.push(i);
        i += 1;
        assert(v@ =~= identity(i as nat));
    }
    v
}

/// Computes an assignment for `num_participants` participants.
///
/// With fewer than two participants there is nothing to assign, and the
/// result is `None`. Otherwise it is settled first, by exhaustive search,
/// whether an assignment exists. If none does, the result is `None`. If one
/// does, random rearrangements of the roster are drawn, at most
/// `config.max_attempts` of them, and the first one that
/// `check_assignment_validation` accepts is returned; if none is accepted,
/// the assignment that the search found is returned.
pub fn solve_assignments(
    num_participants: usize,
    giftee_history: &Vec<[usize; 3]>,
    config: &SolverConfig,
) -> (solution: Option<Vec<usize>>)
    requires
        num_participants <= giftee_history.len(),
    ensures
        solution is Some <==> num_participants >= 2 && assignment_exists(
            num_participants as nat,
            giftee_history@,
            config.weights,
        ),
        solution is Some ==> valid_assignment(
            solution->0@,
            num_participants as nat,
            giftee_history@,
            config.weights,
        ),
{
    if num_participants < 2 {
        return None;
    }
    let fallback = match find_assignment(num_participants, giftee_history, &config.weights) {
        Some(found) => found,
        None => {
            return None;
        },
    };
    let mut candidate = identity_assignment(num_participants);
    let mut attempts: u32 = 0;
    while attempts < config.max_attempts
        invariant
            num_participants <= giftee_history.len(),
            num_participants >= 2,
            candidate@.to_multiset() == identity(num_participants as nat).to_multiset(),
            assignment_exists(num_participants as nat, giftee_history@, config.weights),
        decreases config.max_attempts - attempts,
    {
        shuffle_indices(&mut candidate);
        proof {
            lemma_rearranged_identity(candidate@, num_participants as nat);
        }
        if check_assignment_validation(&candidate, giftee_history, &config.weights) {
            return Some(candidate);
        }
        attempts += 1;
    }
    Some(fallback)
}

} // verus!
