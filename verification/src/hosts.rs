//! Per-client connect and failover order of the declared streaming hosts.
//!
//! Under [`HostSelectionPolicy::FixedOrder`] the declared order is kept.
//! Under [`HostSelectionPolicy::Shuffled`] the hosts are grouped by
//! hostname (one hostname is one fault domain), the group order and the
//! ports inside each group are shuffled with a seeded generator, and the
//! groups are interleaved round-robin, one port per group per round. So the
//! first round visits every fault domain once before any domain repeats.
//! The seed fixes the order: the shuffles are named by the generator's seed
//! and the sizes of what it shuffled before ([`shuffled_indices`]).
//! On a reconnect the last host known to work may be pinned to the front;
//! the policy then orders the remaining hosts, in the order the host list
//! without the pinned one gets.

use vstd::multiset::Multiset;
use vstd::prelude::*;

use rand::seq::SliceRandom;
use rand::SeedableRng;

use crate::builder::HostSelectionPolicy;

verus! {

#[verifier::external_type_specification]
#[verifier::external_body]
pub struct ExStdRng(rand::rngs::StdRng);

/// `rand::SeedableRng::seed_from_u64` for `rand::rngs::StdRng`: a generator
/// whose stream is fixed by `seed`. Nothing about its state is stated.
#[verifier::external_body]
fn seeded_rng(seed: u64) -> rand::rngs::StdRng {
    rand::rngs::StdRng::seed_from_u64(seed)
}

/// The order in which `rand::seq::SliceRandom::shuffle` leaves `len`
/// elements, drawn from a `rand::rngs::StdRng` seeded by `seed` that has
/// already shuffled slices of the lengths in `drawn`, one after another:
/// entry `i` is the index, before the shuffle, of the element that ends up
/// at `i`. In the `rand` release this crate builds with, the generator's
/// stream is a function of the seed (expanded by PCG32 into a ChaCha12
/// key), and a shuffle swaps by indices drawn from that stream according to
/// the slice's length only, never its contents.
pub uninterp spec fn shuffled_indices(seed: u64, drawn: Seq<usize>, len: usize) -> Seq<usize>;

/// `p` lists each index `0..len` exactly once.
pub open spec fn is_permutation(p: Seq<usize>, len: nat) -> bool {
    &&& p.len() == len
    &&& forall|i: int| 0 <= i < len ==> #[trigger] p[i] < len
    &&& forall|i: int, j: int| 0 <= i < j < len ==> #[trigger] p[i] != #[trigger] p[j]
}

/// `p` when it is a permutation of `0..len`, and the identity otherwise.
pub open spec fn as_permutation(p: Seq<usize>, len: nat) -> Seq<usize> {
    if is_permutation(p, len) {
        p
    } else {
        Seq::new(len, |i: int| i as usize)
    }
}

/// The entries of `s` in the order `p` gives: entry `i` is `s[p[i]]`.
pub open spec fn permute<A>(s: Seq<A>, p: Seq<usize>) -> Seq<A> {
    Seq::new(p.len(), |i: int| s[p[i] as int])
}

/// A generator seeded once, with a record of what it has done since: the
/// seed, and the length of every slice it has shuffled, in order.
struct SeededRng {
    rng: rand::rngs::StdRng,
    seed: Ghost<u64>,
    drawn: Ghost<Seq<usize>>,
}

impl View for SeededRng {
    type V = (u64, Seq<usize>);

    closed spec fn view(&self) -> (u64, Seq<usize>) {
        (self.seed@, self.drawn@)
    }
}

/// `rand::seq::SliceRandom::shuffle` on a vector, with the generator of
/// `rng`. The source swaps elements only, in an order that depends on the
/// generator's state and the length alone; so the same elements stay, and
/// the order is [`shuffled_indices`] of the record in `rng`, which is a
/// permutation. That record is kept by [`SeededRng::shuffle`], the one
/// caller, which brings it up to date after each call.
#[verifier::external_body]
fn shuffle_in_place<T>(v: &mut Vec<T>, rng: &mut SeededRng)
    ensures
        is_permutation(shuffled_indices(old(rng)@.0, old(rng)@.1, old(v)@.len() as usize), old(v)@.len()),
        final(v)@ == permute(old(v)@, shuffled_indices(old(rng)@.0, old(rng)@.1, old(v)@.len() as usize)),
        final(v)@.to_multiset() == old(v)@.to_multiset(),
{
    v.shuffle(&mut rng.rng);
}

/// [`as_permutation`] always gives a permutation.
proof fn lemma_as_permutation(p: Seq<usize>, len: nat)
    requires
        len <= usize::MAX,
    ensures
        is_permutation(as_permutation(p, len), len),
{
}

impl SeededRng {
    /// A generator seeded by `seed` that has shuffled nothing yet.
    fn new(seed: u64) -> (r: SeededRng)
        ensures
            r@ == (seed, Seq::<usize>::empty()),
    {
        SeededRng { rng: seeded_rng(seed), seed: Ghost(seed), drawn: Ghost(Seq::empty()) }
    }

    /// Shuffles `v` and records its length.
    fn shuffle<T>(&mut self, v: &mut Vec<T>)
        ensures
            final(self)@ == (old(self)@.0, old(self)@.1.push(old(v)@.len() as usize)),
            final(v)@ == permute(
                old(v)@,
                as_permutation(
                    shuffled_indices(old(self)@.0, old(self)@.1, old(v)@.len() as usize),
                    old(v)@.len(),
                ),
            ),
            final(v)@.to_multiset() == old(v)@.to_multiset(),
    {
        let ghost record = self@;
        let ghost len = v@.len();
        shuffle_in_place(v, self);
        self.seed = Ghost(record.0);
        self.drawn = Ghost(record.1.push(len as usize));
    }
}

/// The fault domain of a host: its hostname.
pub open spec fn domain(host: (String, u16)) -> Seq<char> {
    host.0@
}

/// The preferred index, kept only when it names a declared host.
pub open spec fn pinned_index(n: nat, preferred: Option<usize>) -> Option<usize> {
    match preferred {
        Some(p) => if p < n { Some(p) } else { None },
        None => None,
    }
}

/// The indices `0..k` in order, without the pinned one.
pub open spec fn indices_except(k: nat, pinned: Option<usize>) -> Seq<usize>
    decreases k,
{
    if k == 0 {
        Seq::empty()
    } else {
        let rest = indices_except((k - 1) as nat, pinned);
        if pinned is Some && pinned->0 == k - 1 {
            rest
        } else {
            rest.push((k - 1) as usize)
        }
    }
}

/// The hosts at the given indices, in that order.
pub open spec fn pick(hosts: Seq<(String, u16)>, order: Seq<usize>) -> Seq<(String, u16)> {
    Seq::new(order.len(), |m: int| hosts[order[m] as int])
}

/// The part of an ordering after the pinned host, if one is pinned.
pub open spec fn tail_of(ordered: Seq<(String, u16)>, pinned: Option<usize>) -> Seq<(String, u16)> {
    if pinned is Some {
        ordered.skip(1)
    } else {
        ordered
    }
}

/// `tail` holds the hosts at the indices `0..n` other than the pinned one,
/// each exactly once, in some order.
pub open spec fn is_rearranged_tail(
    tail: Seq<(String, u16)>,
    hosts: Seq<(String, u16)>,
    pinned: Option<usize>,
) -> bool {
    exists|order: Seq<usize>|
        #![trigger pick(hosts, order)]
        pick(hosts, order) == tail && order.to_multiset() == indices_except(
            hosts.len(),
            pinned,
        ).to_multiset()
}

/// Some entry among the first `d` of `tail` shares the domain of entry `q`.
pub open spec fn domain_in_prefix(tail: Seq<(String, u16)>, d: int, q: int) -> bool {
    exists|m: int| 0 <= m < d && #[trigger] domain(tail[m]) == domain(tail[q])
}

/// The first `d` entries of `tail` have pairwise different domains, and
/// every entry's domain is among them.
pub open spec fn prefix_spans_domains(tail: Seq<(String, u16)>, d: int) -> bool {
    &&& 0 <= d <= tail.len()
    &&& forall|i: int, j: int|
        0 <= i < j < d ==> #[trigger] domain(tail[i]) != #[trigger] domain(tail[j])
    &&& forall|q: int| 0 <= q < tail.len() ==> #[trigger] domain_in_prefix(tail, d, q)
}

/// The first round of `tail` visits every fault domain once: no domain
/// repeats before every domain was tried.
pub open spec fn first_round_spans_domains(tail: Seq<(String, u16)>) -> bool {
    exists|d: int| #[trigger] prefix_spans_domains(tail, d)
}

// ---------------------------------------------------------------------------
// Host groups: one vector of host indices per hostname.
// ---------------------------------------------------------------------------

/// Every host index held by the groups, counted with multiplicity.
pub open spec fn members(groups: Seq<Seq<usize>>) -> Multiset<usize>
    decreases groups.len(),
{
    if groups.len() == 0 {
        Multiset::empty()
    } else {
        members(groups.drop_last()).add(groups.last().to_multiset())
    }
}

/// The domain of the host at member `a` of group `k`.
pub open spec fn member_domain(
    groups: Seq<Seq<usize>>,
    hosts: Seq<(String, u16)>,
    k: int,
    a: int,
) -> Seq<char> {
    domain(hosts[groups[k][a] as int])
}

/// Groups are non-empty, hold valid host indices, each group holds one
/// domain, and two groups never hold the same domain.
pub open spec fn groups_wf(groups: Seq<Seq<usize>>, hosts: Seq<(String, u16)>) -> bool {
    &&& forall|k: int| 0 <= k < groups.len() ==> #[trigger] groups[k].len() > 0
    &&& forall|k: int, a: int|
        0 <= k < groups.len() && 0 <= a < groups[k].len() ==> #[trigger] groups[k][a]
            < hosts.len()
    &&& forall|k: int, a: int|
        0 <= k < groups.len() && 0 <= a < groups[k].len() ==> #[trigger] member_domain(
            groups,
            hosts,
            k,
            a,
        ) == member_domain(groups, hosts, k, 0)
    &&& forall|k1: int, k2: int|
        0 <= k1 < groups.len() && 0 <= k2 < groups.len() && #[trigger] member_domain(
            groups,
            hosts,
            k1,
            0,
        ) == #[trigger] member_domain(groups, hosts, k2, 0) ==> k1 == k2
}

/// The index groups held by a vector of vectors.
pub open spec fn views(groups: Seq<Vec<usize>>) -> Seq<Seq<usize>> {
    Seq::new(groups.len(), |k: int| groups[k]@)
}

/// The first group whose leading host shares the domain of host `x`.
pub open spec fn group_of(groups: Seq<Seq<usize>>, hosts: Seq<(String, u16)>, x: int) -> Option<int>
    decreases groups.len(),
{
    if groups.len() == 0 {
        None
    } else {
        match group_of(groups.drop_last(), hosts, x) {
            Some(j) => Some(j),
            None => if domain(hosts[groups.last()[0] as int]) == domain(hosts[x]) {
                Some(groups.len() - 1)
            } else {
                None
            },
        }
    }
}

/// The hosts `0..k` other than the pinned one, grouped by domain: each host
/// joins the group of its domain, or starts a new group after the others.
pub open spec fn grouped(hosts: Seq<(String, u16)>, pinned: Option<usize>, k: nat) -> Seq<
    Seq<usize>,
>
    decreases k,
{
    if k == 0 {
        Seq::empty()
    } else {
        let groups = grouped(hosts, pinned, (k - 1) as nat);
        let x = (k - 1) as usize;
        if pinned == Some(x) {
            groups
        } else {
            match group_of(groups, hosts, x as int) {
                Some(j) => groups.update(j, groups[j].push(x)),
                None => groups.push(Seq::empty().push(x)),
            }
        }
    }
}

proof fn lemma_group_of_extend(groups: Seq<Seq<usize>>, m: int, hosts: Seq<(String, u16)>, x: int)
    requires
        0 <= m <= groups.len(),
        group_of(groups.take(m), hosts, x) is Some,
    ensures
        group_of(groups, hosts, x) == group_of(groups.take(m), hosts, x),
    decreases groups.len(),
{
    if groups.len() == m {
        assert(groups.take(m) =~= groups);
    } else {
        assert(groups.drop_last().take(m) =~= groups.take(m));
        lemma_group_of_extend(groups.drop_last(), m, hosts, x);
    }
}

/// The lengths of the slices shuffled before group `k` of `groups` is: the
/// group order first, then each earlier group.
pub open spec fn drawn_before(groups: Seq<Seq<usize>>, k: int) -> Seq<usize> {
    Seq::empty().push(groups.len() as usize) + Seq::new(k as nat, |m: int| groups[m].len() as usize)
}

/// Group `k` of `groups` after its shuffle.
pub open spec fn shuffled_group(seed: u64, groups: Seq<Seq<usize>>, k: int) -> Seq<usize> {
    permute(
        groups[k],
        as_permutation(
            shuffled_indices(seed, drawn_before(groups, k), groups[k].len() as usize),
            groups[k].len(),
        ),
    )
}

/// `groups` with the groups before `k` shuffled.
pub open spec fn shuffled_up_to(seed: u64, groups: Seq<Seq<usize>>, k: int) -> Seq<Seq<usize>> {
    Seq::new(
        groups.len(),
        |j: int|
            if j < k {
                shuffled_group(seed, groups, j)
            } else {
                groups[j]
            },
    )
}

/// The group order shuffled by a generator seeded with `seed`.
pub open spec fn shuffled_group_order(seed: u64, groups: Seq<Seq<usize>>) -> Seq<Seq<usize>> {
    permute(
        groups,
        as_permutation(
            shuffled_indices(seed, Seq::empty(), groups.len() as usize),
            groups.len(),
        ),
    )
}

/// The groups after the shuffles: the group order first, then the members
/// of each group in turn, all drawn from one generator seeded with `seed`.
pub open spec fn shuffled_groups(seed: u64, groups: Seq<Seq<usize>>) -> Seq<Seq<usize>> {
    let order = shuffled_group_order(seed, groups);
    shuffled_up_to(seed, order, order.len() as int)
}

/// The host indices in the order of the shuffled policy: the hosts other
/// than the pinned one grouped by domain, shuffled with `seed`, and
/// interleaved round-robin.
pub open spec fn shuffled_order(hosts: Seq<(String, u16)>, pinned: Option<usize>, seed: u64) -> Seq<
    usize,
> {
    let groups = shuffled_groups(seed, grouped(hosts, pinned, hosts.len()));
    rounds(groups, longest_group(groups))
}

/// Rearranging vectors rearranges their views alike.
proof fn lemma_views_permuted(a: Seq<Vec<usize>>, b: Seq<Vec<usize>>)
    requires
        a.to_multiset() == b.to_multiset(),
    ensures
        views(a).to_multiset() == views(b).to_multiset(),
    decreases a.len(),
{
    broadcast use vstd::multiset::group_multiset_axioms;
    broadcast use vstd::seq_lib::group_to_multiset_ensures;

    if a.len() == 0 {
        assert(b.to_multiset().len() == 0);
        assert(b.len() == 0);
        assert(views(a) =~= views(b));
    } else {
        let x = a.last();
        assert(a =~= a.drop_last().push(x));
        assert(a.to_multiset().count(x) > 0);
        assert(b.contains(x));
        let i = choose|i: int| 0 <= i < b.len() && b[i] == x;
        assert(b.remove(i).to_multiset() =~= a.drop_last().to_multiset());
        lemma_views_permuted(a.drop_last(), b.remove(i));
        assert(views(a) =~= views(a.drop_last()).push(x@));
        assert(views(b.remove(i)) =~= views(b).remove(i));
        assert(views(b)[i] == x@);
        let va = views(a).to_multiset();
        let vb = views(b).to_multiset();
        assert forall|v: Seq<usize>| #[trigger] va.count(v) == vb.count(v) by {
            assert(views(b).remove(i).to_multiset() == vb.remove(x@));
            assert(va == views(a.drop_last()).to_multiset().insert(x@));
        }
        assert(va =~= vb);
    }
}

proof fn lemma_members_remove(groups: Seq<Seq<usize>>, i: int)
    requires
        0 <= i < groups.len(),
    ensures
        members(groups) == members(groups.remove(i)).add(groups[i].to_multiset()),
    decreases groups.len(),
{
    broadcast use vstd::multiset::group_multiset_axioms;

    let last = groups.len() - 1;
    if i == last {
        assert(groups.remove(i) =~= groups.drop_last());
    } else {
        lemma_members_remove(groups.drop_last(), i);
        assert(groups.remove(i).drop_last() =~= groups.drop_last().remove(i));
        assert(groups.remove(i).last() == groups.last());
        assert(members(groups) =~= members(groups.remove(i)).add(groups[i].to_multiset()));
    }
}

/// Rearranging the groups leaves their members unchanged.
proof fn lemma_members_permuted(a: Seq<Seq<usize>>, b: Seq<Seq<usize>>)
    requires
        a.to_multiset() == b.to_multiset(),
    ensures
        members(a) == members(b),
    decreases a.len(),
{
    broadcast use vstd::multiset::group_multiset_axioms;
    broadcast use vstd::seq_lib::group_to_multiset_ensures;

    if a.len() == 0 {
        assert(b.to_multiset().len() == 0);
        assert(b.len() == 0);
        assert(b =~= a);
    } else {
        let x = a.last();
        assert(a =~= a.drop_last().push(x));
        assert(a.to_multiset().count(x) > 0);
        assert(b.contains(x));
        let i = choose|i: int| 0 <= i < b.len() && b[i] == x;
        assert(b.remove(i).to_multiset() =~= a.drop_last().to_multiset());
        lemma_members_permuted(a.drop_last(), b.remove(i));
        lemma_members_remove(b, i);
    }
}

/// Replacing a group by a rearrangement of it leaves the members unchanged.
proof fn lemma_members_update(groups: Seq<Seq<usize>>, k: int, g: Seq<usize>)
    requires
        0 <= k < groups.len(),
    ensures
        members(groups.update(k, g)).add(groups[k].to_multiset()) == members(groups).add(
            g.to_multiset(),
        ),
    decreases groups.len(),
{
    broadcast use vstd::multiset::group_multiset_axioms;

    let last = groups.len() - 1;
    let u = groups.update(k, g);
    if k == last {
        assert(u.drop_last() =~= groups.drop_last());
        assert(u.last() == g);
    } else {
        lemma_members_update(groups.drop_last(), k, g);
        assert(u.drop_last() =~= groups.drop_last().update(k, g));
        assert(u.last() == groups.last());
    }
    assert(members(u) == members(u.drop_last()).add(u.last().to_multiset()));
    assert(members(groups) == members(groups.drop_last()).add(groups.last().to_multiset()));
    let gk = groups[k].to_multiset();
    let gm = g.to_multiset();
    assert forall|x: usize| #[trigger] members(u).add(gk).count(x) == members(groups).add(gm).count(x) by {
        assert(members(u).count(x) == members(u.drop_last()).count(x) + u.last().to_multiset().count(x));
        assert(members(groups).count(x) == members(groups.drop_last()).count(x)
            + groups.last().to_multiset().count(x));
        if k != last {
            assert(groups.drop_last()[k] == groups[k]);
            assert(members(groups.drop_last().update(k, g)).add(gk).count(x) == members(
                groups.drop_last(),
            ).add(gm).count(x));
        }
    }
    assert(members(u).add(gk) =~= members(groups).add(gm));
}

/// Cancelling a common summand of two multiset sums.
proof fn lemma_add_cancel(a: Multiset<usize>, b: Multiset<usize>, c: Multiset<usize>)
    requires
        a.add(c) == b.add(c),
    ensures
        a == b,
{
    broadcast use vstd::multiset::group_multiset_axioms;

    assert forall|x: usize| a.count(x) == b.count(x) by {
        assert(a.add(c).count(x) == a.count(x) + c.count(x));
        assert(b.add(c).count(x) == b.count(x) + c.count(x));
        assert(a.add(c).count(x) == b.add(c).count(x));
    }
    assert(a =~= b);
}

/// Every member of the groups sits in some group.
proof fn lemma_member_located(groups: Seq<Seq<usize>>, x: usize) -> (ka: (int, int))
    requires
        members(groups).count(x) > 0,
    ensures
        0 <= ka.0 < groups.len(),
        0 <= ka.1 < groups[ka.0].len(),
        groups[ka.0][ka.1] == x,
    decreases groups.len(),
{
    broadcast use vstd::multiset::group_multiset_axioms;
    broadcast use vstd::seq_lib::group_to_multiset_ensures;

    if groups.len() == 0 {
        assert(false);
        (0, 0)
    } else if members(groups.drop_last()).count(x) > 0 {
        let r = lemma_member_located(groups.drop_last(), x);
        r
    } else {
        let last = groups.len() - 1;
        assert(groups[last].contains(x));
        let a = choose|a: int| 0 <= a < groups[last].len() && groups[last][a] == x;
        (last, a)
    }
}

/// Rearranging well-formed groups keeps them well-formed.
proof fn lemma_groups_wf_permuted(
    a: Seq<Seq<usize>>,
    b: Seq<Seq<usize>>,
    hosts: Seq<(String, u16)>,
)
    requires
        groups_wf(a, hosts),
        a.to_multiset() == b.to_multiset(),
    ensures
        groups_wf(b, hosts),
{
    broadcast use vstd::multiset::group_multiset_axioms;
    broadcast use vstd::seq_lib::group_to_multiset_ensures;

    assert(a.no_duplicates()) by {
        assert forall|i: int, j: int| 0 <= i < a.len() && 0 <= j < a.len() && i != j implies a[i]
            != a[j] by {
            if a[i] == a[j] {
                assert(member_domain(a, hosts, i, 0) == member_domain(a, hosts, j, 0));
            }
        }
    }
    a.lemma_multiset_has_no_duplicates();
    b.lemma_multiset_has_no_duplicates_conv();
    assert forall|k: int| 0 <= k < b.len() implies exists|j: int|
        0 <= j < a.len() && a[j] == #[trigger] b[k] by {
        assert(b.to_multiset().count(b[k]) > 0);
        assert(a.contains(b[k]));
    }
    assert forall|k: int| 0 <= k < b.len() implies #[trigger] b[k].len() > 0 by {
        let j = choose|j: int| 0 <= j < a.len() && a[j] == b[k];
        assert(a[j].len() > 0);
    }
    assert forall|k: int, x: int| 0 <= k < b.len() && 0 <= x < b[k].len() implies #[trigger] b[k][x]
        < hosts.len() by {
        let j = choose|j: int| 0 <= j < a.len() && a[j] == b[k];
        assert(a[j][x] < hosts.len());
    }
    assert forall|k: int, x: int| 0 <= k < b.len() && 0 <= x < b[k].len() implies #[trigger] member_domain(
        b,
        hosts,
        k,
        x,
    ) == member_domain(b, hosts, k, 0) by {
        let j = choose|j: int| 0 <= j < a.len() && a[j] == b[k];
        assert(member_domain(a, hosts, j, x) == member_domain(a, hosts, j, 0));
    }
    assert forall|k1: int, k2: int|
        0 <= k1 < b.len() && 0 <= k2 < b.len() && #[trigger] member_domain(b, hosts, k1, 0)
            == #[trigger] member_domain(b, hosts, k2, 0) implies k1 == k2 by {
        let j1 = choose|j: int| 0 <= j < a.len() && a[j] == b[k1];
        let j2 = choose|j: int| 0 <= j < a.len() && a[j] == b[k2];
        assert(member_domain(a, hosts, j1, 0) == member_domain(a, hosts, j2, 0));
        assert(j1 == j2);
    }
}

/// Rearranging the members of one group keeps the groups well-formed.
proof fn lemma_groups_wf_reshuffled(
    groups: Seq<Seq<usize>>,
    k: int,
    g: Seq<usize>,
    hosts: Seq<(String, u16)>,
)
    requires
        groups_wf(groups, hosts),
        0 <= k < groups.len(),
        g.to_multiset() == groups[k].to_multiset(),
    ensures
        groups_wf(groups.update(k, g), hosts),
        members(groups.update(k, g)) == members(groups),
{
    broadcast use vstd::multiset::group_multiset_axioms;
    broadcast use vstd::seq_lib::group_to_multiset_ensures;

    let b = groups.update(k, g);
    lemma_members_update(groups, k, g);
    lemma_add_cancel(members(b), members(groups), g.to_multiset());
    assert(g.len() == g.to_multiset().len());
    assert(groups[k].len() == groups[k].to_multiset().len());
    assert forall|x: int| 0 <= x < g.len() implies exists|y: int|
        0 <= y < groups[k].len() && groups[k][y] == #[trigger] g[x] by {
        assert(g.to_multiset().count(g[x]) > 0);
        assert(groups[k].contains(g[x]));
    }
    assert forall|j: int, x: int| 0 <= j < b.len() && 0 <= x < b[j].len() implies #[trigger] b[j][x]
        < hosts.len() by {
        if j == k {
            let y = choose|y: int| 0 <= y < groups[k].len() && groups[k][y] == g[x];
            assert(groups[k][y] < hosts.len());
        }
    }
    assert forall|j: int, x: int| 0 <= j < b.len() && 0 <= x < b[j].len() implies #[trigger] member_domain(
        b,
        hosts,
        j,
        x,
    ) == member_domain(groups, hosts, j, 0) by {
        if j == k {
            let y = choose|y: int| 0 <= y < groups[k].len() && groups[k][y] == g[x];
            assert(member_domain(groups, hosts, k, y) == member_domain(groups, hosts, k, 0));
        } else {
            assert(member_domain(groups, hosts, j, x) == member_domain(groups, hosts, j, 0));
        }
    }
    assert forall|j: int| 0 <= j < b.len() implies #[trigger] member_domain(b, hosts, j, 0)
        == member_domain(groups, hosts, j, 0) by {
        assert(member_domain(b, hosts, j, 0) == member_domain(groups, hosts, j, 0));
    }
}

/// Index of the group holding the domain of host `i`, if there is one.
fn find_group(hosts: &[(String, u16)], groups: &Vec<Vec<usize>>, i: usize) -> (r: Option<usize>)
    requires
        groups_wf(views(groups@), hosts@),
        i < hosts@.len(),
    ensures
        group_of(views(groups@), hosts@, i as int) == (match r {
            Some(j) => Some(j as int),
            None => None::<int>,
        }),
        match r {
            Some(j) => j < groups@.len() && member_domain(views(groups@), hosts@, j as int, 0)
                == domain(hosts@[i as int]),
            None => forall|j: int|
                0 <= j < groups@.len() ==> #[trigger] member_domain(views(groups@), hosts@, j, 0)
                    != domain(hosts@[i as int]),
        },
{
    let ghost gs = views(groups@);
    let mut j: usize = 0;
    while j < groups.len()
        invariant
            gs == views(groups@),
            groups_wf(gs, hosts@),
            i < hosts@.len(),
            j <= groups@.len(),
            group_of(gs.take(j as int), hosts@, i as int) is None,
            forall|j2: int|
                0 <= j2 < j ==> #[trigger] member_domain(gs, hosts@, j2, 0) != domain(
                    hosts@[i as int],
                ),
        decreases groups@.len() - j,
    {
        assert(gs[j as int] == groups@[j as int]@);
        let leader = groups[j][0];
        proof {
            assert(gs.take(j + 1).drop_last() =~= gs.take(j as int));
            assert(gs.take(j + 1).last() == gs[j as int]);
        }
        if hosts[leader].0 == hosts[i].0 {
            proof {
                assert(group_of(gs.take(j + 1), hosts@, i as int) == Some(j as int));
                lemma_group_of_extend(gs, j + 1, hosts@, i as int);
            }
            return Some(j);
        }
        j = j + 1;
    }
    proof {
        assert(gs.take(j as int) =~= gs);
    }
    None
}

/// The hosts other than the pinned one grouped by domain, each group in
/// declaration order, the groups in order of first appearance.
fn group_by_domain(hosts: &[(String, u16)], pinned: Option<usize>) -> (groups: Vec<Vec<usize>>)
    requires
        pinned matches Some(p) ==> p < hosts@.len(),
    ensures
        views(groups@) == grouped(hosts@, pinned, hosts@.len()),
        groups_wf(views(groups@), hosts@),
        members(views(groups@)) == indices_except(hosts@.len(), pinned).to_multiset(),
{
    broadcast use vstd::multiset::group_multiset_axioms;
    broadcast use vstd::seq_lib::group_to_multiset_ensures;

    let mut groups: Vec<Vec<usize>> = Vec::new();
    let n = hosts.len();
    proof {
        assert(views(groups@) =~= grouped(hosts@, pinned, 0));
    }
    for i in 0..n
        invariant
            n == hosts@.len(),
            views(groups@) == grouped(hosts@, pinned, i as nat),
            groups_wf(views(groups@), hosts@),
            members(views(groups@)) == indices_except(i as nat, pinned).to_multiset(),
            forall|k: int, a: int|
                0 <= k < groups@.len() && 0 <= a < groups@[k]@.len() ==> #[trigger] groups@[k]@[a]
                    < i,
    {
        let skip = match pinned {
            Some(p) => p == i,
            None => false,
        };
        if !skip {
            let found = find_group(hosts, &groups, i);
            match found {
                Some(j) => {
                    let ghost before = views(groups@);
                    let ghost before_vecs = groups@;
                    let mut g = groups.remove(j);
                    g.push(i);
                    groups.insert(j, g);
                    proof {
                        assert(groups@ =~= before_vecs.update(j as int, g));
                        assert(views(groups@) =~= before.update(j as int, g@));
                        assert(g@ =~= before[j as int].push(i));
                        assert(views(groups@) =~= grouped(hosts@, pinned, (i + 1) as nat));
                        lemma_members_update(before, j as int, g@);
                        vstd::seq_lib::to_multiset_build(before[j as int], i);
                        assert(g@.to_multiset() =~= before[j as int].to_multiset().insert(i));
                        assert(members(before).add(g@.to_multiset()) =~= members(before).insert(
                            i,
                        ).add(before[j as int].to_multiset()));
                        lemma_add_cancel(
                            members(views(groups@)),
                            members(before).insert(i),
                            before[j as int].to_multiset(),
                        );
                        let after = views(groups@);
                        assert forall|k: int, a: int|
                            0 <= k < after.len() && 0 <= a < after[k].len() implies #[trigger] member_domain(
                            after,
                            hosts@,
                            k,
                            a,
                        ) == member_domain(after, hosts@, k, 0) by {
                            if k == j {
                                if a < before[k].len() {
                                    assert(member_domain(before, hosts@, k, a) == member_domain(
                                        before,
                                        hosts@,
                                        k,
                                        0,
                                    ));
                                }
                            } else {
                                assert(member_domain(before, hosts@, k, a) == member_domain(
                                    before,
                                    hosts@,
                                    k,
                                    0,
                                ));
                            }
                        }
                        assert forall|k1: int, k2: int|
                            0 <= k1 < after.len() && 0 <= k2 < after.len()
                                && #[trigger] member_domain(after, hosts@, k1, 0)
                                == #[trigger] member_domain(after, hosts@, k2, 0) implies k1
                            == k2 by {
                            assert(member_domain(before, hosts@, k1, 0) == member_domain(
                                after,
                                hosts@,
                                k1,
                                0,
                            ));
                            assert(member_domain(before, hosts@, k2, 0) == member_domain(
                                after,
                                hosts@,
                                k2,
                                0,
                            ));
                        }
                        assert forall|k: int, a: int|
                            0 <= k < groups@.len() && 0 <= a < groups@[k]@.len() implies #[trigger] groups@[k]@[a]
                                < i + 1 by {
                            if k == j && a == before[k].len() {
                            } else {
                                assert(groups@[k]@[a] == before_vecs[k]@[a]);
                            }
                        }
                    }
                },
                None => {
                    let ghost before = views(groups@);
                    let ghost before_vecs = groups@;
                    let mut g: Vec<usize> = Vec::new();
                    g.push(i);
                    groups.push(g);
                    proof {
                        assert(groups@.drop_last() =~= before_vecs);
                        assert(g@ =~= Seq::<usize>::empty().push(i));
                        let after = views(groups@);
                        assert(after =~= before.push(g@));
                        assert(after =~= grouped(hosts@, pinned, (i + 1) as nat));
                        assert(after.drop_last() =~= before);
                        assert(g@.to_multiset() =~= Multiset::<usize>::empty().insert(i)) by {
                            broadcast use vstd::multiset::group_multiset_properties;

                            vstd::seq_lib::to_multiset_len(Seq::<usize>::empty());
                            vstd::seq_lib::to_multiset_build(Seq::<usize>::empty(), i);
                            assert(Seq::<usize>::empty().to_multiset() =~= Multiset::<usize>::empty());
                        }
                        assert(members(after) =~= members(before).insert(i));
                        let last = after.len() - 1;
                        assert forall|k1: int, k2: int|
                            0 <= k1 < after.len() && 0 <= k2 < after.len()
                                && #[trigger] member_domain(after, hosts@, k1, 0)
                                == #[trigger] member_domain(after, hosts@, k2, 0) implies k1
                            == k2 by {
                            if k1 < last && k2 < last {
                                assert(member_domain(before, hosts@, k1, 0) == member_domain(
                                    before,
                                    hosts@,
                                    k2,
                                    0,
                                ));
                            } else if k1 < last {
                                assert(member_domain(before, hosts@, k1, 0) != domain(
                                    hosts@[i as int],
                                ));
                            } else if k2 < last {
                                assert(member_domain(before, hosts@, k2, 0) != domain(
                                    hosts@[i as int],
                                ));
                            }
                        }
                        assert forall|k: int, a: int|
                            0 <= k < after.len() && 0 <= a < after[k].len() implies #[trigger] member_domain(
                            after,
                            hosts@,
                            k,
                            a,
                        ) == member_domain(after, hosts@, k, 0) by {
                            if k < last {
                                assert(member_domain(before, hosts@, k, a) == member_domain(
                                    before,
                                    hosts@,
                                    k,
                                    0,
                                ));
                            }
                        }
                        assert forall|k: int, a: int|
                            0 <= k < groups@.len() && 0 <= a < groups@[k]@.len() implies #[trigger] groups@[k]@[a]
                                < i + 1 by {
                            if k < last {
                                assert(groups@[k] == before_vecs[k]);
                            }
                        }
                    }
                },
            }
        } else {
            proof {
                assert(views(groups@) =~= grouped(hosts@, pinned, (i + 1) as nat));
            }
        }
        proof {
            let prev = indices_except(i as nat, pinned);
            if skip {
                assert(indices_except((i + 1) as nat, pinned) == prev);
            } else {
                vstd::seq_lib::to_multiset_build(prev, i);
                assert(indices_except((i + 1) as nat, pinned) == prev.push(i));
            }
        }
    }
    groups
}

// ---------------------------------------------------------------------------
// Round-robin interleave of the groups.
// ---------------------------------------------------------------------------

/// Round `r`: member `r` of every group that has one, in group order.
pub open spec fn round_of(groups: Seq<Seq<usize>>, r: nat) -> Seq<usize>
    decreases groups.len(),
{
    if groups.len() == 0 {
        Seq::empty()
    } else {
        let rest = round_of(groups.drop_last(), r);
        if r < groups.last().len() {
            rest.push(groups.last()[r as int])
        } else {
            rest
        }
    }
}

/// Rounds `0..count`, one after another.
pub open spec fn rounds(groups: Seq<Seq<usize>>, count: nat) -> Seq<usize>
    decreases count,
{
    if count == 0 {
        Seq::empty()
    } else {
        rounds(groups, (count - 1) as nat) + round_of(groups, (count - 1) as nat)
    }
}

/// The first `count` members of a group, all of them when it is shorter.
pub open spec fn leading(g: Seq<usize>, count: nat) -> Seq<usize> {
    if count <= g.len() {
        g.take(count as int)
    } else {
        g
    }
}

proof fn lemma_rounds_push(groups: Seq<Seq<usize>>, g: Seq<usize>, count: nat)
    ensures
        rounds(groups.push(g), count).to_multiset() == rounds(groups, count).to_multiset().add(
            leading(g, count).to_multiset(),
        ),
    decreases count,
{
    broadcast use vstd::multiset::group_multiset_axioms;

    let gp = groups.push(g);
    if count == 0 {
        vstd::seq_lib::to_multiset_len(Seq::<usize>::empty());
        vstd::multiset::lemma_multiset_empty_len(Seq::<usize>::empty().to_multiset());
        assert(leading(g, 0) =~= Seq::<usize>::empty());
        assert(rounds(gp, 0).to_multiset() =~= rounds(groups, 0).to_multiset().add(
            leading(g, 0).to_multiset(),
        ));
    } else {
        let c = (count - 1) as nat;
        lemma_rounds_push(groups, g, c);
        assert(gp.drop_last() =~= groups);
        assert(gp.last() == g);
        let before_g = rounds(gp, c);
        let before = rounds(groups, c);
        vstd::seq_lib::lemma_multiset_commutative(before_g, round_of(gp, c));
        vstd::seq_lib::lemma_multiset_commutative(before, round_of(groups, c));
        if c < g.len() {
            vstd::seq_lib::to_multiset_build(round_of(groups, c), g[c as int]);
            vstd::seq_lib::to_multiset_build(leading(g, c), g[c as int]);
            assert(leading(g, count) =~= leading(g, c).push(g[c as int]));
        } else {
            assert(leading(g, count) =~= leading(g, c));
        }
        let lhs = rounds(gp, count).to_multiset();
        let rhs = rounds(groups, count).to_multiset().add(leading(g, count).to_multiset());
        assert forall|x: usize| #[trigger] lhs.count(x) == rhs.count(x) by {
            assert(before_g.to_multiset().count(x) == before.to_multiset().count(x) + leading(
                g,
                c,
            ).to_multiset().count(x));
        }
        assert(lhs =~= rhs);
    }
}

/// Once the rounds reach past every group, they hold every member.
proof fn lemma_rounds_cover(groups: Seq<Seq<usize>>, count: nat)
    requires
        forall|k: int| 0 <= k < groups.len() ==> #[trigger] groups[k].len() <= count,
    ensures
        rounds(groups, count).to_multiset() == members(groups),
    decreases groups.len(),
{
    broadcast use vstd::multiset::group_multiset_axioms;

    if groups.len() == 0 {
        lemma_rounds_empty(groups, count);
        vstd::seq_lib::to_multiset_len(rounds(groups, count));
        vstd::multiset::lemma_multiset_empty_len(rounds(groups, count).to_multiset());
    } else {
        let dl = groups.drop_last();
        let g = groups.last();
        assert(groups =~= dl.push(g));
        assert forall|k: int| 0 <= k < dl.len() implies #[trigger] dl[k].len() <= count by {
            assert(dl[k] == groups[k]);
        }
        lemma_rounds_cover(dl, count);
        lemma_rounds_push(dl, g, count);
        assert(leading(g, count) =~= g);
    }
}

proof fn lemma_rounds_empty(groups: Seq<Seq<usize>>, count: nat)
    requires
        groups.len() == 0,
    ensures
        rounds(groups, count).len() == 0,
    decreases count,
{
    if count > 0 {
        lemma_rounds_empty(groups, (count - 1) as nat);
    }
}

/// Round 0 of non-empty groups is every group's first member, in group order.
proof fn lemma_first_round(groups: Seq<Seq<usize>>)
    requires
        forall|k: int| 0 <= k < groups.len() ==> #[trigger] groups[k].len() > 0,
    ensures
        round_of(groups, 0).len() == groups.len(),
        forall|k: int| 0 <= k < groups.len() ==> #[trigger] round_of(groups, 0)[k] == groups[k][0],
    decreases groups.len(),
{
    if groups.len() > 0 {
        let dl = groups.drop_last();
        assert forall|k: int| 0 <= k < dl.len() implies #[trigger] dl[k].len() > 0 by {
            assert(dl[k] == groups[k]);
        }
        lemma_first_round(dl);
        assert(groups.last() == groups[groups.len() - 1]);
        assert forall|k: int| 0 <= k < groups.len() implies #[trigger] round_of(groups, 0)[k]
            == groups[k][0] by {
            if k < dl.len() {
                assert(dl[k] == groups[k]);
            }
        }
    }
}

/// Later rounds only append: the rounds start with round 0.
proof fn lemma_rounds_start(groups: Seq<Seq<usize>>, count: nat)
    requires
        count >= 1,
    ensures
        rounds(groups, count).len() >= round_of(groups, 0).len(),
        forall|m: int|
            0 <= m < round_of(groups, 0).len() ==> #[trigger] rounds(groups, count)[m] == round_of(
                groups,
                0,
            )[m],
    decreases count,
{
    if count > 1 {
        lemma_rounds_start(groups, (count - 1) as nat);
    } else {
        assert(rounds(groups, 0) =~= Seq::<usize>::empty());
        assert(rounds(groups, 1) =~= round_of(groups, 0));
    }
}

/// Size of the largest group (0 when there is none).
pub open spec fn longest_group(groups: Seq<Seq<usize>>) -> nat
    decreases groups.len(),
{
    if groups.len() == 0 {
        0
    } else {
        let rest = longest_group(groups.drop_last());
        if groups.last().len() > rest {
            groups.last().len()
        } else {
            rest
        }
    }
}

proof fn lemma_longest_group_bounds(groups: Seq<Seq<usize>>)
    ensures
        forall|k: int| 0 <= k < groups.len() ==> #[trigger] groups[k].len() <= longest_group(groups),
    decreases groups.len(),
{
    if groups.len() > 0 {
        let dl = groups.drop_last();
        lemma_longest_group_bounds(dl);
        assert forall|k: int| 0 <= k < groups.len() implies #[trigger] groups[k].len() <= longest_group(
            groups,
        ) by {
            if k < dl.len() {
                assert(dl[k] == groups[k]);
            }
        }
    }
}

/// The entries of `order` at `i`, taken as hosts, has this domain.
pub open spec fn entry_domain(hosts: Seq<(String, u16)>, order: Seq<usize>, i: int) -> Seq<char> {
    domain(hosts[order[i] as int])
}

/// A prefix of well-formed groups is well-formed.
proof fn lemma_groups_wf_prefix(groups: Seq<Seq<usize>>, hosts: Seq<(String, u16)>)
    requires
        groups_wf(groups, hosts),
        groups.len() > 0,
    ensures
        groups_wf(groups.drop_last(), hosts),
{
    let dl = groups.drop_last();
    assert forall|k: int| 0 <= k < dl.len() implies dl[k] == groups[k] by {}
    assert forall|k: int, a: int| 0 <= k < dl.len() && 0 <= a < dl[k].len() implies #[trigger] member_domain(
        dl,
        hosts,
        k,
        a,
    ) == member_domain(dl, hosts, k, 0) by {
        assert(member_domain(groups, hosts, k, a) == member_domain(groups, hosts, k, 0));
    }
    assert forall|k1: int, k2: int|
        0 <= k1 < dl.len() && 0 <= k2 < dl.len() && #[trigger] member_domain(dl, hosts, k1, 0)
            == #[trigger] member_domain(dl, hosts, k2, 0) implies k1 == k2 by {
        assert(member_domain(groups, hosts, k1, 0) == member_domain(groups, hosts, k2, 0));
    }
    assert forall|k: int, a: int| 0 <= k < dl.len() && 0 <= a < dl[k].len() implies #[trigger] dl[k][a]
        < hosts.len() by {
        assert(groups[k][a] < hosts.len());
    }
}

/// Every round of a well-formed grouping visits each fault domain at most
/// once: the entries of round `r` have pairwise different domains, each the
/// domain of one of the groups.
pub proof fn each_round_crosses_domains(groups: Seq<Seq<usize>>, hosts: Seq<(String, u16)>, r: nat)
    requires
        groups_wf(groups, hosts),
    ensures
        forall|i: int|
            0 <= i < round_of(groups, r).len() ==> exists|k: int|
                0 <= k < groups.len() && #[trigger] entry_domain(hosts, round_of(groups, r), i)
                    == member_domain(groups, hosts, k, 0),
        forall|i: int, j: int|
            0 <= i < j < round_of(groups, r).len() ==> #[trigger] entry_domain(
                hosts,
                round_of(groups, r),
                i,
            ) != #[trigger] entry_domain(hosts, round_of(groups, r), j),
    decreases groups.len(),
{
    if groups.len() > 0 {
        let dl = groups.drop_last();
        let last = groups.len() - 1;
        lemma_groups_wf_prefix(groups, hosts);
        each_round_crosses_domains(dl, hosts, r);
        let prev = round_of(dl, r);
        let cur = round_of(groups, r);
        assert(groups.last() == groups[last]);
        assert forall|i: int| 0 <= i < prev.len() implies exists|k: int|
            0 <= k < last && #[trigger] entry_domain(hosts, cur, i) == member_domain(groups, hosts, k, 0) by {
            assert(cur[i] == prev[i]);
            let k = choose|k: int|
                0 <= k < dl.len() && #[trigger] entry_domain(hosts, prev, i) == member_domain(dl, hosts, k, 0);
            assert(dl[k] == groups[k]);
            assert(member_domain(dl, hosts, k, 0) == member_domain(groups, hosts, k, 0));
        }
        if r < groups.last().len() {
            assert(cur == prev.push(groups[last][r as int]));
            assert(member_domain(groups, hosts, last, r as int) == member_domain(groups, hosts, last, 0));
            assert(entry_domain(hosts, cur, prev.len() as int) == member_domain(groups, hosts, last, 0));
        } else {
            assert(cur == prev);
        }
        assert forall|i: int, j: int|
            0 <= i < j < cur.len() implies #[trigger] entry_domain(hosts, cur, i) != #[trigger] entry_domain(
            hosts,
            cur,
            j,
        ) by {
            if j < prev.len() {
                assert(entry_domain(hosts, cur, i) == entry_domain(hosts, prev, i));
                assert(entry_domain(hosts, cur, j) == entry_domain(hosts, prev, j));
            } else {
                let k = choose|k: int|
                    0 <= k < last && #[trigger] entry_domain(hosts, cur, i) == member_domain(groups, hosts, k, 0);
                assert(member_domain(groups, hosts, k, 0) != member_domain(groups, hosts, last, 0));
            }
        }
        assert forall|i: int| 0 <= i < cur.len() implies exists|k: int|
            0 <= k < groups.len() && #[trigger] entry_domain(hosts, cur, i) == member_domain(groups, hosts, k, 0) by {
            if i < prev.len() {
                let k = choose|k: int|
                    0 <= k < last && #[trigger] entry_domain(hosts, cur, i) == member_domain(groups, hosts, k, 0);
            } else {
                assert(entry_domain(hosts, cur, i) == member_domain(groups, hosts, last, 0));
            }
        }
    }
}

/// `tail` interleaves a grouping of the hosts other than the pinned one by
/// fault domain, one host per domain per round, each round in the same group
/// order, until every group is used up.
pub open spec fn is_round_robin_of_domains(
    tail: Seq<(String, u16)>,
    hosts: Seq<(String, u16)>,
    pinned: Option<usize>,
) -> bool {
    exists|groups: Seq<Seq<usize>>|
        #![trigger rounds(groups, longest_group(groups))]
        groups_wf(groups, hosts) && members(groups) == indices_except(hosts.len(), pinned).to_multiset()
            && tail == pick(hosts, rounds(groups, longest_group(groups)))
}

/// Interleave the groups round-robin, one member per group per round, as
/// the hosts those members index.
fn interleave(hosts: &[(String, u16)], groups: &Vec<Vec<usize>>) -> (r: (
    Vec<(String, u16)>,
    Ghost<Seq<usize>>,
))
    requires
        groups_wf(views(groups@), hosts@),
    ensures
        r.0@ == pick(hosts@, r.1@),
        r.1@ == rounds(views(groups@), longest_group(views(groups@))),
        r.1@.to_multiset() == members(views(groups@)),
        groups@.len() > 0 ==> r.1@.len() >= groups@.len() && forall|k: int|
            0 <= k < groups@.len() ==> #[trigger] r.1@[k] == views(groups@)[k][0],
{
    let ghost gs = views(groups@);
    let mut longest: usize = 0;
    for k in 0..groups.len()
        invariant
            gs == views(groups@),
            longest == longest_group(gs.take(k as int)),
    {
        proof {
            assert(gs.take(k + 1).drop_last() =~= gs.take(k as int));
            assert(gs.take(k + 1).last() == gs[k as int]);
        }
        if groups[k].len() > longest {
            longest = groups[k].len();
        }
    }
    proof {
        assert(gs.take(gs.len() as int) =~= gs);
        lemma_longest_group_bounds(gs);
    }
    let mut out: Vec<(String, u16)> = Vec::new();
    let ghost mut order: Seq<usize> = Seq::empty();
    for r in 0..longest
        invariant
            gs == views(groups@),
            groups_wf(gs, hosts@),
            out@ == pick(hosts@, order),
            order == rounds(gs, r as nat),
    {
        for k in 0..groups.len()
            invariant
                gs == views(groups@),
                groups_wf(gs, hosts@),
                out@ == pick(hosts@, order),
                order == rounds(gs, r as nat) + round_of(gs.take(k as int), r as nat),
        {
            proof {
                assert(gs.take(k + 1).drop_last() =~= gs.take(k as int));
                assert(gs.take(k + 1).last() == gs[k as int]);
            }
            if r < groups[k].len() {
                let x = groups[k][r];
                out.push((hosts[x].0.clone(), hosts[x].1));
                proof {
                    order = order.push(x);
                    assert(out@ =~= pick(hosts@, order));
                }
            }
            proof {
                assert(rounds(gs, r as nat) + round_of(gs.take(k + 1), r as nat) =~= order);
            }
        }
        proof {
            assert(gs.take(gs.len() as int) =~= gs);
        }
    }
    proof {
        lemma_rounds_cover(gs, longest as nat);
        if gs.len() > 0 {
            lemma_first_round(gs);
            assert(gs[0].len() <= longest);
            lemma_rounds_start(gs, longest as nat);
        }
    }
    (out, Ghost(order))
}

// ---------------------------------------------------------------------------
// The ordering.
// ---------------------------------------------------------------------------

proof fn lemma_indices_except_len(k: nat, pinned: Option<usize>)
    ensures
        indices_except(k, pinned).len() == k - (if pinned is Some && pinned->0 < k {
            1int
        } else {
            0int
        }),
        forall|m: int|
            0 <= m < indices_except(k, pinned).len() ==> #[trigger] indices_except(k, pinned)[m]
                < k,
    decreases k,
{
    if k > 0 {
        lemma_indices_except_len((k - 1) as nat, pinned);
    }
}

/// The interleaved groups meet every domain in their first round.
proof fn lemma_interleave_spans_domains(
    hosts: Seq<(String, u16)>,
    groups: Seq<Seq<usize>>,
    order: Seq<usize>,
)
    requires
        groups_wf(groups, hosts),
        order.to_multiset() == members(groups),
        groups.len() > 0 ==> order.len() >= groups.len() && forall|k: int|
            0 <= k < groups.len() ==> #[trigger] order[k] == groups[k][0],
    ensures
        first_round_spans_domains(pick(hosts, order)),
{
    broadcast use vstd::multiset::group_multiset_axioms;

    let tail = pick(hosts, order);
    let d = groups.len() as int;
    assert forall|i: int, j: int| 0 <= i < j < d implies #[trigger] domain(tail[i])
        != #[trigger] domain(tail[j]) by {
        assert(domain(tail[i]) == member_domain(groups, hosts, i, 0));
        assert(domain(tail[j]) == member_domain(groups, hosts, j, 0));
    }
    assert forall|q: int| 0 <= q < tail.len() implies #[trigger] domain_in_prefix(tail, d, q) by {
        let x = order[q];
        vstd::seq_lib::to_multiset_contains(order, x);
        assert(order.contains(x));
        let ka = lemma_member_located(groups, x);
        let k = ka.0;
        assert(member_domain(groups, hosts, k, ka.1) == member_domain(groups, hosts, k, 0));
        assert(domain(tail[k]) == domain(tail[q]));
    }
    if d > 0 {
        assert(prefix_spans_domains(tail, d));
    } else {
        assert(prefix_spans_domains(tail, 0));
    }
}

/// The connect and failover order of the declared `hosts`.
///
/// A `preferred` index naming a declared host puts that host first (the
/// last host known to work, on a reconnect); the policy orders the rest.
/// [`HostSelectionPolicy::FixedOrder`] keeps the declared order.
/// [`HostSelectionPolicy::Shuffled`] groups the hosts by hostname, shuffles
/// the group order and then the ports of each group with a generator seeded
/// by `seed`, and interleaves the groups round-robin. The order is fixed by
/// the hosts, the pin and the seed: the same seed gives the same order.
pub fn order_hosts(
    hosts: &[(String, u16)],
    policy: HostSelectionPolicy,
    seed: u64,
    preferred: Option<usize>,
) -> (ordered: Vec<(String, u16)>)
    ensures
        ordered@.len() == hosts@.len(),
        pinned_index(hosts@.len(), preferred) matches Some(p) ==> ordered@[0] == hosts@[p as int],
        is_rearranged_tail(
            tail_of(ordered@, pinned_index(hosts@.len(), preferred)),
            hosts@,
            pinned_index(hosts@.len(), preferred),
        ),
        policy == HostSelectionPolicy::FixedOrder ==> tail_of(
            ordered@,
            pinned_index(hosts@.len(), preferred),
        ) == pick(hosts@, indices_except(hosts@.len(), pinned_index(hosts@.len(), preferred))),
        policy == HostSelectionPolicy::Shuffled ==> first_round_spans_domains(
            tail_of(ordered@, pinned_index(hosts@.len(), preferred)),
        ),
        policy == HostSelectionPolicy::Shuffled ==> tail_of(
            ordered@,
            pinned_index(hosts@.len(), preferred),
        ) == pick(hosts@, shuffled_order(hosts@, pinned_index(hosts@.len(), preferred), seed)),
        policy == HostSelectionPolicy::Shuffled ==> is_round_robin_of_domains(
            tail_of(ordered@, pinned_index(hosts@.len(), preferred)),
            hosts@,
            pinned_index(hosts@.len(), preferred),
        ),
{
    let n = hosts.len();
    let pinned: Option<usize> = match preferred {
        Some(p) => if p < n { Some(p) } else { None },
        None => None,
    };
    let ghost want = indices_except(n as nat, pinned);
    proof {
        lemma_indices_except_len(n as nat, pinned);
    }
    let mut tail: Vec<(String, u16)>;
    let ghost order: Seq<usize>;
    match policy {
        HostSelectionPolicy::FixedOrder => {
            tail = Vec::new();
            for i in 0..n
                invariant
                    n == hosts@.len(),
                    tail@ == pick(hosts@, indices_except(i as nat, pinned)),
            {
                let skip = match pinned {
                    Some(p) => p == i,
                    None => false,
                };
                if !skip {
                    tail.push((hosts[i].0.clone(), hosts[i].1));
                }
                proof {
                    assert(tail@ =~= pick(hosts@, indices_except((i + 1) as nat, pinned)));
                }
            }
            proof {
                order = want;
            }
        },
        HostSelectionPolicy::Shuffled => {
            let mut groups = group_by_domain(hosts, pinned);
            let ghost declared = groups@;
            let ghost g0 = views(groups@);
            let ghost r0 = shuffled_group_order(seed, g0);
            let group_count = groups.len();
            let mut rng = SeededRng::new(seed);
            rng.shuffle(&mut groups);
            proof {
                assert(g0.len() == group_count);
                lemma_as_permutation(shuffled_indices(seed, Seq::empty(), g0.len() as usize), g0.len());
                assert(views(groups@) =~= r0);
                lemma_views_permuted(declared, groups@);
                lemma_groups_wf_permuted(g0, views(groups@), hosts@);
                lemma_members_permuted(g0, views(groups@));
                assert(rng@.1 =~= drawn_before(r0, 0));
            }
            for k in 0..group_count
                invariant
                    groups@.len() == group_count,
                    r0.len() == group_count,
                    views(groups@) == shuffled_up_to(seed, r0, k as int),
                    rng@ == (seed, drawn_before(r0, k as int)),
                    groups_wf(views(groups@), hosts@),
                    members(views(groups@)) == want.to_multiset(),
            {
                let ghost before = views(groups@);
                let ghost before_vecs = groups@;
                let mut g = groups.remove(k);
                proof {
                    assert(g@ == before[k as int]);
                    assert(g@ == r0[k as int]);
                }
                rng.shuffle(&mut g);
                groups.insert(k, g);
                proof {
                    assert(groups@ =~= before_vecs.update(k as int, g));
                    assert(views(groups@) =~= before.update(k as int, g@));
                    lemma_groups_wf_reshuffled(before, k as int, g@, hosts@);
                    assert(views(groups@) =~= shuffled_up_to(seed, r0, k + 1));
                    assert(rng@.1 =~= drawn_before(r0, k + 1));
                }
            }
            let (interleaved, Ghost(interleaved_order)) = interleave(hosts, &groups);
            proof {
                assert(views(groups@) == shuffled_groups(seed, g0));
                lemma_interleave_spans_domains(hosts@, views(groups@), interleaved_order);
                order = interleaved_order;
            }
            tail = interleaved;
        },
    }
    proof {
        vstd::seq_lib::to_multiset_len(order);
        vstd::seq_lib::to_multiset_len(want);
        assert(pick(hosts@, order).len() == order.len());
    }
    let ghost tail_seq = tail@;
    let mut ordered = tail;
    match pinned {
        Some(p) => {
            ordered.insert(0, (hosts[p].0.clone(), hosts[p].1));
            proof {
                assert(ordered@.skip(1) =~= tail_seq);
            }
        },
        None => {},
    }
    ordered
}

proof fn lemma_indices_except_values(k: nat, pinned: Option<usize>)
    requires
        k <= usize::MAX,
    ensures
        forall|m: int|
            0 <= m < indices_except(k, pinned).len() ==> #[trigger] indices_except(k, pinned)[m]
                == (if pinned is Some && pinned->0 < k && m >= pinned->0 {
                m + 1
            } else {
                m
            }),
    decreases k,
{
    if k > 0 {
        lemma_indices_except_values((k - 1) as nat, pinned);
        lemma_indices_except_len((k - 1) as nat, pinned);
    }
}

/// Pinning host `p` under the fixed order leaves the other hosts in their
/// declared order: the same order that the host list without `p` gets when
/// nothing is pinned.
pub proof fn fixed_order_tail_is_order_of_the_rest(hosts: Seq<(String, u16)>, p: usize)
    requires
        p < hosts.len(),
        hosts.len() <= usize::MAX,
    ensures
        pick(hosts, indices_except(hosts.len(), Some(p))) == pick(
            hosts.remove(p as int),
            indices_except((hosts.len() - 1) as nat, None),
        ),
{
    let n = hosts.len();
    lemma_indices_except_len(n, Some(p));
    lemma_indices_except_values(n, Some(p));
    lemma_indices_except_len((n - 1) as nat, None);
    lemma_indices_except_values((n - 1) as nat, None);
    assert(pick(hosts, indices_except(n, Some(p))) =~= pick(
        hosts.remove(p as int),
        indices_except((n - 1) as nat, None),
    ));
}


// ---------------------------------------------------------------------------
// Pinning under the shuffled policy.
// ---------------------------------------------------------------------------

/// The index in the full host list of entry `x` of the list without entry `p`.
pub open spec fn shift(p: usize, x: usize) -> usize {
    if x >= p {
        (x + 1) as usize
    } else {
        x
    }
}

/// Every index of `s` moved past the gap at `p`.
pub open spec fn shifted(s: Seq<usize>, p: usize) -> Seq<usize> {
    Seq::new(s.len(), |i: int| shift(p, s[i]))
}

/// Every index of every group moved past the gap at `p`.
pub open spec fn shifted_groups(groups: Seq<Seq<usize>>, p: usize) -> Seq<Seq<usize>> {
    Seq::new(groups.len(), |k: int| shifted(groups[k], p))
}

/// Every member of the groups is below `b`.
pub open spec fn all_below(groups: Seq<Seq<usize>>, b: int) -> bool {
    forall|j: int, a: int| 0 <= j < groups.len() && 0 <= a < groups[j].len() ==> #[trigger] groups[j][a] < b
}

/// The groups are non-empty and fit in memory.
pub open spec fn sizes_fit(groups: Seq<Seq<usize>>) -> bool {
    &&& groups.len() <= usize::MAX
    &&& forall|j: int| 0 <= j < groups.len() ==> 0 < #[trigger] groups[j].len() <= usize::MAX
}

proof fn lemma_grouped_bounds(hosts: Seq<(String, u16)>, pinned: Option<usize>, k: nat)
    requires
        k <= usize::MAX,
    ensures
        grouped(hosts, pinned, k).len() <= k,
        forall|j: int|
            0 <= j < grouped(hosts, pinned, k).len() ==> 0 < #[trigger] grouped(hosts, pinned, k)[j].len() <= k,
        all_below(grouped(hosts, pinned, k), k as int),
    decreases k,
{
    if k > 0 {
        let prev = grouped(hosts, pinned, (k - 1) as nat);
        lemma_grouped_bounds(hosts, pinned, (k - 1) as nat);
        let x = (k - 1) as usize;
        if pinned != Some(x) {
            match group_of(prev, hosts, x as int) {
                Some(j) => {
                    lemma_group_of_in_range(prev, hosts, x as int);
                    let cur = prev.update(j, prev[j].push(x));
                    assert(grouped(hosts, pinned, k) == cur);
                    assert forall|jj: int, a: int| 0 <= jj < cur.len() && 0 <= a < cur[jj].len() implies #[trigger] cur[jj][a] < k by {
                        if jj == j && a == prev[j].len() {
                        } else {
                            assert(cur[jj][a] == prev[jj][a]);
                        }
                    }
                },
                None => {
                    let cur = prev.push(Seq::empty().push(x));
                    assert(grouped(hosts, pinned, k) == cur);
                    assert forall|jj: int, a: int| 0 <= jj < cur.len() && 0 <= a < cur[jj].len() implies #[trigger] cur[jj][a] < k by {
                        if jj < prev.len() {
                            assert(cur[jj] == prev[jj]);
                        }
                    }
                },
            }
        }
    }
}

proof fn lemma_group_of_in_range(groups: Seq<Seq<usize>>, hosts: Seq<(String, u16)>, x: int)
    ensures
        group_of(groups, hosts, x) matches Some(j) ==> 0 <= j < groups.len(),
    decreases groups.len(),
{
    if groups.len() > 0 {
        lemma_group_of_in_range(groups.drop_last(), hosts, x);
    }
}

/// Looking up a host's group is the same with or without the gap at `p`.
proof fn lemma_group_of_shifted(groups: Seq<Seq<usize>>, hosts: Seq<(String, u16)>, p: usize, x: usize)
    requires
        p < hosts.len(),
        hosts.len() <= usize::MAX,
        x < hosts.len() - 1,
        forall|j: int| 0 <= j < groups.len() ==> 0 < #[trigger] groups[j].len(),
        all_below(groups, hosts.len() - 1),
    ensures
        group_of(shifted_groups(groups, p), hosts, shift(p, x) as int) == group_of(
            groups,
            hosts.remove(p as int),
            x as int,
        ),
    decreases groups.len(),
{
    if groups.len() > 0 {
        let dl = groups.drop_last();
        assert(shifted_groups(groups, p).drop_last() =~= shifted_groups(dl, p));
        assert(all_below(dl, hosts.len() - 1)) by {
            assert forall|j: int, a: int| 0 <= j < dl.len() && 0 <= a < dl[j].len() implies #[trigger] dl[j][a] < hosts.len() - 1 by {
                assert(dl[j] == groups[j]);
            }
        }
        assert forall|j: int| 0 <= j < dl.len() implies 0 < #[trigger] dl[j].len() by {
            assert(dl[j] == groups[j]);
        }
        lemma_group_of_shifted(dl, hosts, p, x);
        let last = groups.len() - 1;
        assert(groups.last() == groups[last]);
        let y = groups[last][0];
        assert(y < hosts.len() - 1);
        hosts.remove_ensures(p as int);
        assert(shifted_groups(groups, p).last()[0] == shift(p, y));
        assert(hosts.remove(p as int)[y as int] == hosts[shift(p, y) as int]);
        assert(hosts.remove(p as int)[x as int] == hosts[shift(p, x) as int]);
    }
}

/// Under a pin, the grouping of the other hosts is the grouping of the host
/// list without the pinned one, its indices moved past the gap.
proof fn lemma_grouped_pinned(hosts: Seq<(String, u16)>, p: usize, k: nat)
    requires
        p < hosts.len(),
        k <= hosts.len(),
        hosts.len() <= usize::MAX,
    ensures
        grouped(hosts, Some(p), k) == shifted_groups(
            grouped(hosts.remove(p as int), None, if k <= p { k } else { (k - 1) as nat }),
            p,
        ),
    decreases k,
{
    let h2 = hosts.remove(p as int);
    if k == 0 {
        assert(shifted_groups(grouped(h2, None, 0), p) =~= Seq::<Seq<usize>>::empty());
    } else {
        lemma_grouped_pinned(hosts, p, (k - 1) as nat);
        let x = (k - 1) as usize;
        if x != p {
            let x2: usize = if x < p { x } else { (x - 1) as usize };
            let k2: nat = (x2 + 1) as nat;
            let prev2 = grouped(h2, None, x2 as nat);
            assert(k2 == if k <= p { k } else { (k - 1) as nat });
            assert(x2 as nat == if (k - 1) as nat <= p { (k - 1) as nat } else { (k - 2) as nat });
            lemma_grouped_bounds(h2, None, x2 as nat);
            assert(shift(p, x2) == x);
            lemma_group_of_shifted(prev2, hosts, p, x2);
            let prev = shifted_groups(prev2, p);
            assert(grouped(hosts, Some(p), (k - 1) as nat) == prev);
            match group_of(prev2, h2, x2 as int) {
                Some(j) => {
                    lemma_group_of_in_range(prev2, h2, x2 as int);
                    assert(grouped(h2, None, k2) == prev2.update(j, prev2[j].push(x2)));
                    assert(shifted(prev2[j].push(x2), p) =~= prev[j].push(x));
                    assert(shifted_groups(prev2.update(j, prev2[j].push(x2)), p) =~= prev.update(
                        j,
                        prev[j].push(x),
                    ));
                },
                None => {
                    assert(grouped(h2, None, k2) == prev2.push(Seq::empty().push(x2)));
                    assert(shifted(Seq::empty().push(x2), p) =~= Seq::empty().push(x));
                    assert(shifted_groups(prev2.push(Seq::empty().push(x2)), p) =~= prev.push(
                        Seq::empty().push(x),
                    ));
                },
            }
        }
    }
}

/// Moving the indices past a gap commutes with a rearrangement.
proof fn lemma_permute_shifted(s: Seq<usize>, q: Seq<usize>, p: usize)
    requires
        is_permutation(q, s.len()),
    ensures
        permute(shifted(s, p), q) == shifted(permute(s, q), p),
{
    assert(permute(shifted(s, p), q) =~= shifted(permute(s, q), p));
}

/// The shuffles do not look at the indices in the groups, only at their sizes.
proof fn lemma_shuffled_groups_shifted(seed: u64, groups: Seq<Seq<usize>>, p: usize)
    requires
        sizes_fit(groups),
    ensures
        shuffled_groups(seed, shifted_groups(groups, p)) == shifted_groups(
            shuffled_groups(seed, groups),
            p,
        ),
{
    let sg = shifted_groups(groups, p);
    let q = as_permutation(shuffled_indices(seed, Seq::empty(), groups.len() as usize), groups.len());
    lemma_as_permutation(shuffled_indices(seed, Seq::empty(), groups.len() as usize), groups.len());
    let r = shuffled_group_order(seed, groups);
    let rs = shuffled_group_order(seed, sg);
    assert(rs =~= shifted_groups(r, p));
    assert forall|j: int| 0 <= j < r.len() implies #[trigger] drawn_before(rs, j) == drawn_before(r, j) by {
        assert(drawn_before(rs, j) =~= drawn_before(r, j));
    }
    assert forall|j: int| 0 <= j < r.len() implies #[trigger] shuffled_group(seed, rs, j) == shifted(
        shuffled_group(seed, r, j),
        p,
    ) by {
        assert(r[j] == groups[q[j] as int]);
        let raw = shuffled_indices(seed, drawn_before(r, j), r[j].len() as usize);
        lemma_as_permutation(raw, r[j].len());
        assert(rs[j] == shifted(r[j], p));
        lemma_permute_shifted(r[j], as_permutation(raw, r[j].len()), p);
    }
    assert(shuffled_groups(seed, sg) =~= shifted_groups(shuffled_groups(seed, groups), p));
}

/// The shuffles keep every member below a bound.
proof fn lemma_shuffled_groups_below(seed: u64, groups: Seq<Seq<usize>>, b: int)
    requires
        sizes_fit(groups),
        all_below(groups, b),
    ensures
        all_below(shuffled_groups(seed, groups), b),
{
    let q = as_permutation(shuffled_indices(seed, Seq::empty(), groups.len() as usize), groups.len());
    lemma_as_permutation(shuffled_indices(seed, Seq::empty(), groups.len() as usize), groups.len());
    let r = shuffled_group_order(seed, groups);
    let s = shuffled_groups(seed, groups);
    assert forall|j: int, a: int| 0 <= j < s.len() && 0 <= a < s[j].len() implies #[trigger] s[j][a] < b by {
        assert(r[j] == groups[q[j] as int]);
        let raw = shuffled_indices(seed, drawn_before(r, j), r[j].len() as usize);
        lemma_as_permutation(raw, r[j].len());
        let qj = as_permutation(raw, r[j].len());
        assert(s[j][a] == r[j][qj[a] as int]);
    }
}

/// Round `r` of the moved groups is round `r` of the groups, moved.
proof fn lemma_round_of_shifted(groups: Seq<Seq<usize>>, p: usize, r: nat)
    ensures
        round_of(shifted_groups(groups, p), r) == shifted(round_of(groups, r), p),
    decreases groups.len(),
{
    if groups.len() > 0 {
        let dl = groups.drop_last();
        assert(shifted_groups(groups, p).drop_last() =~= shifted_groups(dl, p));
        lemma_round_of_shifted(dl, p, r);
        let last = groups.len() - 1;
        assert(groups.last() == groups[last]);
        if r < groups.last().len() {
            assert(shifted(round_of(dl, r).push(groups.last()[r as int]), p) =~= shifted(
                round_of(dl, r),
                p,
            ).push(shift(p, groups.last()[r as int])));
        }
    }
}

/// The rounds of the moved groups are the rounds of the groups, moved.
proof fn lemma_rounds_shifted(groups: Seq<Seq<usize>>, p: usize, count: nat)
    ensures
        rounds(shifted_groups(groups, p), count) == shifted(rounds(groups, count), p),
    decreases count,
{
    if count > 0 {
        let c = (count - 1) as nat;
        lemma_rounds_shifted(groups, p, c);
        lemma_round_of_shifted(groups, p, c);
        assert(shifted(rounds(groups, c) + round_of(groups, c), p) =~= shifted(rounds(groups, c), p)
            + shifted(round_of(groups, c), p));
    }
}

proof fn lemma_longest_group_shifted(groups: Seq<Seq<usize>>, p: usize)
    ensures
        longest_group(shifted_groups(groups, p)) == longest_group(groups),
    decreases groups.len(),
{
    if groups.len() > 0 {
        assert(shifted_groups(groups, p).drop_last() =~= shifted_groups(groups.drop_last(), p));
        lemma_longest_group_shifted(groups.drop_last(), p);
    }
}

/// Every entry of a round is a member of the groups.
proof fn lemma_round_of_below(groups: Seq<Seq<usize>>, b: int, r: nat)
    requires
        all_below(groups, b),
    ensures
        forall|i: int| 0 <= i < round_of(groups, r).len() ==> #[trigger] round_of(groups, r)[i] < b,
    decreases groups.len(),
{
    if groups.len() > 0 {
        let dl = groups.drop_last();
        assert(all_below(dl, b)) by {
            assert forall|j: int, a: int| 0 <= j < dl.len() && 0 <= a < dl[j].len() implies #[trigger] dl[j][a] < b by {
                assert(dl[j] == groups[j]);
            }
        }
        lemma_round_of_below(dl, b, r);
        let last = groups.len() - 1;
        assert(groups.last() == groups[last]);
        if r < groups[last].len() {
            assert(groups[last][r as int] < b);
            assert(round_of(groups, r) == round_of(dl, r).push(groups[last][r as int]));
        }
    }
}

proof fn lemma_rounds_below(groups: Seq<Seq<usize>>, b: int, count: nat)
    requires
        all_below(groups, b),
    ensures
        forall|i: int| 0 <= i < rounds(groups, count).len() ==> #[trigger] rounds(groups, count)[i] < b,
    decreases count,
{
    if count > 0 {
        let c = (count - 1) as nat;
        lemma_rounds_below(groups, b, c);
        lemma_round_of_below(groups, b, c);
        assert forall|i: int| 0 <= i < rounds(groups, count).len() implies #[trigger] rounds(groups, count)[i] < b by {
            if i < rounds(groups, c).len() {
                assert(rounds(groups, count)[i] == rounds(groups, c)[i]);
            } else {
                assert(rounds(groups, count)[i] == round_of(groups, c)[i - rounds(groups, c).len()]);
            }
        }
    }
}

/// Pinning host `p` under the shuffled policy leaves the other hosts in the
/// order that the host list without `p` gets from the same seed when nothing
/// is pinned.
pub proof fn shuffled_tail_is_order_of_the_rest(hosts: Seq<(String, u16)>, p: usize, seed: u64)
    requires
        p < hosts.len(),
        hosts.len() <= usize::MAX,
    ensures
        pick(hosts, shuffled_order(hosts, Some(p), seed)) == pick(
            hosts.remove(p as int),
            shuffled_order(hosts.remove(p as int), None, seed),
        ),
{
    let n = hosts.len();
    let h2 = hosts.remove(p as int);
    hosts.remove_ensures(p as int);
    let g2 = grouped(h2, None, (n - 1) as nat);
    lemma_grouped_pinned(hosts, p, n);
    lemma_grouped_bounds(h2, None, (n - 1) as nat);
    assert(h2.len() == n - 1);
    lemma_shuffled_groups_shifted(seed, g2, p);
    let s2 = shuffled_groups(seed, g2);
    lemma_shuffled_groups_below(seed, g2, n - 1);
    lemma_longest_group_shifted(s2, p);
    lemma_rounds_shifted(s2, p, longest_group(s2));
    let o2 = rounds(s2, longest_group(s2));
    lemma_rounds_below(s2, n - 1, longest_group(s2));
    assert(shuffled_order(hosts, Some(p), seed) == shifted(o2, p));
    assert(pick(hosts, shifted(o2, p)) =~= pick(h2, o2));
}

} // verus!
