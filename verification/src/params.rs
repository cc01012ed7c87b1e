//! The sizes of a computation, derived from the number of parties, the number of faults and the
//! number of inputs that are mixed.
use crate::node::Replica;
use vstd::arithmetic::logarithm::*;
use vstd::arithmetic::power2::*;
use vstd::prelude::*;
use vstd::std_specs::bits::*;

verus! {

/// How many instance numbers of reliable broadcast belong to each node.
pub const THRESHOLD: usize = 10000;

/// How many sharings are proposed beyond those that the mixing needs.
pub const SPARE_SHARINGS: usize = 20;

/// How many sharings per party are set aside for common coins.
pub const COIN_SHARINGS_PER_NODE: usize = 10;

/// The binary logarithm, rounded down.
pub open spec fn log2(k: nat) -> nat {
    log(2, k as int) as nat
}

/// How many sharings each party proposes so that `k` inputs can be mixed.
pub open spec fn sharings_to_propose(k: nat, num_faults: nat) -> nat {
    (k * log2(k) * log2(k)) / (num_faults + 1) + SPARE_SHARINGS as nat
}

/// How many random sharings are generated so that `k` inputs can be mixed.
pub open spec fn sharings_to_generate(k: nat) -> nat {
    8 * (k / 2) * log2(k) * log2(k)
}

/// In how many batches `total` sharings are proposed.
pub open spec fn batches_for(total: nat, per_batch: nat) -> nat {
    (if total >= per_batch {
        total
    } else {
        per_batch
    }) / per_batch
}

/// How many of the `k` inputs each party supplies.
pub open spec fn share_of_inputs(k: nat, num_faults: nat) -> nat {
    k / (2 * num_faults + 1) + 1
}

/// The inputs of a party when each supplies `count` of them.
pub open spec fn inputs_of(id: nat, count: nat) -> Seq<u64> {
    Seq::new(count, |x: int| (id * count + x) as u64)
}

/// Whether `instance` is one of the broadcast instance numbers that belong to the node.
pub open spec fn owns_instance(id: nat, instance: nat) -> bool {
    THRESHOLD * id <= instance < THRESHOLD * (id + 1)
}

/// The logarithm bounds what it is taken of: `2^log2(k) <= k < 2^(log2(k) + 1)`.
pub proof fn log2_bounds(k: nat)
    requires
        k > 0,
    ensures
        pow2(log2(k)) <= k < pow2(log2(k) + 1),
    decreases k,
{
    lemma_log_nonnegative(2, k as int);
    if k == 1 {
        lemma_log0(2, 1);
        lemma2_to64();
    } else {
        lemma_log_s(2, k as int);
        lemma_log_nonnegative(2, k as int / 2);
        log2_bounds(k / 2);
        lemma_pow2_unfold(log2(k));
        lemma_pow2_unfold(log2(k) + 1);
    }
}

proof fn lemma_leading_zeros_is_log2(k: u64)
    requires
        k > 0,
    ensures
        u64_leading_zeros(k) + log2(k as nat) == 63,
    decreases k,
{
    reveal(u64_leading_zeros);
    lemma_log_nonnegative(2, k as int);
    if k == 1 {
        lemma_log0(2, 1);
        assert(u64_leading_zeros(0) == 64);
    } else {
        lemma_log_s(2, k as int);
        lemma_log_nonnegative(2, k as int / 2);
        lemma_leading_zeros_is_log2(k / 2);
    }
}

/// The binary logarithm of the number of inputs that are mixed.
pub fn log_k(k: usize) -> (result: usize)
    requires
        k > 0,
    ensures
        result == log2(k as nat),
        result <= 63,
        pow2(result as nat) <= k < pow2((result + 1) as nat),
{
    let k = k as u64;
    proof {
        lemma_leading_zeros_is_log2(k);
        log2_bounds(k as nat);
        axiom_u64_leading_zeros(k);
    }
    (u64::BITS - k.leading_zeros() - 1) as usize
}

/// Whether every size of the computation can be computed: nothing is divided by zero, the
/// logarithm exists, and each intermediate result is a machine number.
pub open spec fn sizes_fit(
    id: nat,
    num_nodes: nat,
    num_faults: nat,
    per_batch: nat,
    k: nat,
) -> bool {
    &&& k > 0
    &&& per_batch > 0
    &&& THRESHOLD * id <= usize::MAX
    &&& COIN_SHARINGS_PER_NODE * num_nodes <= usize::MAX
    &&& 2 * num_faults + 1 <= usize::MAX
    &&& 2 * k <= usize::MAX
    &&& k * log2(k) * log2(k) <= usize::MAX
    &&& sharings_to_propose(k, num_faults) <= usize::MAX
    &&& id * share_of_inputs(k, num_faults) + (share_of_inputs(k, num_faults) - 1) <= usize::MAX
}

/// How many sharings each party proposes so that `k` inputs can be mixed.
pub fn total_sharings(k: usize, log_k: usize, num_faults: usize) -> (total: usize)
    requires
        log_k == log2(k as nat),
        k * log_k * log_k <= usize::MAX,
        num_faults < usize::MAX,
        sharings_to_propose(k as nat, num_faults as nat) <= usize::MAX,
    ensures
        total == sharings_to_propose(k as nat, num_faults as nat),
{
    assert(k * log_k <= k * log_k * log_k || k * log_k == 0) by (nonlinear_arith)
        requires
            k >= 0,
            log_k >= 0,
    ;
    (k * log_k * log_k) / (num_faults + 1) + SPARE_SHARINGS
}

/// How many random sharings are generated so that `k` inputs can be mixed, if that is a machine number.
pub fn random_sharings(k: usize) -> (count: Option<usize>)
    requires
        k > 0,
    ensures
        match count {
            Some(n) => n == sharings_to_generate(k as nat),
            None => sharings_to_generate(k as nat) > usize::MAX,
        },
{
    let depth: usize = log_k(k);
    let half: usize = k / 2;
    proof {
        if depth == 0 {
            log2_bounds(k as nat);
            lemma2_to64();
            assert(half == 0);
        }
        assert(8 * half * depth > usize::MAX ==> 8 * half * depth * depth > usize::MAX)
            by (nonlinear_arith)
            requires
                half >= 0,
                depth >= 0,
        ;
        assert(depth >= 1 ==> 8 * half * depth >= 8 * half) by (nonlinear_arith)
            requires
                half >= 0,
                depth >= 0,
        ;
    }
    match half.checked_mul(8) {
        Some(count) => match count.checked_mul(depth) {
            Some(count) => count.checked_mul(depth),
            None => None,
        },
        None => None,
    }
}

/// In how many batches the sharings are proposed.
pub fn num_batches(total: usize, per_batch: usize) -> (batches: usize)
    requires
        per_batch > 0,
    ensures
        batches == batches_for(total as nat, per_batch as nat),
{
    if total >= per_batch {
        total / per_batch
    } else {
        per_batch / per_batch
    }
}

/// How many of the `k` inputs each party supplies.
pub fn inputs_per_party(k: usize, num_faults: usize) -> (count: usize)
    requires
        2 * num_faults + 1 <= usize::MAX,
        share_of_inputs(k as nat, num_faults as nat) <= usize::MAX,
    ensures
        count == share_of_inputs(k as nat, num_faults as nat),
        (2 * num_faults as int + 1) * (count as int - 1) <= k as int,
        (k as int) < (2 * num_faults as int + 1) * count as int,
{
    proof {
        share_is_least(k as nat, num_faults as nat);
    }
    let high_threshold: usize = 2 * num_faults + 1;
    (k / high_threshold) + 1
}

/// The inputs of a party when each supplies `count` of them. They are given as integers, to be
/// taken as elements of the field.
pub fn party_inputs(id: Replica, count: usize) -> (inputs: Vec<u64>)
    requires
        count > 0,
        id * count + (count - 1) <= usize::MAX,
    ensures
        inputs@ == inputs_of(id as nat, count as nat),
        inputs@.len() == count,
        forall|x: int| 0 <= x < count ==> #[trigger] inputs@[x] as int == id as int * count as int + x,
{
    let mut inputs: Vec<u64> = Vec::new();
    let first: usize = id * count;
    for x in 0..count
        invariant
            first == id * count,
            first + (count - 1) <= usize::MAX,
            inputs@.len() == x,
            forall|i: int| 0 <= i < x ==> inputs@[i] == inputs_of(id as nat, count as nat)[i],
    {
        inputs.push((first + x) as u64);
    }
    inputs
}

/// Tests whether every size of the computation can be computed.
pub fn check_sizes(
    id: Replica,
    num_nodes: usize,
    num_faults: usize,
    per_batch: usize,
    k: usize,
) -> (fit: bool)
    ensures
        fit == sizes_fit(
            id as nat,
            num_nodes as nat,
            num_faults as nat,
            per_batch as nat,
            k as nat,
        ),
{
    if k == 0 || per_batch == 0 || id > usize::MAX / THRESHOLD || num_nodes > usize::MAX
        / COIN_SHARINGS_PER_NODE || num_faults > (usize::MAX - 1) / 2 || k > usize::MAX / 2 {
        return false;
    }
    let depth: usize = log_k(k);
    let mixing = match k.checked_mul(depth) {
        Some(product) => product.checked_mul(depth),
        None => None,
    };
    let mixing: usize = match mixing {
        Some(product) => product,
        None => {
            assert(k * depth > usize::MAX ==> k * depth * depth > usize::MAX) by (nonlinear_arith)
                requires
                    k >= 0,
                    depth >= 0,
            ;
            return false;
        },
    };
    if mixing / (num_faults + 1) > usize::MAX - SPARE_SHARINGS {
        return false;
    }
    let count: usize = inputs_per_party(k, num_faults);
    match id.checked_mul(count) {
        Some(first) => first <= usize::MAX - (count - 1),
        None => false,
    }
}

/// The inputs of two parties have none in common.
pub proof fn inputs_disjoint(p: nat, q: nat, count: nat, i: int, j: int)
    requires
        p != q,
        p * count + (count - 1) <= u64::MAX,
        q * count + (count - 1) <= u64::MAX,
        0 <= i < count,
        0 <= j < count,
    ensures
        inputs_of(p, count)[i] != inputs_of(q, count)[j],
{
    if p < q {
        assert(p * count + count <= q * count) by (nonlinear_arith)
            requires
                p < q,
        ;
    } else {
        assert(q * count + count <= p * count) by (nonlinear_arith)
            requires
                q < p,
        ;
    }
}

/// Any `2 * num_faults + 1` parties supply more than `k` inputs between them.
pub proof fn quorum_supplies_all_inputs(k: nat, num_faults: nat)
    ensures
        (2 * num_faults + 1) * share_of_inputs(k, num_faults) > k,
{
    let quorum = (2 * num_faults + 1) as int;
    vstd::arithmetic::div_mod::lemma_fundamental_div_mod(k as int, quorum);
    vstd::arithmetic::div_mod::lemma_mod_bound(k as int, quorum);
    vstd::arithmetic::mul::lemma_mul_is_distributive_add(quorum, k as int / quorum, 1);
}

/// What `num_faults + 1` parties propose is more than the mixing needs.
pub proof fn proposals_suffice(k: nat, num_faults: nat)
    ensures
        (num_faults + 1) * sharings_to_propose(k, num_faults) > k * log2(k) * log2(k),
{
    let needed = (k * log2(k) * log2(k)) as int;
    let parties = (num_faults + 1) as int;
    vstd::arithmetic::div_mod::lemma_fundamental_div_mod(needed, parties);
    vstd::arithmetic::div_mod::lemma_mod_bound(needed, parties);
    vstd::arithmetic::mul::lemma_mul_is_distributive_add(
        parties,
        needed / parties,
        SPARE_SHARINGS as int,
    );
    assert(needed >= 0) by {
        vstd::arithmetic::mul::lemma_mul_nonnegative(k as int, log2(k) as int);
        vstd::arithmetic::mul::lemma_mul_nonnegative((k * log2(k)) as int, log2(k) as int);
    }
}

/// There is at least one batch, the batches hold no more than is proposed or than one batch holds,
/// and what they leave over is less than a batch.
pub proof fn batches_bounds(total: nat, per_batch: nat)
    requires
        per_batch > 0,
    ensures
        batches_for(total, per_batch) >= 1,
        total < per_batch ==> batches_for(total, per_batch) == 1,
        total >= per_batch ==> batches_for(total, per_batch) * per_batch <= total,
        total < (batches_for(total, per_batch) + 1) * per_batch,
{
    let held = if total >= per_batch {
        total as int
    } else {
        per_batch as int
    };
    let b = per_batch as int;
    vstd::arithmetic::div_mod::lemma_fundamental_div_mod(held, b);
    vstd::arithmetic::div_mod::lemma_mod_bound(held, b);
    assert(held / b >= 1) by (nonlinear_arith)
        requires
            held >= b,
            b > 0,
    ;
    vstd::arithmetic::mul::lemma_mul_is_commutative(b, held / b);
    vstd::arithmetic::mul::lemma_mul_is_distributive_add_other_way(b, held / b, 1);
    if total < per_batch {
        vstd::arithmetic::div_mod::lemma_div_by_self(b);
    }
}

/// No broadcast instance number belongs to two nodes, and the one from which a node counts is the
/// first of its own.
pub proof fn instances_disjoint(p: nat, q: nat, instance: nat)
    ensures
        owns_instance(p, (THRESHOLD * p) as nat),
        owns_instance(p, instance) && owns_instance(q, instance) ==> p == q,
{
}

/// The logarithm is the only number that bounds `k` so.
pub proof fn log2_unique(k: nat, depth: nat)
    requires
        pow2(depth) <= k < pow2(depth + 1),
    ensures
        log2(k) == depth,
{
    lemma_pow2_pos(depth);
    log2_bounds(k);
    let l = log2(k);
    if l < depth {
        if l + 1 < depth {
            lemma_pow2_strictly_increases(l + 1, depth);
        }
    } else if depth < l {
        if depth + 1 < l {
            lemma_pow2_strictly_increases(depth + 1, l);
        }
    }
}

/// A party's share of the inputs is the least with which `2 * num_faults + 1` parties supply more
/// than `k` inputs: with one fewer each, they supply no more than `k`.
pub proof fn share_is_least(k: nat, num_faults: nat)
    ensures
        (2 * num_faults + 1) * (share_of_inputs(k, num_faults) - 1) <= k,
        (2 * num_faults + 1) * share_of_inputs(k, num_faults) > k,
        forall|count: nat| #[trigger]
            ((2 * num_faults + 1) * count) > k ==> share_of_inputs(k, num_faults) <= count,
{
    quorum_supplies_all_inputs(k, num_faults);
    let quorum = (2 * num_faults + 1) as int;
    let share = share_of_inputs(k, num_faults) as int;
    vstd::arithmetic::div_mod::lemma_fundamental_div_mod(k as int, quorum);
    vstd::arithmetic::div_mod::lemma_mod_bound(k as int, quorum);
    assert forall|count: nat| #[trigger] ((2 * num_faults + 1) * count) > k implies share
        <= count by {
        if count < share {
            vstd::arithmetic::mul::lemma_mul_inequality(count as int, share - 1, quorum);
            vstd::arithmetic::mul::lemma_mul_is_commutative(count as int, quorum);
            vstd::arithmetic::mul::lemma_mul_is_commutative(share - 1, quorum);
        }
    }
}

/// The inputs of a party are as many as it supplies, no two of them are the same, and each is one
/// more than the one before it. Those of party zero begin with zero, and those of the next party
/// with one more than this party's last.
pub proof fn inputs_in_a_row(id: nat, count: nat)
    requires
        count > 0,
        (id + 1) * count + (count - 1) <= u64::MAX,
    ensures
        inputs_of(id, count).len() == count,
        forall|i: int, j: int|
            #![trigger inputs_of(id, count)[i], inputs_of(id, count)[j]]
            0 <= i < count && 0 <= j < count ==> inputs_of(id, count)[j] as int - inputs_of(
                id,
                count,
            )[i] as int == j - i,
        inputs_of(0, count)[0] == 0,
        inputs_of(id + 1, count)[0] as int == inputs_of(id, count)[count - 1] as int + 1,
{
    assert((id + 1) * count == id * count + count) by (nonlinear_arith);
    assert(id * count >= 0) by (nonlinear_arith);
    assert(0 * count == 0) by (nonlinear_arith);
}

/// The inputs of the first `parties` parties, one party after the other.
pub open spec fn inputs_of_all(parties: nat, count: nat) -> Seq<u64>
    decreases parties,
{
    if parties == 0 {
        Seq::empty()
    } else {
        inputs_of_all((parties - 1) as nat, count) + inputs_of((parties - 1) as nat, count)
    }
}

/// Together the inputs of the first parties are the integers from zero on, in order, as many as
/// the parties supply.
pub proof fn inputs_are_the_first_integers(parties: nat, count: nat)
    requires
        parties * count <= u64::MAX,
    ensures
        inputs_of_all(parties, count).len() == parties * count,
        forall|i: int|
            0 <= i < parties * count ==> #[trigger] inputs_of_all(parties, count)[i] as int == i,
    decreases parties,
{
    if parties == 0 {
        assert(0 * count == 0) by (nonlinear_arith);
    } else {
        let before = (parties - 1) as nat;
        assert(parties * count == before * count + count) by (nonlinear_arith)
            requires
                parties == before + 1,
        ;
        assert(before * count >= 0) by (nonlinear_arith);
        inputs_are_the_first_integers(before, count);
    }
}

/// What each party proposes is the spare sharings and, of the sharings that the mixing needs, the
/// part of one among `num_faults + 1` parties, rounded down.
pub proof fn proposals_are_no_more(k: nat, num_faults: nat, depth: nat)
    requires
        pow2(depth) <= k < pow2(depth + 1),
    ensures
        sharings_to_propose(k, num_faults) >= 20,
        (num_faults + 1) * (sharings_to_propose(k, num_faults) - 20) <= k * depth * depth,
        k * depth * depth < (num_faults + 1) * (sharings_to_propose(k, num_faults) - 19),
{
    log2_unique(k, depth);
    let needed = (k * depth * depth) as int;
    let parties = (num_faults + 1) as int;
    assert(needed >= 0) by {
        vstd::arithmetic::mul::lemma_mul_nonnegative(k as int, depth as int);
        vstd::arithmetic::mul::lemma_mul_nonnegative((k * depth) as int, depth as int);
    }
    vstd::arithmetic::div_mod::lemma_fundamental_div_mod(needed, parties);
    vstd::arithmetic::div_mod::lemma_mod_bound(needed, parties);
    vstd::arithmetic::div_mod::lemma_div_pos_is_pos(needed, parties);
    vstd::arithmetic::mul::lemma_mul_is_distributive_add(parties, needed / parties, 1);
}

/// The number of random sharings is that of an even number of inputs, four for each input and each
/// pair of levels; an odd input more changes nothing.
pub proof fn random_sharings_count(half: nat, depth: nat)
    requires
        pow2(depth) <= 2 * half < pow2(depth + 1),
    ensures
        sharings_to_generate(2 * half) == 4 * (2 * half) * (depth * depth),
        sharings_to_generate(2 * half + 1) == sharings_to_generate(2 * half),
        sharings_to_generate(1) == 0,
{
    log2_unique(2 * half, depth);
    lemma_pow2_unfold(depth + 1);
    assert(2 * half + 1 < pow2(depth + 1));
    log2_unique(2 * half + 1, depth);
    assert((2 * half + 1) / 2 == half && (2 * half) / 2 == half);
    assert(8 * half * depth * depth == 4 * (2 * half) * (depth * depth)) by (nonlinear_arith);
    assert(8 * (1nat / 2) * log2(1) * log2(1) == 0) by (nonlinear_arith);
}

/// Where the sizes fit, each of them is a machine number; and where each of them is, and there is
/// something to mix and a batch to put it in, the sizes fit.
pub proof fn fitting_sizes(
    id: nat,
    num_nodes: nat,
    num_faults: nat,
    per_batch: nat,
    k: nat,
    depth: nat,
)
    requires
        pow2(depth) <= k < pow2(depth + 1),
    ensures
        sizes_fit(id, num_nodes, num_faults, per_batch, k) <==> {
            let share = share_of_inputs(k, num_faults);
            &&& per_batch >= 1
            &&& 10000 * id <= usize::MAX
            &&& 10 * num_nodes <= usize::MAX
            &&& 2 * num_faults < usize::MAX
            &&& k + k <= usize::MAX
            &&& k * depth * depth <= usize::MAX
            &&& sharings_to_propose(k, num_faults) <= usize::MAX
            &&& (id + 1) * share <= usize::MAX + 1
        },
{
    log2_unique(k, depth);
    lemma_pow2_pos(depth);
    let share = share_of_inputs(k, num_faults);
    assert((id + 1) * share == id * share + share) by (nonlinear_arith);
}

/// Sizes that fit still fit for a lower number, for fewer parties, and for any batch that is not
/// empty. Nothing fits where there is nothing to mix or a batch is empty.
pub proof fn smaller_sizes_fit(
    id: nat,
    num_nodes: nat,
    num_faults: nat,
    per_batch: nat,
    k: nat,
    lower: nat,
    fewer: nat,
    other_batch: nat,
)
    requires
        lower <= id,
        fewer <= num_nodes,
        other_batch > 0,
    ensures
        sizes_fit(id, num_nodes, num_faults, per_batch, k) ==> sizes_fit(
            lower,
            fewer,
            num_faults,
            other_batch,
            k,
        ),
        !sizes_fit(id, num_nodes, num_faults, per_batch, 0),
        !sizes_fit(id, num_nodes, num_faults, 0, k),
{
    vstd::arithmetic::mul::lemma_mul_inequality(
        lower as int,
        id as int,
        share_of_inputs(k, num_faults) as int,
    );
}

} // verus!
