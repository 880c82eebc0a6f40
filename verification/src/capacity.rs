//! How much storage a container asks for: the largest capacity a shape
//! allows, the capacity that fits a size exactly, and the capacity that
//! leaves room to grow.
use vstd::arithmetic::div_mod::{lemma_div_by_multiple, lemma_div_is_ordered, lemma_fundamental_div_mod};
use vstd::arithmetic::mul::lemma_mul_inequality;
use vstd::prelude::*;

verus! {

/// Bytes that every backing allocation spends on its own bookkeeping.
pub const IMPL_HEADER_SIZE: usize = 40;

/// Allocations are sized in multiples of this many bytes.
pub const ALLOC_ALIGNMENT: usize = 32;

/// The smallest allocation, in bytes, that growth asks for.
pub const ALLOC_HINT: usize = 128;

/// Below this many bytes growth rounds up to a power of two; from it on,
/// to a multiple of it.
pub const ALLOC_GROW_LIMIT: usize = 8388608;

/// `x` rounded up to a multiple of `alignment`.
pub open spec fn spec_align_up(x: nat, alignment: nat) -> nat {
    if x % alignment == 0 {
        x
    } else {
        (x + alignment - x % alignment) as nat
    }
}

/// The least power of two that is at least `x`, searched from the power
/// of two `p` upwards.
pub open spec fn spec_power_of_two_from(x: nat, p: nat) -> nat
    decreases (if p < x { x - p } else { 0 }),
{
    if 0 < p < x {
        spec_power_of_two_from(x, p + p)
    } else {
        p
    }
}

/// The least power of two that is at least `x`.
pub open spec fn spec_next_power_of_two(x: nat) -> nat {
    spec_power_of_two_from(x, 1)
}

/// True when `p` is a power of two.
pub open spec fn is_power_of_two(p: nat) -> bool
    decreases p,
{
    p == 1 || (p > 1 && p % 2 == 0 && is_power_of_two(p / 2))
}

/// The number of elements of `item_size` bytes that an allocation of
/// `bytes` bytes holds beside its header.
pub open spec fn spec_capacity_of(item_size: nat, bytes: nat) -> nat {
    ((bytes - IMPL_HEADER_SIZE) / (item_size as int)) as nat
}

/// The largest capacity an array of `item_size`-byte elements can have:
/// what the whole address space would hold.
pub open spec fn spec_max_capacity(item_size: nat) -> nat {
    spec_capacity_of(item_size, usize::MAX as nat)
}

/// The bytes an allocation for `n` elements needs before rounding.
pub open spec fn spec_size_of(item_size: nat, n: nat) -> nat {
    IMPL_HEADER_SIZE as nat + n * item_size
}

/// The capacity of the smallest aligned allocation that holds `n`
/// elements; `n` itself where rounding would leave the address space.
pub open spec fn spec_fitting_capacity(item_size: nat, n: nat) -> nat {
    let bytes = spec_size_of(item_size, n);
    if bytes + ALLOC_ALIGNMENT > usize::MAX {
        n
    } else {
        spec_capacity_of(item_size, spec_align_up(bytes, ALLOC_ALIGNMENT as nat))
    }
}

/// The bytes that growth to `n` elements allocates: half as much again
/// rounded up to a power of two while the allocation is small, the next
/// multiple of the growth limit once it is large.
pub open spec fn spec_growing_size(item_size: nat, n: nat) -> nat {
    let bytes = spec_size_of(item_size, n);
    if bytes < ALLOC_GROW_LIMIT {
        let grown = spec_next_power_of_two(bytes + bytes / 2);
        if grown < ALLOC_HINT {
            ALLOC_HINT as nat
        } else {
            grown
        }
    } else if bytes + ALLOC_GROW_LIMIT > usize::MAX {
        bytes
    } else {
        spec_align_up(bytes, ALLOC_GROW_LIMIT as nat)
    }
}

/// The capacity that growth to `n` elements reserves.
pub open spec fn spec_growing_capacity(item_size: nat, n: nat) -> nat {
    spec_capacity_of(item_size, spec_growing_size(item_size, n))
}

/// The capacity of an allocation that must hold `required` elements: the
/// one it has where that is enough, else the growing or the fitting
/// capacity for `required`.
pub open spec fn spec_planned_capacity(
    item_size: nat,
    capacity: nat,
    required: nat,
    growing: bool,
) -> nat {
    if required <= capacity {
        capacity
    } else if growing {
        spec_growing_capacity(item_size, required)
    } else {
        spec_fitting_capacity(item_size, required)
    }
}

/// A capacity within the limit of its shape takes fewer bytes than the
/// address space has.
pub proof fn lemma_size_of_bounded(item_size: nat, n: nat)
    requires
        item_size > 0,
        n <= spec_max_capacity(item_size),
    ensures
        spec_size_of(item_size, n) <= usize::MAX,
{
    let room = (usize::MAX - IMPL_HEADER_SIZE) as int;
    let d = item_size as int;
    lemma_fundamental_div_mod(room, d);
    lemma_mul_inequality(n as int, room / d, d);
    assert(d * (room / d) == (room / d) * d) by (nonlinear_arith);
    assert(n * item_size == (n as int) * d);
}

/// An allocation of at least the bytes that `n` elements need, and no
/// larger than the address space, holds between `n` elements and the
/// limit of the shape.
pub proof fn lemma_capacity_of_bounded(item_size: nat, n: nat, bytes: nat)
    requires
        item_size > 0,
        spec_size_of(item_size, n) <= bytes <= usize::MAX,
    ensures
        n <= spec_capacity_of(item_size, bytes) <= spec_max_capacity(item_size),
{
    let d = item_size as int;
    let payload = bytes - IMPL_HEADER_SIZE;
    lemma_div_by_multiple(n as int, d);
    assert(n * item_size == (n as int) * d);
    lemma_div_is_ordered((n as int) * d, payload, d);
    lemma_div_is_ordered(payload, usize::MAX - IMPL_HEADER_SIZE, d);
}

/// Doubling a power of two that is still below `x` does not change which
/// power of two the search from it finds, and every power it finds is at
/// least `x`, below twice `x`, and a power of two.
pub proof fn lemma_power_of_two_from(x: nat, p: nat)
    requires
        is_power_of_two(p),
        p == 1 || p / 2 < x,
    ensures
        is_power_of_two(spec_power_of_two_from(x, p)),
        spec_power_of_two_from(x, p) >= x,
        spec_power_of_two_from(x, p) == 1 || spec_power_of_two_from(x, p) / 2 < x,
    decreases (if p < x { x - p } else { 0 }),
{
    if 0 < p < x {
        assert(is_power_of_two(p + p)) by {
            assert((p + p) / 2 == p);
        }
        lemma_power_of_two_from(x, p + p);
    }
}

/// Rounds `x` up to a multiple of `alignment`.
pub fn align_up(x: usize, alignment: usize) -> (r: usize)
    requires
        alignment > 0,
        x + alignment <= usize::MAX,
    ensures
        r == spec_align_up(x as nat, alignment as nat),
        x <= r < x + alignment,
{
    let rem: usize = x % alignment;
    if rem == 0 {
        x
    } else {
        x + (alignment - rem)
    }
}

/// The least power of two that is at least `x`.
pub fn next_power_of_two(x: usize) -> (r: usize)
    requires
        x <= usize::MAX / 2 + 1,
    ensures
        r == spec_next_power_of_two(x as nat),
        is_power_of_two(r as nat),
        r >= x,
        r == 1 || r / 2 < x,
{
    let mut p: usize = 1;
    while p < x
        invariant
            x <= usize::MAX / 2 + 1,
            1 <= p,
            is_power_of_two(p as nat),
            p == 1 || p / 2 < x,
            spec_power_of_two_from(x as nat, p as nat) == spec_next_power_of_two(x as nat),
        decreases (if p < x { x - p } else { 0 }),
    {
        proof {
            assert(is_power_of_two((p + p) as nat)) by {
                assert((p + p) / 2 == p);
            }
        }
        p = p + p;
    }
    p
}

/// The largest capacity an array of `item_size`-byte elements can have.
pub fn max_capacity(item_size: usize) -> (r: usize)
    requires
        item_size > 0,
    ensures
        r == spec_max_capacity(item_size as nat),
{
    (usize::MAX - IMPL_HEADER_SIZE) / item_size
}

/// The capacity of the smallest aligned allocation that holds `n` elements.
pub fn fitting_capacity(item_size: usize, n: usize) -> (r: usize)
    requires
        item_size > 0,
        n <= spec_max_capacity(item_size as nat),
    ensures
        r == spec_fitting_capacity(item_size as nat, n as nat),
        n <= r <= spec_max_capacity(item_size as nat),
{
    proof {
        lemma_size_of_bounded(item_size as nat, n as nat);
    }
    let bytes: usize = IMPL_HEADER_SIZE + n * item_size;
    if bytes > usize::MAX - ALLOC_ALIGNMENT {
        n
    } else {
        let aligned = align_up(bytes, ALLOC_ALIGNMENT);
        proof {
            lemma_capacity_of_bounded(item_size as nat, n as nat, aligned as nat);
        }
        (aligned - IMPL_HEADER_SIZE) / item_size
    }
}

/// The capacity that growth to `n` elements reserves.
pub fn growing_capacity(item_size: usize, n: usize) -> (r: usize)
    requires
        item_size > 0,
        n <= spec_max_capacity(item_size as nat),
    ensures
        r == spec_growing_capacity(item_size as nat, n as nat),
        n <= r <= spec_max_capacity(item_size as nat),
{
    proof {
        lemma_size_of_bounded(item_size as nat, n as nat);
    }
    let bytes: usize = IMPL_HEADER_SIZE + n * item_size;
    let size: usize = if bytes < ALLOC_GROW_LIMIT {
        let grown = next_power_of_two(bytes + bytes / 2);
        if grown < ALLOC_HINT {
            ALLOC_HINT
        } else {
            grown
        }
    } else if bytes > usize::MAX - ALLOC_GROW_LIMIT {
        bytes
    } else {
        align_up(bytes, ALLOC_GROW_LIMIT)
    };
    proof {
        lemma_capacity_of_bounded(item_size as nat, n as nat, size as nat);
    }
    (size - IMPL_HEADER_SIZE) / item_size
}

/// A planned capacity holds what was required of it and stays within the
/// limit of the shape.
pub proof fn lemma_planned_capacity_bounded(
    item_size: nat,
    capacity: nat,
    required: nat,
    growing: bool,
)
    requires
        0 < item_size,
        capacity <= spec_max_capacity(item_size),
        required <= spec_max_capacity(item_size),
    ensures
        required <= spec_planned_capacity(item_size, capacity, required, growing)
            <= spec_max_capacity(item_size),
{
    lemma_size_of_bounded(item_size, required);
    let bytes = spec_size_of(item_size, required);
    if required > capacity {
        if growing {
            if bytes < ALLOC_GROW_LIMIT {
                lemma_power_of_two_from((bytes + bytes / 2) as nat, 1);
                assert(spec_next_power_of_two((bytes + bytes / 2) as nat) <= 2 * (bytes + bytes
                    / 2));
            }
            lemma_capacity_of_bounded(item_size, required, spec_growing_size(item_size, required));
        } else if bytes + ALLOC_ALIGNMENT <= usize::MAX {
            lemma_capacity_of_bounded(
                item_size,
                required,
                spec_align_up(bytes, ALLOC_ALIGNMENT as nat),
            );
        }
    }
}

} // verus!
