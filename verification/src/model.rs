//! The mathematical model of a device's stored state.
//!
//! A device's contents are a sequence of bytes of length `capacity`. The
//! erase units partition the contents: unit `u` covers the bytes
//! `[u * erase_size, (u + 1) * erase_size)`. For each unit the model keeps
//! the number of writes it has seen since it was last erased; a write whose
//! touched units are all within the behavior's write budget has the exact
//! combined result, one beyond the budget leaves the touched units
//! unspecified, exactly as the hardware does.

use vstd::arithmetic::div_mod::lemma_div_is_ordered;
use vstd::arithmetic::div_mod::lemma_fundamental_div_mod;
use vstd::arithmetic::div_mod::lemma_fundamental_div_mod_converse;
use vstd::prelude::*;

use crate::behavior::and_combining;
use crate::behavior::combine_byte;
use crate::behavior::within_budget;
use crate::behavior::WriteBehavior;
use crate::profile::erase_args_ok;

verus! {

/// The contents after a write of `data` at `offset` takes effect within the
/// write budget: each addressed byte combines per the behavior, every other
/// byte keeps its value.
pub open spec fn write_result(b: WriteBehavior, stored: Seq<u8>, offset: int, data: Seq<u8>) -> Seq<u8> {
    Seq::new(
        stored.len(),
        |i: int|
            if offset <= i < offset + data.len() {
                combine_byte(b, stored[i], data[i - offset])
            } else {
                stored[i]
            },
    )
}

/// The contents after a successful erase of `[from, to)`: every byte of the
/// range holds the erase value, every other byte keeps its value.
pub open spec fn erase_result(stored: Seq<u8>, from: int, to: int, erase_value: u8) -> Seq<u8> {
    Seq::new(stored.len(), |i: int| if from <= i < to { erase_value } else { stored[i] })
}

/// Whether erase unit `u` holds at least one byte of the range
/// `[offset, offset + len)`.
pub open spec fn unit_touched(es: nat, offset: int, len: nat, u: int) -> bool {
    len > 0 && offset / es as int <= u <= (offset + len - 1) / es as int
}

/// The per-unit write counts after a write at `offset` of `len` bytes: each
/// touched unit has seen one write more.
pub open spec fn bump_counts(counts: Seq<nat>, es: nat, offset: int, len: nat) -> Seq<nat> {
    Seq::new(
        counts.len(),
        |u: int|
            if unit_touched(es, offset, len, u) {
                (counts[u] + 1) as nat
            } else {
                counts[u]
            },
    )
}

/// The per-unit write counts after an erase of the units `[lo, hi)`: an
/// erased unit has seen no write since.
pub open spec fn reset_counts(counts: Seq<nat>, lo: int, hi: int) -> Seq<nat> {
    Seq::new(counts.len(), |u: int| if lo <= u < hi { 0nat } else { counts[u] })
}

/// Every erase unit that has seen no write since its last erase still holds
/// the erase value in each of its bytes.
pub open spec fn erased_units_hold(contents: Seq<u8>, counts: Seq<nat>, es: nat, ev: u8) -> bool {
    forall|u: int, i: int|
        0 <= u < counts.len() && #[trigger] counts[u] == 0 && u * es <= i < (u + 1) * es && 0 <= i
            < contents.len() ==> #[trigger] contents[i] == ev
}

/// Whether a write of `data` at `offset` stays within the behavior's write
/// budget on every erase unit it touches (and, for a behavior whose second
/// write must be all zeroes, whether the data obeys that too).
pub open spec fn write_legal(
    b: WriteBehavior,
    counts: Seq<nat>,
    es: nat,
    offset: int,
    data: Seq<u8>,
) -> bool {
    &&& forall|u: int|
        0 <= u < counts.len() && #[trigger] unit_touched(es, offset, data.len(), u)
            ==> within_budget(b, counts[u])
    &&& (b is TwiceSecondZero && (exists|u: int|
        0 <= u < counts.len() && #[trigger] unit_touched(es, offset, data.len(), u) && counts[u]
            == 1) ==> forall|i: int| 0 <= i < data.len() ==> data[i] == 0)
}

/// A byte addressed by a write lies in one of the touched erase units.
pub proof fn lemma_written_byte_unit_touched(es: nat, offset: int, len: nat, i: int)
    requires
        es > 0,
        0 <= offset,
        offset <= i < offset + len,
    ensures
        unit_touched(es, offset, len, i / es as int),
{
    lemma_div_is_ordered(offset, i, es as int);
    lemma_div_is_ordered(i, offset + len - 1, es as int);
}

/// A byte of erase unit `u` has `u` as its unit index.
pub proof fn lemma_unit_of_byte(es: nat, u: int, i: int)
    requires
        es > 0,
        u * es <= i < (u + 1) * es,
    ensures
        i / es as int == u,
{
    assert((u + 1) * es == u * es + es) by (nonlinear_arith);
    lemma_fundamental_div_mod_converse(i, es as int, u, i - u * es);
}

/// Every byte of an aligned range `[from, to)` lies in one of the units
/// `[from / es, to / es)`.
pub proof fn lemma_aligned_range_units(es: nat, from: int, to: int, i: int)
    requires
        es > 0,
        from % es as int == 0,
        to % es as int == 0,
        0 <= from <= i < to,
    ensures
        from / (es as int) <= i / (es as int),
        i / (es as int) < to / (es as int),
{
    lemma_div_is_ordered(from, i, es as int);
    lemma_div_is_ordered(i, to - 1, es as int);
    lemma_fundamental_div_mod(to, es as int);
    let q = to / (es as int);
    assert((q - 1) * (es as int) + ((es as int) - 1) == (es as int) * q - 1) by (nonlinear_arith);
    lemma_fundamental_div_mod_converse(to - 1, es as int, q - 1, es as int - 1);
}

/// Every byte of a unit of `[from / es, to / es)` lies in the aligned range
/// `[from, to)`.
pub proof fn lemma_unit_within_aligned_range(es: nat, from: int, to: int, u: int)
    requires
        es > 0,
        from % es as int == 0,
        to % es as int == 0,
        0 <= from <= to,
        from / es as int <= u < to / es as int,
    ensures
        from <= u * es,
        (u + 1) * es <= to,
{
    lemma_fundamental_div_mod(from, es as int);
    lemma_fundamental_div_mod(to, es as int);
    assert(from == (from / es as int) * es && to == (to / es as int) * es ==> from <= u * es && (u
        + 1) * es <= to) by (nonlinear_arith)
        requires
            es > 0,
            from / es as int <= u < to / es as int,
    ;
}

/// A byte index below `k * es` lies in one of the units `[0, k)`.
pub proof fn lemma_unit_index_bounds(es: nat, k: nat, i: int)
    requires
        es > 0,
        0 <= i < k * es,
    ensures
        0 <= i / (es as int) < k,
{
    lemma_div_is_ordered(0, i, es as int);
    lemma_div_is_ordered(i, k * es - 1, es as int);
    assert((k - 1) * (es as int) + ((es as int) - 1) == k * es - 1) by (nonlinear_arith);
    lemma_fundamental_div_mod_converse(k * es - 1, es as int, k as int - 1, es as int - 1);
}

/// Every byte lies between the bounds of its own erase unit.
pub proof fn lemma_byte_in_own_unit(es: nat, i: int)
    requires
        es > 0,
        0 <= i,
    ensures
        (i / (es as int)) * es <= i < (i / (es as int) + 1) * es,
{
    lemma_fundamental_div_mod(i, es as int);
    let q = i / (es as int);
    assert(q * (es as int) == (es as int) * q && (q + 1) * (es as int) == (es as int) * q + es) by (nonlinear_arith);
}

/// Round trip. The first write after an erase reads back exactly the bytes
/// written, for every behavior, provided an AND-combining medium erases to
/// all ones: over a freshly erased range the write result restricted to the
/// written range is the written data itself.
pub proof fn lemma_first_write_round_trip(
    b: WriteBehavior,
    ev: u8,
    stored: Seq<u8>,
    offset: int,
    data: Seq<u8>,
)
    requires
        0 <= offset,
        offset + data.len() <= stored.len(),
        forall|i: int| offset <= i < offset + data.len() ==> #[trigger] stored[i] == ev,
        and_combining(b) ==> ev == 0xff,
    ensures
        write_result(b, stored, offset, data).subrange(offset, offset + data.len()) == data,
{
    assert forall|i: int| 0 <= i < data.len() implies write_result(b, stored, offset, data)[offset
        + i] == data[i] by {
        if and_combining(b) {
            let d = data[i];
            assert(0xffu8 & d == d) by (bit_vector);
        }
    }
    assert(write_result(b, stored, offset, data).subrange(offset, offset + data.len()) =~= data);
}

/// AND-combining. For an AND-combining behavior over a freshly erased range
/// that holds all ones, two writes at the same offset leave the bytewise AND
/// of the two written values.
pub proof fn lemma_and_combining_writes(
    b: WriteBehavior,
    stored: Seq<u8>,
    offset: int,
    first: Seq<u8>,
    second: Seq<u8>,
)
    requires
        and_combining(b),
        first.len() == second.len(),
        0 <= offset,
        offset + first.len() <= stored.len(),
        forall|i: int| offset <= i < offset + first.len() ==> #[trigger] stored[i] == 0xff,
    ensures
        write_result(b, write_result(b, stored, offset, first), offset, second).subrange(
            offset,
            offset + first.len(),
        ) == Seq::new(first.len(), |i: int| first[i] & second[i]),
{
    let once = write_result(b, stored, offset, first);
    let twice = write_result(b, once, offset, second);
    assert forall|i: int| 0 <= i < first.len() implies twice[offset + i] == first[i] & second[i] by {
        let a = first[i];
        let d = second[i];
        assert((0xffu8 & a) & d == a & d) by (bit_vector);
    }
    assert(twice.subrange(offset, offset + first.len()) =~= Seq::new(
        first.len(),
        |i: int| first[i] & second[i],
    ));
}

/// Every erase unit touched by a write within `[from, to)` is one of the
/// units that an erase of `[from, to)` covers.
pub proof fn lemma_touched_units_within_erased_range(
    es: nat,
    from: u32,
    to: u32,
    offset: u32,
    len: nat,
    u: int,
)
    requires
        es > 0,
        from as int % (es as int) == 0,
        to as int % (es as int) == 0,
        from <= offset,
        offset + len <= to,
        unit_touched(es, offset as int, len, u),
    ensures
        from as int / (es as int) <= u,
        u < to as int / (es as int),
{
    lemma_div_is_ordered(from as int, offset as int, es as int);
    lemma_div_is_ordered(offset + len - 1, to as int - 1, es as int);
    lemma_fundamental_div_mod(to as int, es as int);
    let q = to as int / (es as int);
    assert((q - 1) * (es as int) + ((es as int) - 1) == (es as int) * q - 1) by (nonlinear_arith);
    lemma_fundamental_div_mod_converse(to as int - 1, es as int, q - 1, es as int - 1);
}

/// Erase restores the write budget. After a successful erase of `[from, to)`,
/// a write anywhere within the erased range is within every behavior's write
/// budget, and — provided an AND-combining medium erases to all ones — it
/// reads back exactly the bytes written.
pub proof fn lemma_erase_enables_round_trip(
    b: WriteBehavior,
    ev: u8,
    contents: Seq<u8>,
    counts: Seq<nat>,
    es: nat,
    from: u32,
    to: u32,
    offset: u32,
    data: Seq<u8>,
)
    requires
        es > 0,
        counts.len() * es == contents.len(),
        erase_args_ok(es, contents.len(), from, to),
        from <= offset,
        offset + data.len() <= to,
        and_combining(b) ==> ev == 0xff,
    ensures
        write_legal(
            b,
            reset_counts(counts, from as int / (es as int), to as int / (es as int)),
            es,
            offset as int,
            data,
        ),
        write_result(
            b,
            erase_result(contents, from as int, to as int, ev),
            offset as int,
            data,
        ).subrange(offset as int, offset + data.len()) == data,
{
    let rc = reset_counts(counts, from as int / (es as int), to as int / (es as int));
    assert forall|u: int|
        0 <= u < rc.len() && #[trigger] unit_touched(es, offset as int, data.len(), u) implies rc[u]
        == 0 by {
        lemma_touched_units_within_erased_range(es, from, to, offset, data.len(), u);
    }
    assert forall|u: int|
        0 <= u < rc.len() && #[trigger] unit_touched(es, offset as int, data.len(), u) implies
    within_budget(b, rc[u]) by {
    }
    lemma_first_write_round_trip(
        b,
        ev,
        erase_result(contents, from as int, to as int, ev),
        offset as int,
        data,
    );
}

/// Erase then two AND-combining writes. After a successful erase of
/// `[from, to)` on a medium that erases to all ones, a write of `first` and
/// then a write of `second` at the same offset within the erased range are
/// both within the budget of `TwiceAnd` (and of `InfiniteAnd`), and what
/// reads back is the bytewise AND of the two written values.
pub proof fn lemma_erase_enables_and_combining(
    b: WriteBehavior,
    contents: Seq<u8>,
    counts: Seq<nat>,
    es: nat,
    from: u32,
    to: u32,
    offset: u32,
    first: Seq<u8>,
    second: Seq<u8>,
)
    requires
        es > 0,
        counts.len() * es == contents.len(),
        erase_args_ok(es, contents.len(), from, to),
        from <= offset,
        offset + first.len() <= to,
        first.len() == second.len(),
        and_combining(b),
    ensures
        write_legal(
            b,
            reset_counts(counts, from as int / (es as int), to as int / (es as int)),
            es,
            offset as int,
            first,
        ),
        write_legal(
            b,
            bump_counts(
                reset_counts(counts, from as int / (es as int), to as int / (es as int)),
                es,
                offset as int,
                first.len(),
            ),
            es,
            offset as int,
            second,
        ),
        write_result(
            b,
            write_result(
                b,
                erase_result(contents, from as int, to as int, 0xff),
                offset as int,
                first,
            ),
            offset as int,
            second,
        ).subrange(offset as int, offset + first.len()) == Seq::new(
            first.len(),
            |i: int| first[i] & second[i],
        ),
{
    lemma_erase_enables_round_trip(b, 0xff, contents, counts, es, from, to, offset, first);
    let rc = reset_counts(counts, from as int / (es as int), to as int / (es as int));
    let bc = bump_counts(rc, es, offset as int, first.len());
    assert forall|u: int|
        0 <= u < bc.len() && #[trigger] unit_touched(es, offset as int, second.len(), u) implies
    within_budget(b, bc[u]) by {
        lemma_touched_units_within_erased_range(es, from, to, offset, second.len(), u);
        assert(rc[u] == 0);
        assert(bc[u] <= 1);
    }
    lemma_and_combining_writes(
        b,
        erase_result(contents, from as int, to as int, 0xff),
        offset as int,
        first,
        second,
    );
}

/// Capacity is invariant. Neither a write nor an erase changes the length of
/// the contents, so `capacity` returns the same value on every call on one
/// instance, however many operations come between.
pub proof fn lemma_operations_preserve_capacity(
    b: WriteBehavior,
    stored: Seq<u8>,
    offset: int,
    data: Seq<u8>,
    from: int,
    to: int,
    ev: u8,
)
    ensures
        write_result(b, stored, offset, data).len() == stored.len(),
        erase_result(stored, from, to, ev).len() == stored.len(),
{
}

/// Erase reads back. After a successful erase of `[from, to)`, reading the
/// erased range returns nothing but the erase value.
pub proof fn lemma_erase_reads_back(stored: Seq<u8>, from: int, to: int, ev: u8)
    requires
        0 <= from <= to <= stored.len(),
    ensures
        erase_result(stored, from, to, ev).subrange(from, to) == Seq::new((to - from) as nat, |i: int| ev),
{
    assert(erase_result(stored, from, to, ev).subrange(from, to) =~= Seq::new(
        (to - from) as nat,
        |i: int| ev,
    ));
}

} // verus!
