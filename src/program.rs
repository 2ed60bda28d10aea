use vstd::prelude::*;

use crate::commbus::BusOp;
use crate::register::{spec_axis_mask, spec_datarate_field, spec_range_field, DataRate, Range};
use crate::Error;

verus! {

/// A field of a control register that a read-modify-write replaces.
#[derive(Copy, Clone, Debug, PartialEq, Eq, Structural)]
pub enum Field {
    /// The data-rate field of CTRL_REG4.
    Rate(DataRate),
    /// The full-scale field of CTRL_REG5, with 4-wire serial mode forced.
    Scale(Range),
    /// The axis-enable bits of CTRL_REG4 (x, y, z).
    Axes(bool, bool, bool),
}

impl Field {
    /// The register value after the field is replaced in `v`.
    pub open spec fn apply(self, v: u8) -> u8 {
        match self {
            Field::Rate(rate) => spec_datarate_field(v, rate),
            Field::Scale(range) => spec_range_field(v, range),
            Field::Axes(x, y, z) => spec_axis_mask(v, x, y, z),
        }
    }
}

/// One step of a register program.
#[derive(Copy, Clone, Debug, PartialEq, Eq, Structural)]
pub enum Step {
    /// Write a value with the given command byte.
    Write(u8, u8),
    /// Read with the given command byte; any value but the expected one ends
    /// the program with `WrongAddress`.
    Expect(u8, u8),
    /// Read with the first command byte, then write the value with the field
    /// replaced using the second.
    Update(u8, u8, Field),
}

/// `ops` are the transactions of running `steps` in order, stopping at the
/// first failure, and `r` is the outcome.
pub open spec fn runs<E, P>(steps: Seq<Step>, ops: Seq<BusOp<Error<E, P>>>, r: Result<(), Error<E, P>>) -> bool
    decreases steps.len(),
{
    if steps.len() == 0 {
        ops.len() == 0 && r is Ok
    } else {
        let rest = steps.drop_first();
        ops.len() > 0 && match steps[0] {
            Step::Write(cmd, value) => match ops[0] {
                BusOp::Write(c, v, res) => c == cmd && v == value && match res {
                    Err(e) => ops.len() == 1 && r == Err::<(), Error<E, P>>(e),
                    Ok(_) => runs(rest, ops.drop_first(), r),
                },
                _ => false,
            },
            Step::Expect(cmd, want) => match ops[0] {
                BusOp::Read(c, res) => c == cmd && match res {
                    Err(e) => ops.len() == 1 && r == Err::<(), Error<E, P>>(e),
                    Ok(v) => if v == want {
                        runs(rest, ops.drop_first(), r)
                    } else {
                        ops.len() == 1 && r == Err::<(), Error<E, P>>(Error::WrongAddress)
                    },
                },
                _ => false,
            },
            Step::Update(read_cmd, write_cmd, field) => match ops[0] {
                BusOp::Read(c, res) => c == read_cmd && match res {
                    Err(e) => ops.len() == 1 && r == Err::<(), Error<E, P>>(e),
                    Ok(v) => ops.len() > 1 && match ops[1] {
                        BusOp::Write(c2, w, res2) => c2 == write_cmd && w == field.apply(v) && match res2 {
                            Err(e) => ops.len() == 2 && r == Err::<(), Error<E, P>>(e),
                            Ok(_) => runs(rest, ops.skip(2), r),
                        },
                        _ => false,
                    },
                },
                _ => false,
            },
        }
    }
}

/// Going from history `h0` to history `h1` ran `steps` with outcome `r`.
pub open spec fn performs<E, P>(
    h0: Seq<BusOp<Error<E, P>>>,
    h1: Seq<BusOp<Error<E, P>>>,
    steps: Seq<Step>,
    r: Result<(), Error<E, P>>,
) -> bool {
    &&& h0.is_prefix_of(h1)
    &&& runs(steps, h1.skip(h0.len() as int), r)
}

/// Running two programs one after the other, the first without failure, runs
/// their concatenation.
pub proof fn lemma_runs_append<E, P>(
    s1: Seq<Step>,
    s2: Seq<Step>,
    o1: Seq<BusOp<Error<E, P>>>,
    o2: Seq<BusOp<Error<E, P>>>,
    r1: Result<(), Error<E, P>>,
    r2: Result<(), Error<E, P>>,
)
    requires
        runs(s1, o1, r1),
        r1 is Ok,
        runs(s2, o2, r2),
    ensures
        runs(s1 + s2, o1 + o2, r2),
    decreases s1.len(),
{
    if s1.len() == 0 {
        assert(s1 + s2 =~= s2);
        assert(o1 + o2 =~= o2);
    } else {
        assert((s1 + s2).drop_first() =~= s1.drop_first() + s2);
        assert((s1 + s2)[0] == s1[0]);
        assert((o1 + o2)[0] == o1[0]);
        match s1[0] {
            Step::Update(_, _, _) => {
                assert((o1 + o2)[1] == o1[1]);
                assert((o1 + o2).skip(2) =~= o1.skip(2) + o2);
                lemma_runs_append(s1.drop_first(), s2, o1.skip(2), o2, r1, r2);
            },
            _ => {
                assert((o1 + o2).drop_first() =~= o1.drop_first() + o2);
                lemma_runs_append(s1.drop_first(), s2, o1.drop_first(), o2, r1, r2);
            },
        }
    }
}

/// A program that failed fails in the same way with more steps after it.
pub proof fn lemma_runs_stop<E, P>(
    s1: Seq<Step>,
    s2: Seq<Step>,
    o1: Seq<BusOp<Error<E, P>>>,
    r: Result<(), Error<E, P>>,
)
    requires
        runs(s1, o1, r),
        r is Err,
    ensures
        runs(s1 + s2, o1, r),
    decreases s1.len(),
{
    assert(s1.len() > 0);
    assert((s1 + s2).drop_first() =~= s1.drop_first() + s2);
    assert((s1 + s2)[0] == s1[0]);
    match s1[0] {
        Step::Write(_, _) => {
            if o1[0] matches BusOp::Write(_, _, Ok(_)) {
                lemma_runs_stop(s1.drop_first(), s2, o1.drop_first(), r);
            }
        },
        Step::Expect(_, want) => {
            if o1[0] matches BusOp::Read(_, Ok(v)) && v == want {
                lemma_runs_stop(s1.drop_first(), s2, o1.drop_first(), r);
            }
        },
        Step::Update(_, _, _) => {
            if o1[0] matches BusOp::Read(_, Ok(_)) && o1[1] matches BusOp::Write(_, _, Ok(_)) {
                lemma_runs_stop(s1.drop_first(), s2, o1.skip(2), r);
            }
        },
    }
}

/// Which successful outcome a run ends with does not matter.
pub proof fn lemma_runs_ok<E, P>(
    steps: Seq<Step>,
    ops: Seq<BusOp<Error<E, P>>>,
    r1: Result<(), Error<E, P>>,
    r2: Result<(), Error<E, P>>,
)
    requires
        runs(steps, ops, r1),
        r1 is Ok,
        r2 is Ok,
    ensures
        runs(steps, ops, r2),
    decreases steps.len(),
{
    if steps.len() > 0 {
        match steps[0] {
            Step::Update(_, _, _) => lemma_runs_ok(steps.drop_first(), ops.skip(2), r1, r2),
            _ => lemma_runs_ok(steps.drop_first(), ops.drop_first(), r1, r2),
        }
    }
}

/// Performing one program and then another, the first without failure,
/// performs their concatenation.
pub proof fn lemma_performs_then<E, P>(
    h0: Seq<BusOp<Error<E, P>>>,
    h1: Seq<BusOp<Error<E, P>>>,
    h2: Seq<BusOp<Error<E, P>>>,
    s1: Seq<Step>,
    s2: Seq<Step>,
    r1: Result<(), Error<E, P>>,
    r2: Result<(), Error<E, P>>,
)
    requires
        performs(h0, h1, s1, r1),
        r1 is Ok,
        performs(h1, h2, s2, r2),
    ensures
        performs(h0, h2, s1 + s2, r2),
{
    assert(h2.skip(h0.len() as int) =~= h1.skip(h0.len() as int) + h2.skip(h1.len() as int));
    lemma_runs_append(s1, s2, h1.skip(h0.len() as int), h2.skip(h1.len() as int), r1, r2);
}

/// A program performed with failure is also a failed performance of any
/// longer program that starts with it.
pub proof fn lemma_performs_stop<E, P>(
    h0: Seq<BusOp<Error<E, P>>>,
    h1: Seq<BusOp<Error<E, P>>>,
    s1: Seq<Step>,
    s2: Seq<Step>,
    r: Result<(), Error<E, P>>,
)
    requires
        performs(h0, h1, s1, r),
        r is Err,
    ensures
        performs(h0, h1, s1 + s2, r),
{
    lemma_runs_stop(s1, s2, h1.skip(h0.len() as int), r);
}

} // verus!
