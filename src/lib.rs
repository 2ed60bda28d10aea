use vstd::prelude::*;

pub mod commbus;
pub mod program;
pub mod register;

use crate::commbus::{BusOp, CommBus};
use crate::program::{
    lemma_performs_stop, lemma_performs_then, lemma_runs_ok, performs, runs, Field, Step,
};
use crate::register::{
    datarate_code, decode_raw_sample, encode_axis_mask, encode_datarate, encode_range, le_i16,
    lemma_axis_mask, lemma_fields_read_back, range_code, DataRate, DataStatus, Range, RawSample,
    Register, AXIS_MASK, BDU, DEVICE_ID, FS_MASK, FS_OFFSET, ODR_MASK, ODR_OFFSET, SIM, STRESET,
    ZYXDA,
};

verus! {

#[derive(Debug)]
pub enum Error<E, PinError> {
    /// Communication error
    CommErr(E),
    /// Pin error
    PinError(PinError),
    /// Invalid data rate selection
    InvalidDataRate,
    /// Invalid operating mode selection
    InvalidMode,
    /// Invalid full-scale selection
    InvalidRange,
    /// Attempted to write to a read-only register
    WriteToReadOnly,
    /// Invalid address provided
    WrongAddress,
    /// Methods not implemented
    NotImplemented,
}

/// A blocking delay.
pub trait DelayMs {
    /// The waits made so far, in milliseconds, oldest first. An
    /// implementation outside verified code may leave this as it is.
    closed spec fn waits(&self) -> Seq<u8> {
        Seq::empty()
    }

    /// Blocks for `ms` milliseconds.
    fn delay_ms(&mut self, ms: u8)
        ensures
            final(self).waits() == old(self).waits().push(ms),
    ;
}

/// Milliseconds the device is given to settle after each reset write.
pub const RESET_SETTLE_MS: u8 = 5;

/// Read-modify-write of CTRL_REG4 that sets the data rate.
pub open spec fn rate_step(rate: DataRate) -> Step {
    Step::Update(Register::CTRL_REG4.spec_read(), Register::CTRL_REG4.spec_write(), Field::Rate(rate))
}

/// Read-modify-write of CTRL_REG5 that sets the full scale and 4-wire mode.
pub open spec fn range_step(range: Range) -> Step {
    Step::Update(Register::CTRL_REG5.spec_read(), Register::CTRL_REG5.spec_write(), Field::Scale(range))
}

/// Read-modify-write of CTRL_REG4 that enables the requested axes.
pub open spec fn axes_step(x: bool, y: bool, z: bool) -> Step {
    Step::Update(Register::CTRL_REG4.spec_read(), Register::CTRL_REG4.spec_write(), Field::Axes(x, y, z))
}

/// The initialization sequence: soft reset, leave reset, clear CTRL_REG5,
/// enable block data update, check the identity, then 100 Hz, ±8g and all
/// three axes.
pub open spec fn init_steps() -> Seq<Step> {
    seq![
        Step::Write(Register::CTRL_REG3.spec_write(), STRESET),
        Step::Write(Register::CTRL_REG3.spec_write(), 0),
        Step::Write(Register::CTRL_REG5.spec_write(), 0),
        Step::Write(Register::CTRL_REG4.spec_write(), BDU),
        Step::Expect(Register::WHOAMI.spec_read(), DEVICE_ID),
        rate_step(DataRate::Hz_100),
        range_step(Range::G8),
        axes_step(true, true, true),
    ]
}

/// The waits of an initialization that made `n` transactions: one after the
/// first write and one after the second, each only when that write succeeded,
/// which is when a further transaction followed it.
pub open spec fn init_waits(n: int) -> Seq<u8> {
    if n >= 3 {
        seq![RESET_SETTLE_MS, RESET_SETTLE_MS]
    } else if n == 2 {
        seq![RESET_SETTLE_MS]
    } else {
        Seq::empty()
    }
}

/// The control register selected by its number, 1 to 6.
pub open spec fn ctrl_register(reg: u8) -> Option<Register> {
    if reg == 1 {
        Some(Register::CTRL_REG1)
    } else if reg == 2 {
        Some(Register::CTRL_REG2)
    } else if reg == 3 {
        Some(Register::CTRL_REG3)
    } else if reg == 4 {
        Some(Register::CTRL_REG4)
    } else if reg == 5 {
        Some(Register::CTRL_REG5)
    } else if reg == 6 {
        Some(Register::CTRL_REG6)
    } else {
        None
    }
}

/// `h1` is `h0` with one more transaction, `op`.
pub open spec fn one_more<Er>(h0: Seq<BusOp<Er>>, h1: Seq<BusOp<Er>>, op: BusOp<Er>) -> bool {
    h1 == h0.push(op)
}

/// `h1` is `h0` with one more single-register read, with command `cmd`.
pub open spec fn read_appended<Er>(h0: Seq<BusOp<Er>>, h1: Seq<BusOp<Er>>, cmd: u8) -> bool {
    &&& h1.len() == h0.len() + 1
    &&& h0.is_prefix_of(h1)
    &&& h1.last() matches BusOp::Read(c, _) && c == cmd
}

/// Outcome of the last read of `h`.
pub open spec fn last_read<Er>(h: Seq<BusOp<Er>>) -> Result<u8, Er> {
    h.last()->Read_1
}

/// The data rate that a read of CTRL_REG4 reports.
pub open spec fn datarate_outcome<E, P>(res: Result<u8, Error<E, P>>) -> Result<DataRate, Error<E, P>> {
    match res {
        Err(e) => Err(e),
        Ok(v) => match DataRate::spec_from_bits(datarate_code(v)) {
            Some(rate) => Ok(rate),
            None => Err(Error::InvalidDataRate),
        },
    }
}

/// The range that a read of CTRL_REG5 reports.
pub open spec fn range_outcome<E, P>(res: Result<u8, Error<E, P>>) -> Result<Range, Error<E, P>> {
    match res {
        Err(e) => Err(e),
        Ok(v) => match Range::spec_from_bits(range_code(v)) {
            Some(range) => Ok(range),
            None => Err(Error::InvalidRange),
        },
    }
}

/// The sample that a burst read of the six output bytes reports.
pub open spec fn sample_outcome<E, P>(res: Result<(), Error<E, P>>, bytes: Seq<u8>, r: Result<RawSample, Error<E, P>>) -> bool {
    match res {
        Err(e) => r == Err::<RawSample, Error<E, P>>(e),
        Ok(_) => r matches Ok(s) && s.x as int == le_i16(bytes[0], bytes[1]) && s.y as int == le_i16(
            bytes[2],
            bytes[3],
        ) && s.z as int == le_i16(bytes[4], bytes[5]),
    }
}

/// Extends a performance of the first `k` steps of `p` by step `k`; a
/// failure there is a failed performance of the whole of `p`.
proof fn lemma_advance<E, P>(
    p: Seq<Step>,
    k: int,
    h0: Seq<BusOp<Error<E, P>>>,
    h1: Seq<BusOp<Error<E, P>>>,
    h2: Seq<BusOp<Error<E, P>>>,
    r1: Result<(), Error<E, P>>,
    r2: Result<(), Error<E, P>>,
)
    requires
        0 <= k < p.len(),
        performs(h0, h1, p.take(k), r1),
        r1 is Ok,
        performs(h1, h2, seq![p[k]], r2),
    ensures
        performs(h0, h2, p.take(k + 1), r2),
        r2 is Err ==> performs(h0, h2, p, r2),
{
    lemma_performs_then(h0, h1, h2, p.take(k), seq![p[k]], r1, r2);
    assert(p.take(k) + seq![p[k]] =~= p.take(k + 1));
    if r2 is Err {
        lemma_performs_stop(h0, h2, p.take(k + 1), p.skip(k + 1), r2);
        assert(p.take(k + 1) + p.skip(k + 1) =~= p);
    }
}

/// When the identity read of initialization returns anything but the
/// documented identity, initialization fails with `WrongAddress` and that read
/// is its last transaction.
pub proof fn lemma_init_stops_on_wrong_identity<E, P>(
    ops: Seq<BusOp<Error<E, P>>>,
    r: Result<(), Error<E, P>>,
    id: u8,
)
    requires
        runs(init_steps(), ops, r),
        ops.len() > 4,
        ops[4] == BusOp::<Error<E, P>>::Read(Register::WHOAMI.spec_read(), Ok(id)),
        id != DEVICE_ID,
    ensures
        ops.len() == 5,
        r == Err::<(), Error<E, P>>(Error::WrongAddress),
{
    let p = init_steps();
    assert(runs(p.skip(1), ops.skip(1), r)) by {
        assert(p.drop_first() =~= p.skip(1));
        assert(ops.drop_first() =~= ops.skip(1));
    }
    assert(runs(p.skip(2), ops.skip(2), r)) by {
        assert(p.skip(1).drop_first() =~= p.skip(2));
        assert(ops.skip(1).drop_first() =~= ops.skip(2));
    }
    assert(runs(p.skip(3), ops.skip(3), r)) by {
        assert(p.skip(2).drop_first() =~= p.skip(3));
        assert(ops.skip(2).drop_first() =~= ops.skip(3));
    }
    assert(runs(p.skip(4), ops.skip(4), r)) by {
        assert(p.skip(3).drop_first() =~= p.skip(4));
        assert(ops.skip(3).drop_first() =~= ops.skip(4));
    }
    assert(p.skip(4)[0] == Step::Expect(Register::WHOAMI.spec_read(), DEVICE_ID));
    assert(ops.skip(4)[0] == ops[4]);
}

/// The transaction succeeded.
pub open spec fn succeeded<Er>(op: BusOp<Er>) -> bool {
    match op {
        BusOp::Read(_, res) => res is Ok,
        BusOp::Write(_, _, res) => res is Ok,
        BusOp::Burst(_, _, res) => res is Ok,
    }
}

/// When every transaction of initialization succeeds and the identity read
/// returns the documented identity, initialization succeeds after eleven
/// transactions. Its writes then read back as 100 Hz and ±8g, 4-wire mode,
/// and all three axes enabled; the last write of CTRL_REG4 keeps the rate
/// field read just before it.
pub proof fn lemma_init_succeeds<E, P>(ops: Seq<BusOp<Error<E, P>>>, r: Result<(), Error<E, P>>)
    requires
        runs(init_steps(), ops, r),
        forall|i: int| 0 <= i < ops.len() ==> succeeded(#[trigger] ops[i]),
        ops.len() > 4 ==> (ops[4] matches BusOp::Read(_, Ok(id)) && id == DEVICE_ID),
    ensures
        r is Ok,
        ops.len() == 11,
        ops[6] matches BusOp::Write(c, v, _) && c == Register::CTRL_REG4.spec_write()
            && datarate_outcome(Ok::<u8, Error<E, P>>(v)) == Ok::<DataRate, Error<E, P>>(DataRate::Hz_100),
        ops[8] matches BusOp::Write(c, v, _) && c == Register::CTRL_REG5.spec_write()
            && range_outcome(Ok::<u8, Error<E, P>>(v)) == Ok::<Range, Error<E, P>>(Range::G8) && v & SIM == 0,
        ops[10] matches BusOp::Write(c, v, _) && c == Register::CTRL_REG4.spec_write()
            && v & AXIS_MASK == AXIS_MASK
            && datarate_code(v) == datarate_code(ops[9]->Read_1->Ok_0),
        ops[9] matches BusOp::Read(c, Ok(_)) && c == Register::CTRL_REG4.spec_read(),
{
    let p = init_steps();
    assert forall|k: int| 0 <= k < 4 && k <= ops.len() implies #[trigger] runs(p.skip(k), ops.skip(k), r)
        ==> k < ops.len() && runs(p.skip(k + 1), ops.skip(k + 1), r) by {
        if runs(p.skip(k), ops.skip(k), r) {
            assert(p.skip(k).drop_first() =~= p.skip(k + 1));
            assert(ops.skip(k).drop_first() =~= ops.skip(k + 1));
            assert(ops.skip(k)[0] == ops[k]);
            assert(succeeded(ops[k]));
        }
    }
    assert(p.skip(0) =~= p && ops.skip(0) =~= ops);
    assert(runs(p.skip(1), ops.skip(1), r));
    assert(runs(p.skip(2), ops.skip(2), r));
    assert(runs(p.skip(3), ops.skip(3), r));
    assert(runs(p.skip(4), ops.skip(4), r));
    assert(runs(p.skip(5), ops.skip(5), r)) by {
        assert(p.skip(4).drop_first() =~= p.skip(5));
        assert(ops.skip(4).drop_first() =~= ops.skip(5));
        assert(ops.skip(4)[0] == ops[4]);
    }
    assert forall|k: int, j: int| 5 <= k < 8 && j == 2 * k - 5 && j <= ops.len() implies #[trigger] runs(p.skip(k), ops.skip(j), r)
        ==> j + 2 <= ops.len() && runs(p.skip(k + 1), ops.skip(j + 2), r) by {
        if runs(p.skip(k), ops.skip(j), r) {
            assert(p.skip(k).drop_first() =~= p.skip(k + 1));
            assert(ops.skip(j).skip(2) =~= ops.skip(j + 2));
            assert(ops.skip(j)[0] == ops[j]);
            assert(succeeded(ops[j]));
            if ops.skip(j).len() > 1 {
                assert(ops.skip(j)[1] == ops[j + 1]);
                assert(succeeded(ops[j + 1]));
            }
        }
    }
    assert(runs(p.skip(6), ops.skip(7), r));
    assert(runs(p.skip(7), ops.skip(9), r));
    assert(runs(p.skip(8), ops.skip(11), r));
    assert(p.skip(8).len() == 0);
    assert(ops.skip(5)[0] == ops[5] && ops.skip(5)[1] == ops[6]);
    assert(ops.skip(7)[0] == ops[7] && ops.skip(7)[1] == ops[8]);
    assert(ops.skip(9)[0] == ops[9] && ops.skip(9)[1] == ops[10]);
    let v5 = ops[5]->Read_1->Ok_0;
    let v7 = ops[7]->Read_1->Ok_0;
    let v9 = ops[9]->Read_1->Ok_0;
    lemma_fields_read_back(v5, DataRate::Hz_100, Range::G8, true, true, true);
    lemma_fields_read_back(v7, DataRate::Hz_100, Range::G8, true, true, true);
    lemma_fields_read_back(v9, DataRate::Hz_100, Range::G8, true, true, true);
    lemma_axis_mask(v9, true, true, true);
}

pub struct LIS3DSH<CB> {
    pub(crate) commbus: CB,
}

impl<CB, E, PinError> LIS3DSH<CB> where CB: CommBus<CommError = Error<E, PinError>> {
    /// The transactions carried out on the bus so far, oldest first.
    pub closed spec fn bus_history(&self) -> Seq<BusOp<Error<E, PinError>>> {
        self.commbus.history()
    }

    /// Takes the bus without any transaction.
    pub fn new(commbus: CB) -> (r: LIS3DSH<CB>)
        ensures
            r.bus_history() == commbus.history(),
    {
        LIS3DSH { commbus }
    }

    /// Takes the bus and runs the initialization sequence; fails with the
    /// first failure of that sequence.
    pub fn new_with_interface<DELAY: DelayMs>(commbus: CB, delay: &mut DELAY) -> (r: Result<LIS3DSH<CB>, Error<E, PinError>>)
        ensures
            r matches Ok(dev) ==> performs(commbus.history(), dev.bus_history(), init_steps(), Ok(()))
                && final(delay).waits() == old(delay).waits() + init_waits(
                dev.bus_history().len() - commbus.history().len(),
            ),
            r matches Err(e) ==> exists|h: Seq<BusOp<Error<E, PinError>>>|
                #[trigger] performs(commbus.history(), h, init_steps(), Err::<(), Error<E, PinError>>(e))
                    && final(delay).waits() == old(delay).waits() + init_waits(h.len() - commbus.history().len()),
    {
        let mut x = LIS3DSH::new(commbus);
        let res = x.init(delay);
        match res {
            Ok(()) => {
                proof {
                    let h0 = commbus.history();
                    lemma_runs_ok(init_steps(), x.bus_history().skip(h0.len() as int), res, Ok(()));
                }
                Ok(x)
            },
            Err(e) => {
                assert(performs(commbus.history(), x.bus_history(), init_steps(), Err::<(), Error<E, PinError>>(e)));
                Err(e)
            },
        }
    }

    /// Writes `value` with command byte `cmd`.
    fn write_step(&mut self, cmd: u8, value: u8) -> (r: Result<(), Error<E, PinError>>)
        ensures
            performs(old(self).bus_history(), final(self).bus_history(), seq![Step::Write(cmd, value)], r),
            final(self).bus_history().len() == old(self).bus_history().len() + 1,
    {
        let ghost h0 = self.bus_history();
        let r = self.commbus.write_register(cmd, value);
        proof {
            let ops = self.bus_history().skip(h0.len() as int);
            assert(ops =~= seq![BusOp::Write(cmd, value, r)]);
            assert(h0.is_prefix_of(self.bus_history()));
            assert(seq![Step::Write(cmd, value)].drop_first() =~= Seq::<Step>::empty());
            assert(ops.drop_first() =~= Seq::<BusOp<Error<E, PinError>>>::empty());
            if r is Ok {
                assert(runs(Seq::<Step>::empty(), Seq::<BusOp<Error<E, PinError>>>::empty(), r));
            }
        }
        r
    }

    /// Runs the initialization sequence, waiting for the device to settle
    /// after each of the two reset writes.
    pub fn init<DELAY: DelayMs>(&mut self, delay: &mut DELAY) -> (r: Result<(), Error<E, PinError>>)
        ensures
            performs(old(self).bus_history(), final(self).bus_history(), init_steps(), r),
            final(delay).waits() == old(delay).waits() + init_waits(
                final(self).bus_history().len() - old(self).bus_history().len(),
            ),
    {
        let ghost w0 = delay.waits();
        let ghost p = init_steps();
        let ghost h0 = self.bus_history();
        let ghost ok: Result<(), Error<E, PinError>> = Ok(());
        assert(performs(h0, h0, p.take(0), ok)) by {
            assert(h0.skip(h0.len() as int) =~= Seq::<BusOp<Error<E, PinError>>>::empty());
        }

        let r0 = self.write_step(Register::CTRL_REG3.write(), STRESET);
        let ghost h1 = self.bus_history();
        proof { lemma_advance(p, 0, h0, h0, h1, ok, r0); }
        if r0.is_err() {
            assert(w0 + init_waits(1) =~= w0);
            return r0;
        }
        delay.delay_ms(RESET_SETTLE_MS);

        let r1 = self.write_step(Register::CTRL_REG3.write(), 0);
        let ghost h2 = self.bus_history();
        proof { lemma_advance(p, 1, h0, h1, h2, r0, r1); }
        if r1.is_err() {
            assert(w0 + init_waits(2) =~= w0.push(RESET_SETTLE_MS));
            return r1;
        }
        delay.delay_ms(RESET_SETTLE_MS);
        assert(delay.waits() =~= w0 + init_waits(3));

        let r2 = self.write_step(Register::CTRL_REG5.write(), 0);
        let ghost h3 = self.bus_history();
        proof { lemma_advance(p, 2, h0, h2, h3, r1, r2); }
        if r2.is_err() {
            return r2;
        }

        let r3 = self.write_step(Register::CTRL_REG4.write(), BDU);
        let ghost h4 = self.bus_history();
        proof { lemma_advance(p, 3, h0, h3, h4, r2, r3); }
        if r3.is_err() {
            return r3;
        }

        let id = self.get_device_id();
        let r4 = match id {
            Err(e) => Err(e),
            Ok(v) => if v != DEVICE_ID {
                Err(Error::WrongAddress)
            } else {
                Ok(())
            },
        };
        let ghost h5 = self.bus_history();
        proof {
            let ops = h5.skip(h4.len() as int);
            assert(ops =~= seq![BusOp::Read(Register::WHOAMI.spec_read(), id)]);
            assert(h4.is_prefix_of(h5));
            assert(ops.drop_first() =~= Seq::<BusOp<Error<E, PinError>>>::empty());
            assert(seq![p[4]].drop_first() =~= Seq::<Step>::empty());
            assert(p[4] == Step::Expect(Register::WHOAMI.spec_read(), DEVICE_ID));
            if r4 is Ok {
                assert(runs(Seq::<Step>::empty(), Seq::<BusOp<Error<E, PinError>>>::empty(), r4));
            }
            lemma_advance(p, 4, h0, h4, h5, r3, r4);
        }
        if r4.is_err() {
            return r4;
        }

        let r5 = self.set_datarate(DataRate::Hz_100);
        let ghost h6 = self.bus_history();
        proof { lemma_advance(p, 5, h0, h5, h6, r4, r5); }
        if r5.is_err() {
            return r5;
        }

        let r6 = self.set_range(Range::G8);
        let ghost h7 = self.bus_history();
        proof { lemma_advance(p, 6, h0, h6, h7, r5, r6); }
        if r6.is_err() {
            return r6;
        }

        let r7 = self.enable_axis((true, true, true));
        let ghost h8 = self.bus_history();
        proof {
            lemma_advance(p, 7, h0, h7, h8, r6, r7);
            assert(p.take(8) =~= p);
        }
        r7
    }

    /// `WHO_AM_I` register.
    pub fn get_device_id(&mut self) -> (r: Result<u8, Error<E, PinError>>)
        ensures
            one_more(old(self).bus_history(), final(self).bus_history(), BusOp::Read(Register::WHOAMI.spec_read(), r)),
    {
        self.commbus.read_register(Register::WHOAMI.read())
    }

    /// Reads control register `reg`, numbered 1 to 6; any other number is
    /// refused with `InvalidRange` and no transaction.
    pub fn get_status_reg(&mut self, reg: u8) -> (r: Result<u8, Error<E, PinError>>)
        ensures
            ctrl_register(reg) matches Some(register) ==> one_more(
                old(self).bus_history(),
                final(self).bus_history(),
                BusOp::Read(register.spec_read(), r),
            ),
            ctrl_register(reg) is None ==> final(self).bus_history() == old(self).bus_history() && r
                == Err::<u8, Error<E, PinError>>(Error::InvalidRange),
    {
        let register = match reg {
            1 => Register::CTRL_REG1,
            2 => Register::CTRL_REG2,
            3 => Register::CTRL_REG3,
            4 => Register::CTRL_REG4,
            5 => Register::CTRL_REG5,
            6 => Register::CTRL_REG6,
            _ => return Err(Error::InvalidRange),
        };
        self.commbus.read_register(register.read())
    }

    /// Read-modify-write of the given control register that replaces `field`.
    fn update(&mut self, register: Register, field: Field) -> (r: Result<(), Error<E, PinError>>)
        requires
            register == Register::CTRL_REG4 || register == Register::CTRL_REG5,
        ensures
            performs(
                old(self).bus_history(),
                final(self).bus_history(),
                seq![Step::Update(register.spec_read(), register.spec_write(), field)],
                r,
            ),
    {
        let ghost h0 = self.bus_history();
        let ghost s = seq![Step::Update(register.spec_read(), register.spec_write(), field)];
        let read = self.commbus.read_register(register.read());
        let v = match read {
            Err(e) => {
                proof {
                    assert(self.bus_history().skip(h0.len() as int) =~= seq![BusOp::Read(register.spec_read(), read)]);
                    assert(h0.is_prefix_of(self.bus_history()));
                }
                return Err(e);
            },
            Ok(v) => v,
        };
        let w = match field {
            Field::Rate(rate) => encode_datarate(v, rate),
            Field::Scale(range) => encode_range(v, range),
            Field::Axes(x, y, z) => encode_axis_mask(v, x, y, z),
        };
        let r = self.commbus.write_register(register.write(), w);
        proof {
            let ops = self.bus_history().skip(h0.len() as int);
            assert(ops =~= seq![BusOp::Read(register.spec_read(), read), BusOp::Write(register.spec_write(), w, r)]);
            assert(h0.is_prefix_of(self.bus_history()));
            assert(s.drop_first() =~= Seq::<Step>::empty());
            assert(ops.skip(2) =~= Seq::<BusOp<Error<E, PinError>>>::empty());
            if r is Ok {
                assert(runs(Seq::<Step>::empty(), Seq::<BusOp<Error<E, PinError>>>::empty(), r));
            }
        }
        r
    }

    fn enable_axis(&mut self, axes: (bool, bool, bool)) -> (r: Result<(), Error<E, PinError>>)
        ensures
            performs(old(self).bus_history(), final(self).bus_history(), seq![axes_step(axes.0, axes.1, axes.2)], r),
    {
        let (x, y, z) = axes;
        self.update(Register::CTRL_REG4, Field::Axes(x, y, z))
    }

    pub fn set_datarate(&mut self, datarate: DataRate) -> (r: Result<(), Error<E, PinError>>)
        ensures
            performs(old(self).bus_history(), final(self).bus_history(), seq![rate_step(datarate)], r),
    {
        self.update(Register::CTRL_REG4, Field::Rate(datarate))
    }

    pub fn get_datarate(&mut self) -> (r: Result<DataRate, Error<E, PinError>>)
        ensures
            read_appended(old(self).bus_history(), final(self).bus_history(), Register::CTRL_REG4.spec_read()),
            r == datarate_outcome(last_read(final(self).bus_history())),
    {
        let ctrl4 = match self.commbus.read_register(Register::CTRL_REG4.read()) {
            Err(e) => return Err(e),
            Ok(v) => v,
        };
        let odr = (ctrl4 & ODR_MASK) >> ODR_OFFSET;
        match DataRate::from_bits(odr) {
            Some(rate) => Ok(rate),
            None => Err(Error::InvalidDataRate),
        }
    }

    pub fn set_range(&mut self, range: Range) -> (r: Result<(), Error<E, PinError>>)
        ensures
            performs(old(self).bus_history(), final(self).bus_history(), seq![range_step(range)], r),
    {
        self.update(Register::CTRL_REG5, Field::Scale(range))
    }

    pub fn get_range(&mut self) -> (r: Result<Range, Error<E, PinError>>)
        ensures
            read_appended(old(self).bus_history(), final(self).bus_history(), Register::CTRL_REG5.spec_read()),
            r == range_outcome(last_read(final(self).bus_history())),
    {
        let ctrl5 = match self.commbus.read_register(Register::CTRL_REG5.read()) {
            Err(e) => return Err(e),
            Ok(v) => v,
        };
        let fs = (ctrl5 & FS_MASK) >> FS_OFFSET;
        match Range::from_bits(fs) {
            Some(range) => Ok(range),
            None => Err(Error::InvalidRange),
        }
    }

    fn get_status(&mut self) -> (r: Result<DataStatus, Error<E, PinError>>)
        ensures
            read_appended(old(self).bus_history(), final(self).bus_history(), Register::STATUS.spec_read()),
            match last_read(final(self).bus_history()) {
                Err(e) => r matches Err(e2) && e2 == e,
                Ok(v) => r matches Ok(s) && s.spec_byte() == v,
            },
    {
        match self.commbus.read_register(Register::STATUS.read()) {
            Err(e) => Err(e),
            Ok(stat) => Ok(DataStatus::from(stat)),
        }
    }

    /// Whether new data is available on all three axes.
    pub fn has_data(&mut self) -> (r: Result<bool, Error<E, PinError>>)
        ensures
            read_appended(old(self).bus_history(), final(self).bus_history(), Register::STATUS.spec_read()),
            match last_read(final(self).bus_history()) {
                Err(e) => r == Err::<bool, Error<E, PinError>>(e),
                Ok(v) => r == Ok::<bool, Error<E, PinError>>(v & ZYXDA != 0),
            },
    {
        match self.get_status() {
            Err(e) => Err(e),
            Ok(status) => Ok(status.zyxda()),
        }
    }

    /// Burst-reads the six output bytes in one transaction and assembles each
    /// axis little-endian.
    pub fn accel_raw(&mut self) -> (r: Result<RawSample, Error<E, PinError>>)
        ensures
            final(self).bus_history().len() == old(self).bus_history().len() + 1,
            old(self).bus_history().is_prefix_of(final(self).bus_history()),
            final(self).bus_history().last() matches BusOp::Burst(cmd, bytes, res)
                && cmd == Register::OUT_X_L.spec_read() && bytes.len() == 6
                && sample_outcome(res, bytes, r),
    {
        let mut accel_bytes: [u8; 6] = [0u8; 6];
        let res = self.commbus.read_bytes(Register::OUT_X_L.read(), &mut accel_bytes);
        match res {
            Err(e) => Err(e),
            Ok(()) => Ok(decode_raw_sample(&accel_bytes)),
        }
    }
}

} // verus!
