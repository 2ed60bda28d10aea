use vstd::prelude::*;

use crate::commbus::{BusOp, CommBus};
use crate::Error;

verus! {

/// One call on a serial peripheral, with what it was given and what it
/// returned.
pub enum SpiEvent<E> {
    /// `transfer`: the bytes handed over, the bytes left in the buffer, the
    /// outcome.
    Exchange(Seq<u8>, Seq<u8>, Result<(), E>),
    /// `write`: the bytes handed over and the outcome.
    Send(Seq<u8>, Result<(), E>),
}

/// One call on a chip-select line, with its outcome.
pub enum PinEvent<P> {
    /// `set_low`: the device is selected.
    Low(Result<(), P>),
    /// `set_high`: the device is released.
    High(Result<(), P>),
}

/// The serial peripheral: full-duplex exchange and plain send.
pub trait SpiTransport {
    type Error;

    /// The calls made on the peripheral so far, oldest first. An
    /// implementation outside verified code may leave this as it is.
    closed spec fn spi_events(&self) -> Seq<SpiEvent<Self::Error>> {
        Seq::empty()
    }

    /// Sends `words` and replaces them with the bytes received meanwhile.
    fn transfer(&mut self, words: &mut [u8]) -> (r: Result<(), Self::Error>)
        ensures
            final(words)@.len() == old(words)@.len(),
            final(self).spi_events() == old(self).spi_events().push(
                SpiEvent::Exchange(old(words)@, final(words)@, r),
            ),
    ;

    /// Sends `words`, discarding what is received.
    fn write(&mut self, words: &[u8]) -> (r: Result<(), Self::Error>)
        ensures
            final(self).spi_events() == old(self).spi_events().push(SpiEvent::Send(words@, r)),
    ;
}

/// The chip-select line; it is active low.
pub trait ChipSelect {
    type Error;

    /// The calls made on the line so far, oldest first. An implementation
    /// outside verified code may leave this as it is.
    closed spec fn pin_events(&self) -> Seq<PinEvent<Self::Error>> {
        Seq::empty()
    }

    /// Drives the line low, selecting the device.
    fn set_low(&mut self) -> (r: Result<(), Self::Error>)
        ensures
            final(self).pin_events() == old(self).pin_events().push(PinEvent::Low(r)),
    ;

    /// Drives the line high, releasing the device.
    fn set_high(&mut self) -> (r: Result<(), Self::Error>)
        ensures
            final(self).pin_events() == old(self).pin_events().push(PinEvent::High(r)),
    ;
}

/// Exactly one selection, then exactly one release.
pub open spec fn framed<P>(p: Seq<PinEvent<P>>) -> bool {
    &&& p.len() == 2
    &&& p[0] is Low
    &&& p[1] is High
}

/// Outcome of a framed transaction whose selection succeeded: a failure of
/// the payload phase comes first, and a failed release counts only after a
/// payload phase that succeeded.
pub open spec fn settle<T, E, P>(payload: Result<T, E>, release: Result<(), P>) -> Result<T, Error<E, P>> {
    match payload {
        Err(e) => Err(Error::CommErr(e)),
        Ok(v) => match release {
            Err(p) => Err(Error::PinError(p)),
            Ok(_) => Ok(v),
        },
    }
}

/// The payload phase as a value: the byte at `i` of the reply, or the error.
pub open spec fn reply_byte<E>(res: Result<(), E>, reply: Seq<u8>, i: int) -> Result<u8, E> {
    match res {
        Err(e) => Err(e),
        Ok(_) => Ok(reply[i]),
    }
}

/// The first of two payload outcomes that failed.
pub open spec fn first_failure<E>(a: Result<(), E>, b: Result<(), E>) -> Result<(), E> {
    match a {
        Err(e) => Err(e),
        Ok(_) => b,
    }
}

/// The selection failed: nothing goes to the peripheral, the line is still
/// released, and the selection's error is the outcome.
pub open spec fn select_failed<T, E, P>(p: Seq<PinEvent<P>>, s: Seq<SpiEvent<E>>, r: Result<T, Error<E, P>>) -> bool {
    &&& s.len() == 0
    &&& p[0] matches PinEvent::Low(Err(e)) && r == Err::<T, Error<E, P>>(Error::PinError(e))
}

/// Pin calls `p` and peripheral calls `s` of a single-register read with
/// command byte `register`: the command and one dummy byte are exchanged
/// and the second byte received is the value.
pub open spec fn read_register_frame<E, P>(p: Seq<PinEvent<P>>, s: Seq<SpiEvent<E>>, register: u8, r: Result<u8, Error<E, P>>) -> bool {
    &&& framed(p)
    &&& select_failed(p, s, r) || {
        &&& p[0] matches PinEvent::Low(Ok(_))
        &&& s.len() == 1
        &&& s[0] matches SpiEvent::Exchange(sent, reply, res)
            && sent == seq![register, 0u8] && reply.len() == 2
            && r == settle(reply_byte(res, reply, 1), p[1]->High_0)
    }
}

/// Pin calls `p` and peripheral calls `s` of a single-register write of
/// `value`: the command and the value are sent together.
pub open spec fn write_register_frame<E, P>(p: Seq<PinEvent<P>>, s: Seq<SpiEvent<E>>, register: u8, value: u8, r: Result<(), Error<E, P>>) -> bool {
    &&& framed(p)
    &&& select_failed(p, s, r) || {
        &&& p[0] matches PinEvent::Low(Ok(_))
        &&& s.len() == 1
        &&& s[0] matches SpiEvent::Send(sent, res)
            && sent == seq![register, value]
            && r == settle(res, p[1]->High_0)
    }
}

/// Pin calls `p` and peripheral calls `s` of a burst read into a buffer that
/// held `before` and holds `after`: the command is sent alone, then the
/// buffer is exchanged.
pub open spec fn read_bytes_frame<E, P>(
    p: Seq<PinEvent<P>>,
    s: Seq<SpiEvent<E>>,
    register: u8,
    before: Seq<u8>,
    after: Seq<u8>,
    r: Result<(), Error<E, P>>,
) -> bool {
    &&& framed(p)
    &&& select_failed(p, s, r) || {
        &&& p[0] matches PinEvent::Low(Ok(_))
        &&& s.len() == 2
        &&& s[0] matches SpiEvent::Send(sent, _) && sent == seq![register]
        &&& s[1] matches SpiEvent::Exchange(out, reply, _) && out == before && reply == after
        &&& r == settle(first_failure(s[0]->Send_1, s[1]->Exchange_2), p[1]->High_0)
    }
}

pub struct SPIBus<SPI: SpiTransport, CS: ChipSelect> {
    spi: SPI,
    cs: CS,
    ops: Ghost<Seq<BusOp<Error<SPI::Error, CS::Error>>>>,
}

impl<SPI: SpiTransport, CS: ChipSelect> SPIBus<SPI, CS> {
    /// The calls made on the serial peripheral so far.
    pub closed spec fn spi_log(&self) -> Seq<SpiEvent<SPI::Error>> {
        self.spi.spi_events()
    }

    /// The calls made on the chip-select line so far.
    pub closed spec fn pin_log(&self) -> Seq<PinEvent<CS::Error>> {
        self.cs.pin_events()
    }

    pub fn new(spi: SPI, cs: CS) -> (r: Self)
        ensures
            r.history() == Seq::<BusOp<Error<SPI::Error, CS::Error>>>::empty(),
            r.spi_log() == spi.spi_events(),
            r.pin_log() == cs.pin_events(),
    {
        Self { spi, cs, ops: Ghost(Seq::empty()) }
    }
}

impl<SPI: SpiTransport, CS: ChipSelect> CommBus for SPIBus<SPI, CS> {
    type CommError = Error<SPI::Error, CS::Error>;

    closed spec fn history(&self) -> Seq<BusOp<Self::CommError>> {
        self.ops@
    }

    fn read_bytes(&mut self, register: u8, bytes: &mut [u8]) -> (r: Result<(), Self::CommError>)
        ensures
            final(bytes)@.len() == old(bytes)@.len(),
            old(self).pin_log().is_prefix_of(final(self).pin_log()),
            old(self).spi_log().is_prefix_of(final(self).spi_log()),
            read_bytes_frame(
                final(self).pin_log().skip(old(self).pin_log().len() as int),
                final(self).spi_log().skip(old(self).spi_log().len() as int),
                register,
                old(bytes)@,
                final(bytes)@,
                r,
            ),
    {
        let ghost p0 = self.cs.pin_events();
        let ghost s0 = self.spi.spi_events();
        let sel = self.cs.set_low();
        let r = match sel {
            Err(p) => {
                let _ = self.cs.set_high();
                Err(Error::PinError(p))
            },
            Ok(()) => {
                let cmd: [u8; 1] = [register];
                proof { assert(cmd@ =~= seq![register]); }
                let res = self.spi.write(&cmd);
                let res2 = self.spi.transfer(bytes);
                let rel = self.cs.set_high();
                match res {
                    Err(e) => Err(Error::CommErr(e)),
                    Ok(()) => match res2 {
                        Err(e) => Err(Error::CommErr(e)),
                        Ok(()) => match rel {
                            Err(p) => Err(Error::PinError(p)),
                            Ok(()) => Ok(()),
                        },
                    },
                }
            },
        };
        proof {
            let p = self.cs.pin_events().skip(p0.len() as int);
            let s = self.spi.spi_events().skip(s0.len() as int);
            assert(p0.is_prefix_of(self.cs.pin_events()));
            assert(s0.is_prefix_of(self.spi.spi_events()));
            assert(p[0] == self.cs.pin_events()[p0.len() as int]);
            assert(p[1] == self.cs.pin_events()[p0.len() + 1int]);
            if s.len() > 0 {
                assert(s[0] == self.spi.spi_events()[s0.len() as int]);
                assert(s[1] == self.spi.spi_events()[s0.len() + 1int]);
            }
        }
        self.ops = Ghost(self.ops@.push(BusOp::Burst(register, bytes@, r)));
        r
    }

    fn write_register(&mut self, register: u8, value: u8) -> (r: Result<(), Self::CommError>)
        ensures
            old(self).pin_log().is_prefix_of(final(self).pin_log()),
            old(self).spi_log().is_prefix_of(final(self).spi_log()),
            write_register_frame(
                final(self).pin_log().skip(old(self).pin_log().len() as int),
                final(self).spi_log().skip(old(self).spi_log().len() as int),
                register,
                value,
                r,
            ),
    {
        let ghost p0 = self.cs.pin_events();
        let ghost s0 = self.spi.spi_events();
        let sel = self.cs.set_low();
        let r = match sel {
            Err(p) => {
                let _ = self.cs.set_high();
                Err(Error::PinError(p))
            },
            Ok(()) => {
                let bytes: [u8; 2] = [register, value];
                proof { assert(bytes@ =~= seq![register, value]); }
                let res = self.spi.write(&bytes);
                let rel = self.cs.set_high();
                match res {
                    Err(e) => Err(Error::CommErr(e)),
                    Ok(()) => match rel {
                        Err(p) => Err(Error::PinError(p)),
                        Ok(()) => Ok(()),
                    },
                }
            },
        };
        proof {
            let p = self.cs.pin_events().skip(p0.len() as int);
            let s = self.spi.spi_events().skip(s0.len() as int);
            assert(p0.is_prefix_of(self.cs.pin_events()));
            assert(s0.is_prefix_of(self.spi.spi_events()));
            assert(p[0] == self.cs.pin_events()[p0.len() as int]);
            assert(p[1] == self.cs.pin_events()[p0.len() + 1int]);
            if s.len() > 0 {
                assert(s[0] == self.spi.spi_events()[s0.len() as int]);
            }
        }
        self.ops = Ghost(self.ops@.push(BusOp::Write(register, value, r)));
        r
    }

    fn read_register(&mut self, register: u8) -> (r: Result<u8, Self::CommError>)
        ensures
            old(self).pin_log().is_prefix_of(final(self).pin_log()),
            old(self).spi_log().is_prefix_of(final(self).spi_log()),
            read_register_frame(
                final(self).pin_log().skip(old(self).pin_log().len() as int),
                final(self).spi_log().skip(old(self).spi_log().len() as int),
                register,
                r,
            ),
    {
        let ghost p0 = self.cs.pin_events();
        let ghost s0 = self.spi.spi_events();
        let sel = self.cs.set_low();
        let r = match sel {
            Err(p) => {
                let _ = self.cs.set_high();
                Err(Error::PinError(p))
            },
            Ok(()) => {
                let mut bytes: [u8; 2] = [register, 0];
                proof { assert(bytes@ =~= seq![register, 0u8]); }
                let res = self.spi.transfer(&mut bytes);
                let rel = self.cs.set_high();
                match res {
                    Err(e) => Err(Error::CommErr(e)),
                    Ok(()) => match rel {
                        Err(p) => Err(Error::PinError(p)),
                        Ok(()) => Ok(bytes[1]),
                    },
                }
            },
        };
        proof {
            let p = self.cs.pin_events().skip(p0.len() as int);
            let s = self.spi.spi_events().skip(s0.len() as int);
            assert(p0.is_prefix_of(self.cs.pin_events()));
            assert(s0.is_prefix_of(self.spi.spi_events()));
            assert(p[0] == self.cs.pin_events()[p0.len() as int]);
            assert(p[1] == self.cs.pin_events()[p0.len() + 1int]);
            if s.len() > 0 {
                assert(s[0] == self.spi.spi_events()[s0.len() as int]);
            }
        }
        self.ops = Ghost(self.ops@.push(BusOp::Read(register, r)));
        r
    }
}


} // verus!
