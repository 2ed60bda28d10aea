use vstd::prelude::*;

pub mod spi;

pub use self::spi::SPIBus;

verus! {

/// One register transaction as the bus carried it out, with its outcome.
pub enum BusOp<Er> {
    /// A single-register read with the given command byte.
    Read(u8, Result<u8, Er>),
    /// A single-register write of a value with the given command byte.
    Write(u8, u8, Result<(), Er>),
    /// A burst read starting at the given command byte, with the bytes the
    /// buffer held afterwards.
    Burst(u8, Seq<u8>, Result<(), Er>),
}

/// A method of communicating with the device
pub trait CommBus {
    /// Interface associated error type
    type CommError;

    /// The transactions carried out so far, oldest first.
    spec fn history(&self) -> Seq<BusOp<Self::CommError>>;

    /// Read successive registers, starting at the given command byte, into
    /// `bytes`.
    fn read_bytes(&mut self, register: u8, bytes: &mut [u8]) -> (r: Result<(), Self::CommError>)
        ensures
            final(self).history() == old(self).history().push(
                BusOp::Burst(register, final(bytes)@, r),
            ),
    ;

    /// Write a byte to the given register.
    fn write_register(&mut self, register: u8, value: u8) -> (r: Result<(), Self::CommError>)
        ensures
            final(self).history() == old(self).history().push(BusOp::Write(register, value, r)),
    ;

    /// Read a byte from the given register.
    fn read_register(&mut self, register: u8) -> (r: Result<u8, Self::CommError>)
        ensures
            final(self).history() == old(self).history().push(BusOp::Read(register, r)),
    ;
}

} // verus!
