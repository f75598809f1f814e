//! The register transport consumed by the controllers, and the log of
//! accesses through which their contracts are stated.
use vstd::prelude::*;

verus! {

/// Every register is one 32-bit word.
pub const REGISTER_WIDTH_BITS: u32 = 32;

/// A failure reported by the underlying read/write primitive.
#[derive(Clone, Copy, Debug, PartialEq, Eq, Structural)]
pub struct TransportError {
    pub code: u32,
}

/// One register access issued on a transport, with the outcome it had.
#[derive(Clone, Copy, Debug, PartialEq, Eq)]
pub enum Access {
    Read { offset: u64, result: Result<u32, TransportError> },
    Write { offset: u64, value: u32, status: Result<(), TransportError> },
}

/// Word-granular access to registers at byte offsets from a fixed base.
///
/// `accesses` is the history of every access issued so far, in order; each
/// operation appends exactly the access it performed, with its outcome.
pub trait RegisterAccess {
    spec fn accesses(&self) -> Seq<Access>;

    fn read_u32(&mut self, offset: u64) -> (r: Result<u32, TransportError>)
        ensures
            final(self).accesses() == old(self).accesses().push(
                (Access::Read { offset, result: r }),
            ),
    ;

    fn write_u32(&mut self, offset: u64, value: u32) -> (r: Result<(), TransportError>)
        ensures
            final(self).accesses() == old(self).accesses().push(
                (Access::Write { offset, value, status: r }),
            ),
    ;
}

/// `later` is `earlier` followed by `n` more accesses.
pub open spec fn extends_by(later: Seq<Access>, earlier: Seq<Access>, n: nat) -> bool {
    &&& later.len() == earlier.len() + n
    &&& later.subrange(0, earlier.len() as int) == earlier
}

/// The access is a read at `offset`.
pub open spec fn is_read_at(a: Access, offset: u64) -> bool {
    a matches Access::Read { offset: o, .. } && o == offset
}

/// The access is a write of `value` at `offset`.
pub open spec fn is_write_of(a: Access, offset: u64, value: u32) -> bool {
    a matches Access::Write { offset: o, value: v, .. } && o == offset && v == value
}

/// What a read returned (meaningful for reads only).
pub open spec fn read_result(a: Access) -> Result<u32, TransportError> {
    match a {
        Access::Read { result, .. } => result,
        Access::Write { status, .. } => match status {
            Ok(_) => Ok(0),
            Err(e) => Err(e),
        },
    }
}

/// What a write returned (meaningful for writes only).
pub open spec fn write_result(a: Access) -> Result<(), TransportError> {
    match a {
        Access::Write { status, .. } => status,
        Access::Read { result, .. } => match result {
            Ok(_) => Ok(()),
            Err(e) => Err(e),
        },
    }
}

/// The accesses after the first `base` of `after`.
pub open spec fn issued_since(after: Seq<Access>, base: Seq<Access>) -> Seq<Access> {
    after.subrange(base.len() as int, after.len() as int)
}

/// `issued` is one read at each of `offsets` in order, stopping at the first
/// failure, and `r` is what those reads returned.
pub open spec fn reads_each(
    issued: Seq<Access>,
    offsets: Seq<u64>,
    r: Result<Vec<u32>, TransportError>,
) -> bool {
    &&& issued.len() <= offsets.len()
    &&& forall|i: int| 0 <= i < issued.len() ==> #[trigger] is_read_at(issued[i], offsets[i])
    &&& forall|i: int| 0 <= i < issued.len() - 1 ==> (#[trigger] read_result(issued[i])) is Ok
    &&& match r {
        Ok(vals) => {
            &&& issued.len() == offsets.len()
            &&& vals@.len() == offsets.len()
            &&& forall|i: int|
                0 <= i < issued.len() ==> #[trigger] read_result(issued[i]) == Ok::<
                    u32,
                    TransportError,
                >(vals@[i])
        },
        Err(e) => {
            &&& 0 < issued.len()
            &&& read_result(issued.last()) == Err::<u32, TransportError>(e)
        },
    }
}

/// Reads each of `offsets` once, in order, and returns the values read;
/// stops at the first failed read and returns its error.
pub fn read_each<T: RegisterAccess + ?Sized>(dev: &mut T, offsets: &Vec<u64>) -> (r: Result<
    Vec<u32>,
    TransportError,
>)
    ensures
        final(dev).accesses().subrange(0, old(dev).accesses().len() as int)
            == old(dev).accesses(),
        final(dev).accesses().len() >= old(dev).accesses().len(),
        reads_each(issued_since(final(dev).accesses(), old(dev).accesses()), offsets@, r),
{
    let ghost base = dev.accesses();
    let mut vals: Vec<u32> = Vec::new();
    let mut i: usize = 0;
    while i < offsets.len()
        invariant
            i <= offsets.len(),
            vals@.len() == i,
            dev.accesses().len() == base.len() + i,
            dev.accesses().subrange(0, base.len() as int) == base,
            base == old(dev).accesses(),
            forall|j: int|
                0 <= j < i ==> {
                    &&& is_read_at(#[trigger] issued_since(dev.accesses(), base)[j], offsets@[j])
                    &&& read_result(issued_since(dev.accesses(), base)[j]) == Ok::<
                        u32,
                        TransportError,
                    >(vals@[j])
                },
        decreases offsets.len() - i,
    {
        let ghost prev = dev.accesses();
        let got = dev.read_u32(offsets[i]);
        proof {
            assert(dev.accesses().subrange(0, base.len() as int) =~= base);
            assert(issued_since(dev.accesses(), base) =~= issued_since(prev, base).push(
                dev.accesses().last(),
            ));
        }
        match got {
            Ok(v) => {
                vals.push(v);
            },
            Err(e) => {
                proof {
                    let issued = issued_since(dev.accesses(), base);
                    assert(issued.last() == dev.accesses().last());
                    assert forall|j: int| 0 <= j < issued.len() - 1 implies (#[trigger] read_result(
                        issued[j],
                    )) is Ok by {
                        assert(issued[j] == issued_since(prev, base)[j]);
                        assert(read_result(issued_since(prev, base)[j]) == Ok::<u32, TransportError>(
                            vals@[j],
                        ));
                    }
                }
                return Err(e);
            },
        }
        i = i + 1;
    }
    proof {
        let issued = issued_since(dev.accesses(), base);
        assert forall|j: int| 0 <= j < issued.len() - 1 implies (#[trigger] read_result(
            issued[j],
        )) is Ok by {
            assert(read_result(issued[j]) == Ok::<u32, TransportError>(vals@[j]));
        }
    }
    Ok(vals)
}

} // verus!
