//! Device identifiers, driver error flags and instructions.
use vstd::prelude::*;

pub mod address;

use crate::hardware::address::{lemma_writable_span_end, ReadRegion, WriteRegion};

verus! {

/// Why a byte is not an acceptable identifier.
#[derive(Debug, Clone, Copy, PartialEq, Eq, Structural)]
pub enum IDError {
    Range,
    MustNotBroadcast,
    MustBroadcast,
}

/// A bus address: one device, or every device at once.
#[derive(Debug, Clone, Copy, PartialEq, Eq, Structural)]
pub enum ID {
    Broadcast,
    Single(u8),
}

impl ID {
    pub const BROADCAST: u8 = 0xfe;

    pub const MAX: u8 = 0xfc;

    /// The byte that stands for this identifier on the wire.
    pub open spec fn spec_value(self) -> u8 {
        match self {
            ID::Broadcast => 254,
            ID::Single(x) => x,
        }
    }

    /// Single identifiers lie in `[0, 252]`.
    pub open spec fn is_valid(self) -> bool {
        match self {
            ID::Broadcast => true,
            ID::Single(x) => x <= 252,
        }
    }

    /// The single identifier a byte stands for.
    pub open spec fn spec_single(value: u8) -> Result<ID, IDError> {
        if value == 254 {
            Err(IDError::MustNotBroadcast)
        } else if value <= 252 {
            Ok(ID::Single(value))
        } else {
            Err(IDError::Range)
        }
    }

    /// The identifier a byte stands for, the broadcast byte included.
    pub open spec fn spec_try_from(value: u8) -> Result<ID, IDError> {
        if value == 254 {
            Ok(ID::Broadcast)
        } else {
            ID::spec_single(value)
        }
    }

    pub fn broadcast() -> (r: Self)
        ensures
            r == ID::Broadcast,
    {
        ID::Broadcast
    }

    /// A single device's identifier; the broadcast byte and bytes above 252
    /// are refused.
    pub fn single(value: u8) -> (r: Result<Self, IDError>)
        ensures
            r == ID::spec_single(value),
    {
        if value == ID::BROADCAST {
            Err(IDError::MustNotBroadcast)
        } else if value <= ID::MAX {
            Ok(ID::Single(value))
        } else {
            Err(IDError::Range)
        }
    }

    /// Every single identifier, in ascending order.
    pub fn all_single() -> (r: Vec<ID>)
        ensures
            r@.len() == 253,
            forall|i: int| 0 <= i < 253 ==> r@[i] == ID::Single(i as u8),
    {
        let mut ids: Vec<ID> = Vec::new();
        let mut value: u8 = 0;
        while value <= ID::MAX
            invariant
                value <= 253,
                ids@.len() == value,
                forall|i: int| 0 <= i < value ==> ids@[i] == ID::Single(i as u8),
            decreases 253 - value,
        {
            if let Ok(id) = ID::single(value) {
                ids.push(id);
            }
            value += 1;
        }
        ids
    }

    pub fn value(self) -> (r: u8)
        ensures
            r == self.spec_value(),
    {
        match self {
            ID::Broadcast => ID::BROADCAST,
            ID::Single(x) => x,
        }
    }
}

/// A single identifier built from a byte in `[0, 252]` gives that byte back;
/// 253 and 255 are out of range, and 254 is refused as the broadcast byte.
pub proof fn lemma_single_value(v: u8)
    ensures
        v <= 252 ==> (ID::spec_single(v) matches Ok(id) && id.spec_value() == v && id.is_valid()),
        v == 253 || v == 255 ==> ID::spec_single(v) == Err::<ID, IDError>(IDError::Range),
        v == 254 ==> ID::spec_single(v) == Err::<ID, IDError>(IDError::MustNotBroadcast),
{
}

/// The broadcast byte converts to `Broadcast`, and every byte that converts
/// to an identifier is given back by `value`.
pub proof fn lemma_try_from_value(v: u8)
    ensures
        ID::spec_try_from(254) == Ok::<ID, IDError>(ID::Broadcast),
        ID::spec_try_from(v) matches Ok(id) ==> id.spec_value() == v && id.is_valid(),
        v <= 252 ==> ID::spec_try_from(v) == Ok::<ID, IDError>(ID::Single(v)),
{
}

impl From<ID> for u8 {
    fn from(id: ID) -> (r: u8) {
        id.value()
    }
}

impl vstd::std_specs::convert::FromSpecImpl<ID> for u8 {
    open spec fn obeys_from_spec() -> bool {
        true
    }

    open spec fn from_spec(id: ID) -> u8 {
        id.spec_value()
    }
}

impl TryFrom<u8> for ID {
    type Error = IDError;

    fn try_from(value: u8) -> (r: Result<Self, Self::Error>) {
        if value == ID::BROADCAST {
            return Ok(ID::Broadcast);
        }
        ID::single(value)
    }
}

impl vstd::std_specs::convert::TryFromSpecImpl<u8> for ID {
    open spec fn obeys_try_from_spec() -> bool {
        true
    }

    open spec fn try_from_spec(value: u8) -> Result<Self, Self::Error> {
        ID::spec_try_from(value)
    }
}

/// A fault that a device reports in the error byte of its reply.
#[derive(Debug, Clone, Copy, PartialEq, Eq, Structural)]
pub enum DriverError {
    Voltage,
    Angle,
    OverHeat,
    OverEle,
    OverLoad,
}

impl DriverError {
    pub open spec fn spec_bit(self) -> u8 {
        match self {
            DriverError::Voltage => 1,
            DriverError::Angle => 2,
            DriverError::OverHeat => 4,
            DriverError::OverEle => 8,
            DriverError::OverLoad => 32,
        }
    }

    /// The bit of the error byte that reports this fault.
    pub fn bit(self) -> (r: u8)
        ensures
            r == self.spec_bit(),
    {
        match self {
            DriverError::Voltage => 1,
            DriverError::Angle => 2,
            DriverError::OverHeat => 4,
            DriverError::OverEle => 8,
            DriverError::OverLoad => 32,
        }
    }
}

/// The error byte `bits` reports fault `e`.
pub open spec fn has_flag(bits: u8, e: DriverError) -> bool {
    bits & e.spec_bit() != 0
}

/// The error byte reports at least one known fault.
pub open spec fn any_flag(bits: u8) -> bool {
    has_flag(bits, DriverError::Voltage) || has_flag(bits, DriverError::Angle) || has_flag(
        bits,
        DriverError::OverHeat,
    ) || has_flag(bits, DriverError::OverEle) || has_flag(bits, DriverError::OverLoad)
}

/// `e` as a one-element list where `bits` reports it, else nothing.
pub open spec fn flag_entry(bits: u8, e: DriverError) -> Seq<DriverError> {
    if has_flag(bits, e) {
        seq![e]
    } else {
        seq![]
    }
}

/// The known faults that `bits` reports, in order of their bits.
pub open spec fn listed_flags(bits: u8) -> Seq<DriverError> {
    flag_entry(bits, DriverError::Voltage) + flag_entry(bits, DriverError::Angle) + flag_entry(
        bits,
        DriverError::OverHeat,
    ) + flag_entry(bits, DriverError::OverEle) + flag_entry(bits, DriverError::OverLoad)
}

/// The raw error byte of a reply that reports at least one known fault.
/// Bits outside the known faults are kept as received.
#[derive(Debug, Clone, Copy)]
pub struct DriverErrors {
    errors: u8,
}

impl DriverErrors {
    pub closed spec fn spec_bits(self) -> u8 {
        self.errors
    }

    pub fn contains(self, error: DriverError) -> (r: bool)
        ensures
            r == has_flag(self.spec_bits(), error),
    {
        self.errors & error.bit() != 0
    }

    /// The flags of an error byte; `None` when no known fault is reported.
    pub fn from_byte(value: u8) -> (r: Option<Self>)
        ensures
            r is Some <==> any_flag(value),
            r matches Some(e) ==> e.spec_bits() == value,
    {
        let errors = DriverErrors { errors: value };
        if errors.contains(DriverError::Voltage) || errors.contains(DriverError::Angle)
            || errors.contains(DriverError::OverHeat) || errors.contains(DriverError::OverEle)
            || errors.contains(DriverError::OverLoad) {
            Some(errors)
        } else {
            None
        }
    }

    /// The error byte as received.
    pub fn bits(self) -> (r: u8)
        ensures
            r == self.spec_bits(),
    {
        self.errors
    }

    /// The known faults reported, in order of their bits.
    pub fn flags(self) -> (r: Vec<DriverError>)
        ensures
            r@ == listed_flags(self.spec_bits()),
    {
        let all = [
            DriverError::Voltage,
            DriverError::Angle,
            DriverError::OverHeat,
            DriverError::OverEle,
            DriverError::OverLoad,
        ];
        let mut found: Vec<DriverError> = Vec::new();
        let mut i: usize = 0;
        while i < 5
            invariant
                i <= 5,
                all@ == seq![
                    DriverError::Voltage,
                    DriverError::Angle,
                    DriverError::OverHeat,
                    DriverError::OverEle,
                    DriverError::OverLoad,
                ],
                found@ == DriverErrors::listed_prefix(self.spec_bits(), all@, i as int),
            decreases 5 - i,
        {
            if self.contains(all[i]) {
                found.push(all[i]);
            }
            i += 1;
        }
        proof {
            let b = self.spec_bits();
            reveal_with_fuel(DriverErrors::listed_prefix, 6);
            assert(DriverErrors::listed_prefix(b, all@, 5) =~= listed_flags(b));
        }
        found
    }

    /// The faults among the first `n` of `order` that `bits` reports.
    pub open spec fn listed_prefix(bits: u8, order: Seq<DriverError>, n: int) -> Seq<DriverError>
        decreases n,
    {
        if n <= 0 {
            seq![]
        } else {
            DriverErrors::listed_prefix(bits, order, n - 1) + flag_entry(bits, order[n - 1])
        }
    }
}

/// An operation for a device.
#[derive(Debug)]
pub enum Instruction {
    Ping,
    Read(ReadRegion),
    Write(WriteRegion),
}

impl Instruction {
    /// The operation's wire payload: opcode, then parameters.
    pub open spec fn spec_data(self) -> Seq<u8> {
        match self {
            Instruction::Ping => seq![1u8],
            Instruction::Read(r) => seq![2u8, r.spec_start(), r.spec_length()],
            Instruction::Write(w) => seq![3u8, w.spec_start()] + w.spec_data(),
        }
    }

    pub fn ping() -> (r: Instruction)
        ensures
            r is Ping,
    {
        Instruction::Ping
    }

    pub fn read(region: ReadRegion) -> (r: Self)
        ensures
            r == Instruction::Read(region),
    {
        Instruction::Read(region)
    }

    pub fn write(region: WriteRegion) -> (r: Self)
        ensures
            r == Instruction::Write(region),
    {
        Instruction::Write(region)
    }

    /// Encodes the operation into its wire payload.
    pub fn data(self) -> (r: Vec<u8>)
        ensures
            r@ == self.spec_data(),
            1 <= r@.len() <= 73,
    {
        match self {
            Instruction::Ping => vec![1u8],
            Instruction::Read(region) => vec![2u8, region.start(), region.length()],
            Instruction::Write(region) => {
                let start = region.start();
                let mut bytes = vec![3u8, start];
                let mut data = region.into_data();
                proof {
                    if data.len() > 0 {
                        lemma_writable_span_end(start as int, data.len() as int);
                    }
                }
                bytes.append(&mut data);
                bytes
            },
        }
    }
}

} // verus!
