//! The device's memory map: where each register lives, how wide it is and
//! whether it may be written, plus validated register spans.
use vstd::prelude::*;

verus! {

/// Width of a register.
#[derive(Debug, Clone, Copy, PartialEq, Eq, Structural)]
pub enum Size {
    Byte,
    Word,
}

impl Size {
    /// Number of bytes the register occupies.
    pub open spec fn width(self) -> nat {
        match self {
            Size::Byte => 1,
            Size::Word => 2,
        }
    }
}

/// Access policy of a register.
#[derive(Debug, Clone, Copy, PartialEq, Eq, Structural)]
pub enum Access {
    Read,
    ReadWrite,
}

impl Access {
    pub fn can_write(self) -> (r: bool)
        ensures
            r == (self == Access::ReadWrite),
    {
        match self {
            Access::Read => false,
            Access::ReadWrite => true,
        }
    }

    pub fn can_read(self) -> (r: bool)
        ensures
            r,
    {
        true
    }
}

/// The register catalog. Words are stored low byte first.
#[derive(Debug, Clone, Copy, PartialEq, Eq, Structural)]
pub enum Address {
    // EEPROM, read only.
    Model,
    // EEPROM, read or write.
    Id,
    BaudRate,
    MinAngleLimit,
    MaxAngleLimit,
    CwDead,
    CcwDead,
    Ofs,
    Mode,
    // SRAM, read or write.
    TorqueEnable,
    Acceleration,
    GoalPosition,
    GoalTime,
    GoalSpeed,
    Lock,
    // SRAM, read only.
    PresentPosition,
    PresentSpeed,
    PresentLoad,
    PresentVoltage,
    PresentTemperature,
    Moving,
    PresentCurrent,
}

impl Address {
    pub open spec fn spec_index(self) -> u8 {
        match self {
            Address::Model => 3,
            Address::Id => 5,
            Address::BaudRate => 6,
            Address::MinAngleLimit => 9,
            Address::MaxAngleLimit => 11,
            Address::CwDead => 26,
            Address::CcwDead => 27,
            Address::Ofs => 31,
            Address::Mode => 33,
            Address::TorqueEnable => 40,
            Address::Acceleration => 41,
            Address::GoalPosition => 42,
            Address::GoalTime => 44,
            Address::GoalSpeed => 46,
            Address::Lock => 55,
            Address::PresentPosition => 56,
            Address::PresentSpeed => 58,
            Address::PresentLoad => 60,
            Address::PresentVoltage => 62,
            Address::PresentTemperature => 63,
            Address::Moving => 66,
            Address::PresentCurrent => 69,
        }
    }

    pub open spec fn spec_size(self) -> Size {
        match self {
            Address::Model | Address::MinAngleLimit | Address::MaxAngleLimit | Address::Ofs
            | Address::GoalPosition | Address::GoalTime | Address::GoalSpeed
            | Address::PresentPosition | Address::PresentSpeed | Address::PresentLoad
            | Address::PresentCurrent => Size::Word,
            _ => Size::Byte,
        }
    }

    pub open spec fn spec_access(self) -> Access {
        match self {
            Address::Model | Address::PresentPosition | Address::PresentSpeed
            | Address::PresentLoad | Address::PresentVoltage | Address::PresentTemperature
            | Address::Moving | Address::PresentCurrent => Access::Read,
            _ => Access::ReadWrite,
        }
    }

    /// The register occupies byte offset `v`.
    pub open spec fn covers(self, v: int) -> bool {
        self.spec_index() <= v < self.spec_index() + self.spec_size().width()
    }

    /// The register found at byte offset `v`, if any.
    pub open spec fn at(v: int) -> Option<Address> {
        if v == 3 || v == 4 {
            Some(Address::Model)
        } else if v == 5 {
            Some(Address::Id)
        } else if v == 6 {
            Some(Address::BaudRate)
        } else if v == 9 || v == 10 {
            Some(Address::MinAngleLimit)
        } else if v == 11 || v == 12 {
            Some(Address::MaxAngleLimit)
        } else if v == 26 {
            Some(Address::CwDead)
        } else if v == 27 {
            Some(Address::CcwDead)
        } else if v == 31 || v == 32 {
            Some(Address::Ofs)
        } else if v == 33 {
            Some(Address::Mode)
        } else if v == 40 {
            Some(Address::TorqueEnable)
        } else if v == 41 {
            Some(Address::Acceleration)
        } else if v == 42 || v == 43 {
            Some(Address::GoalPosition)
        } else if v == 44 || v == 45 {
            Some(Address::GoalTime)
        } else if v == 46 || v == 47 {
            Some(Address::GoalSpeed)
        } else if v == 55 {
            Some(Address::Lock)
        } else if v == 56 || v == 57 {
            Some(Address::PresentPosition)
        } else if v == 58 || v == 59 {
            Some(Address::PresentSpeed)
        } else if v == 60 || v == 61 {
            Some(Address::PresentLoad)
        } else if v == 62 {
            Some(Address::PresentVoltage)
        } else if v == 63 {
            Some(Address::PresentTemperature)
        } else if v == 66 {
            Some(Address::Moving)
        } else if v == 69 || v == 70 {
            Some(Address::PresentCurrent)
        } else {
            None
        }
    }

    /// A register exists at offset `v`.
    pub open spec fn known(v: int) -> bool {
        Address::at(v) is Some
    }

    /// A register that may be written exists at offset `v`.
    pub open spec fn writable(v: int) -> bool {
        match Address::at(v) {
            Some(a) => a.spec_access() == Access::ReadWrite,
            None => false,
        }
    }

    pub fn index(&self) -> (r: u8)
        ensures
            r == self.spec_index(),
    {
        match self {
            Address::Model => 3,
            Address::Id => 5,
            Address::BaudRate => 6,
            Address::MinAngleLimit => 9,
            Address::MaxAngleLimit => 11,
            Address::CwDead => 26,
            Address::CcwDead => 27,
            Address::Ofs => 31,
            Address::Mode => 33,
            Address::TorqueEnable => 40,
            Address::Acceleration => 41,
            Address::GoalPosition => 42,
            Address::GoalTime => 44,
            Address::GoalSpeed => 46,
            Address::Lock => 55,
            Address::PresentPosition => 56,
            Address::PresentSpeed => 58,
            Address::PresentLoad => 60,
            Address::PresentVoltage => 62,
            Address::PresentTemperature => 63,
            Address::Moving => 66,
            Address::PresentCurrent => 69,
        }
    }

    pub fn size(&self) -> (r: Size)
        ensures
            r == self.spec_size(),
    {
        match self {
            Address::Model | Address::MinAngleLimit | Address::MaxAngleLimit | Address::Ofs
            | Address::GoalPosition | Address::GoalTime | Address::GoalSpeed
            | Address::PresentPosition | Address::PresentSpeed | Address::PresentLoad
            | Address::PresentCurrent => Size::Word,
            _ => Size::Byte,
        }
    }

    pub fn access(&self) -> (r: Access)
        ensures
            r == self.spec_access(),
    {
        match self {
            Address::Model | Address::PresentPosition | Address::PresentSpeed
            | Address::PresentLoad | Address::PresentVoltage | Address::PresentTemperature
            | Address::Moving | Address::PresentCurrent => Access::Read,
            _ => Access::ReadWrite,
        }
    }

    /// Offset of the low byte of a word register.
    pub fn index_l(&self) -> (r: u8)
        ensures
            r == self.spec_index(),
    {
        self.index()
    }

    /// Offset of the high byte of a word register.
    pub fn index_h(&self) -> (r: u8)
        requires
            self.spec_size() == Size::Word,
        ensures
            r == self.spec_index() + 1,
    {
        self.index() + 1
    }
}

/// The table of `Address::at` agrees with where each register lies.
pub proof fn lemma_at_iff_covers(a: Address, v: int)
    ensures
        Address::at(v) == Some(a) <==> a.covers(v),
{
}

/// Looks up the register at byte offset `value`.
pub fn address_from(value: u8) -> (r: Option<Address>)
    ensures
        r == Address::at(value as int),
{
    match value {
        3 | 4 => Some(Address::Model),
        5 => Some(Address::Id),
        6 => Some(Address::BaudRate),
        9 | 10 => Some(Address::MinAngleLimit),
        11 | 12 => Some(Address::MaxAngleLimit),
        26 => Some(Address::CwDead),
        27 => Some(Address::CcwDead),
        31 | 32 => Some(Address::Ofs),
        33 => Some(Address::Mode),
        40 => Some(Address::TorqueEnable),
        41 => Some(Address::Acceleration),
        42 | 43 => Some(Address::GoalPosition),
        44 | 45 => Some(Address::GoalTime),
        46 | 47 => Some(Address::GoalSpeed),
        55 => Some(Address::Lock),
        56 | 57 => Some(Address::PresentPosition),
        58 | 59 => Some(Address::PresentSpeed),
        60 | 61 => Some(Address::PresentLoad),
        62 => Some(Address::PresentVoltage),
        63 => Some(Address::PresentTemperature),
        66 => Some(Address::Moving),
        69 | 70 => Some(Address::PresentCurrent),
        _ => None,
    }
}

/// Looks up the register at byte offset `value`, only if it may be written.
pub fn writeable_address_from(value: u8) -> (r: Option<Address>)
    ensures
        r == (if Address::writable(value as int) {
            Address::at(value as int)
        } else {
            None
        }),
{
    match value {
        5 => Some(Address::Id),
        6 => Some(Address::BaudRate),
        9 | 10 => Some(Address::MinAngleLimit),
        11 | 12 => Some(Address::MaxAngleLimit),
        26 => Some(Address::CwDead),
        27 => Some(Address::CcwDead),
        31 | 32 => Some(Address::Ofs),
        33 => Some(Address::Mode),
        40 => Some(Address::TorqueEnable),
        41 => Some(Address::Acceleration),
        42 | 43 => Some(Address::GoalPosition),
        44 | 45 => Some(Address::GoalTime),
        46 | 47 => Some(Address::GoalSpeed),
        55 => Some(Address::Lock),
        _ => None,
    }
}

/// Every offset of `[start, start + len)` holds a register that may be written.
pub open spec fn writable_span(start: int, len: int) -> bool {
    forall|i: int| start <= i < start + len ==> #[trigger] Address::writable(i)
}

/// Every offset of `[start, start + len)` holds a register.
pub open spec fn readable_span(start: int, len: int) -> bool {
    forall|i: int| start <= i < start + len ==> #[trigger] Address::known(i)
}

/// A non-empty writable span ends inside the register map.
pub proof fn lemma_writable_span_end(start: int, len: int)
    requires
        0 <= start,
        0 < len,
        writable_span(start, len),
    ensures
        start + len <= 71,
{
    assert(Address::writable(start + len - 1));
}

/// Bytes to store from `start` on; every byte lands in a writable register.
#[derive(Debug)]
pub struct WriteRegion {
    pub(crate) start: u8,
    pub(crate) data: Vec<u8>,
}

impl WriteRegion {
    #[verifier::type_invariant]
    spec fn inv(self) -> bool {
        writable_span(self.start as int, self.data.len() as int)
    }

    pub closed spec fn spec_start(self) -> u8 {
        self.start
    }

    pub closed spec fn spec_data(self) -> Seq<u8> {
        self.data@
    }

    /// Validates that every byte of `data`, stored from `start` on, lands in a
    /// writable register.
    pub fn new(start: u8, data: Vec<u8>) -> (r: Option<Self>)
        ensures
            r is Some <==> writable_span(start as int, data.len() as int),
            r matches Some(w) ==> w.spec_start() == start && w.spec_data() == data@,
    {
        let len = data.len();
        let mut i: usize = 0;
        while i < len
            invariant
                i <= len,
                len == data.len(),
                writable_span(start as int, i as int),
            decreases len - i,
        {
            if i > 255 - start as usize {
                assert(!Address::writable(start + i));
                return None;
            }
            let offset = start as usize + i;
            match address_from(offset as u8) {
                Some(a) => {
                    if !a.access().can_write() {
                        assert(!Address::writable(offset as int));
                        return None;
                    }
                },
                None => {
                    assert(!Address::writable(offset as int));
                    return None;
                },
            }
            i += 1;
        }
        Some(WriteRegion { start, data })
    }

    /// A single byte stored at a writable register.
    pub fn one(address: Address, value: u8) -> (r: Self)
        requires
            address.spec_access() == Access::ReadWrite,
        ensures
            r.spec_start() == address.spec_index(),
            r.spec_data() == seq![value],
    {
        let start = address.index();
        proof {
            lemma_at_iff_covers(address, start as int);
        }
        let data = vec![value];
        WriteRegion { start, data }
    }

    pub fn start(&self) -> (r: u8)
        ensures
            r == self.spec_start(),
            writable_span(r as int, self.spec_data().len() as int),
    {
        proof {
            use_type_invariant(self);
        }
        self.start
    }

    /// The bytes to store, giving up the region.
    pub fn into_data(self) -> (r: Vec<u8>)
        ensures
            r@ == self.spec_data(),
            writable_span(self.spec_start() as int, r.len() as int),
    {
        proof {
            use_type_invariant(&self);
        }
        self.data
    }
}

impl Clone for WriteRegion {
    fn clone(&self) -> (r: Self)
        ensures
            r.spec_start() == self.spec_start(),
            r.spec_data() == self.spec_data(),
    {
        proof {
            use_type_invariant(self);
        }
        WriteRegion { start: self.start, data: self.data.clone() }
    }
}

/// A span of `length` bytes from `start` on; every byte lies in a register.
#[derive(Debug)]
pub struct ReadRegion {
    pub(crate) start: u8,
    pub(crate) length: u8,
}

impl ReadRegion {
    #[verifier::type_invariant]
    spec fn inv(self) -> bool {
        readable_span(self.start as int, self.length as int)
    }

    pub closed spec fn spec_start(self) -> u8 {
        self.start
    }

    pub closed spec fn spec_length(self) -> u8 {
        self.length
    }

    /// Validates that every offset of the span lies in a register.
    pub fn new(start: u8, length: u8) -> (r: Option<Self>)
        ensures
            r is Some <==> readable_span(start as int, length as int),
            r matches Some(g) ==> g.spec_start() == start && g.spec_length() == length,
    {
        let mut i: u8 = 0;
        while i < length
            invariant
                i <= length,
                readable_span(start as int, i as int),
            decreases length - i,
        {
            let offset = start as usize + i as usize;
            if offset > 255 {
                assert(!Address::known(offset as int));
                return None;
            }
            match address_from(offset as u8) {
                Some(a) => {
                    if !a.access().can_read() {
                        return None;
                    }
                },
                None => {
                    assert(!Address::known(offset as int));
                    return None;
                },
            }
            i += 1;
        }
        Some(ReadRegion { start, length })
    }

    /// The first byte of a register.
    pub fn one(address: Address) -> (r: Self)
        ensures
            r.spec_start() == address.spec_index(),
            r.spec_length() == 1,
    {
        let start = address.index();
        proof {
            lemma_at_iff_covers(address, start as int);
        }
        ReadRegion { start, length: 1 }
    }

    pub fn start(&self) -> (r: u8)
        ensures
            r == self.spec_start(),
            readable_span(r as int, self.spec_length() as int),
    {
        proof {
            use_type_invariant(self);
        }
        self.start
    }

    pub fn length(&self) -> (r: u8)
        ensures
            r == self.spec_length(),
    {
        self.length
    }
}

impl Clone for ReadRegion {
    fn clone(&self) -> (r: Self)
        ensures
            r.spec_start() == self.spec_start(),
            r.spec_length() == self.spec_length(),
    {
        proof {
            use_type_invariant(self);
        }
        ReadRegion { start: self.start, length: self.length }
    }
}

} // verus!
