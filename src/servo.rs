//! Typed servo settings, the pending-write buffer with its coalescer, and the
//! per-device operations.
use vstd::prelude::*;

use crate::command::Command;
use crate::hardware::address::{lemma_at_iff_covers, Access, Address, Size, WriteRegion};
use crate::hardware::{DriverErrors, Instruction, ID};
use crate::response::Response;
use crate::serial::{Progress, SerialError, Transaction};

verus! {

/// A setting outside its allowed range.
#[derive(Debug, Clone, Copy, PartialEq, Eq, Structural)]
pub enum PropertyError {
    OutOfRange,
}

/// Goal speed, in `[0, 4095]`.
#[derive(Debug, Clone, Copy)]
pub struct Speed(u16);

impl Speed {
    pub const MIN: u16 = 0;

    pub const MAX: u16 = 0xfff;

    #[verifier::type_invariant]
    spec fn inv(self) -> bool {
        self.0 <= 0xfff
    }

    pub closed spec fn spec_raw(self) -> u16 {
        self.0
    }

    pub fn new_raw(value: u16) -> (r: Result<Self, PropertyError>)
        ensures
            r is Ok <==> value <= 0xfff,
            r matches Ok(s) ==> s.spec_raw() == value,
            r matches Err(e) ==> e == PropertyError::OutOfRange,
    {
        if Speed::MIN <= value && value <= Speed::MAX {
            Ok(Speed(value))
        } else {
            Err(PropertyError::OutOfRange)
        }
    }

    pub fn raw(self) -> (r: u16)
        ensures
            r == self.spec_raw(),
            r <= 0xfff,
    {
        proof {
            use_type_invariant(self);
        }
        self.0
    }
}

/// Goal position, in `[0, 4095]`; 4096 steps make a full turn.
#[derive(Debug, Clone, Copy)]
pub struct Position(u16);

impl Position {
    pub const MIN: u16 = 0;

    pub const MAX: u16 = 0xfff;

    #[verifier::type_invariant]
    spec fn inv(self) -> bool {
        self.0 <= 0xfff
    }

    pub closed spec fn spec_raw(self) -> u16 {
        self.0
    }

    pub fn new_raw(value: u16) -> (r: Result<Self, PropertyError>)
        ensures
            r is Ok <==> value <= 0xfff,
            r matches Ok(p) ==> p.spec_raw() == value,
            r matches Err(e) ==> e == PropertyError::OutOfRange,
    {
        if Position::MIN <= value && value <= Position::MAX {
            Ok(Position(value))
        } else {
            Err(PropertyError::OutOfRange)
        }
    }

    pub fn raw(self) -> (r: u16)
        ensures
            r == self.spec_raw(),
            r <= 0xfff,
    {
        proof {
            use_type_invariant(self);
        }
        self.0
    }
}

/// Acceleration, in `[0, 254]`.
#[derive(Debug, Clone, Copy)]
pub struct Acceleration(u8);

impl Acceleration {
    pub const MIN: u8 = 0;

    pub const MAX: u8 = 254;

    #[verifier::type_invariant]
    spec fn inv(self) -> bool {
        self.0 <= 254
    }

    pub closed spec fn spec_raw(self) -> u8 {
        self.0
    }

    pub fn new_raw(value: u8) -> (r: Result<Self, PropertyError>)
        ensures
            r is Ok <==> value <= 254,
            r matches Ok(a) ==> a.spec_raw() == value,
            r matches Err(e) ==> e == PropertyError::OutOfRange,
    {
        if Acceleration::MIN <= value && value <= Acceleration::MAX {
            Ok(Acceleration(value))
        } else {
            Err(PropertyError::OutOfRange)
        }
    }

    pub fn raw(self) -> (r: u8)
        ensures
            r == self.spec_raw(),
            r <= 254,
    {
        proof {
            use_type_invariant(self);
        }
        self.0
    }
}

/// A move described by its raw register values.
#[derive(Debug, Clone, Copy)]
pub struct MoveConfig {
    /// Valid range [0, 254]
    pub acceleration: u8,
    /// Valid range [0, 4096) maps to [0, 360) degrees
    pub position: u16,
    /// Valid range [0, 4096)
    pub speed: u16,
}

/// Low and high byte of a word, when there is one.
pub open spec fn spec_split_word(word: Option<u16>) -> (Option<u8>, Option<u8>) {
    match word {
        Some(v) => (Some((v % 256) as u8), Some((v / 256) as u8)),
        None => (None, None),
    }
}

/// Splits a word into its low and high byte.
pub fn split_word(word: Option<u16>) -> (r: (Option<u8>, Option<u8>))
    ensures
        r == spec_split_word(word),
{
    match word {
        Some(value) => (Some((value % 256) as u8), Some((value / 256) as u8)),
        None => (None, None),
    }
}

/// Offset of the first byte of a write instruction; 0 for other instructions.
pub open spec fn write_start(ins: Instruction) -> int {
    match ins {
        Instruction::Write(w) => w.spec_start() as int,
        _ => 0,
    }
}

/// Bytes of a write instruction; nothing for other instructions.
pub open spec fn write_bytes(ins: Instruction) -> Seq<u8> {
    match ins {
        Instruction::Write(w) => w.spec_data(),
        _ => seq![],
    }
}

/// `bytes`, stored from `start` on, is a maximal run of pending slots of `s`:
/// not empty, every slot pending with that byte, and the slots just before and
/// just after (if any) without a pending value.
pub open spec fn is_run(s: Seq<Option<u8>>, start: int, bytes: Seq<u8>) -> bool {
    &&& 0 < bytes.len()
    &&& 0 <= start
    &&& start + bytes.len() <= s.len()
    &&& forall|t: int| 0 <= t < bytes.len() ==> s[start + t] == Some(#[trigger] bytes[t])
    &&& (start == 0 || s[start - 1] is None)
    &&& (start + bytes.len() == s.len() || s[start + bytes.len()] is None)
}

/// Instruction `ins` writes slot `i`.
pub open spec fn writes_slot(ins: Instruction, i: int) -> bool {
    write_start(ins) <= i < write_start(ins) + write_bytes(ins).len()
}

/// `out` is the list of write instructions for the pending slots `s`: one per
/// maximal run of pending slots, in ascending order of offset, and every
/// pending slot written by one of them.
pub open spec fn coalesced(s: Seq<Option<u8>>, out: Seq<Instruction>) -> bool {
    &&& forall|j: int|
        0 <= j < out.len() ==> #[trigger] out[j] is Write && is_run(
            s,
            write_start(out[j]),
            write_bytes(out[j]),
        )
    &&& forall|j: int, k: int|
        0 <= j < k < out.len() ==> write_start(#[trigger] out[j]) < write_start(#[trigger] out[k])
    &&& forall|i: int|
        0 <= i < s.len() && (#[trigger] s[i]) is Some ==> exists|j: int|
            0 <= j < out.len() && writes_slot(#[trigger] out[j], i)
}

/// A copy of `slots` with the slot at `index` replaced.
fn updated(slots: &Vec<Option<u8>>, index: usize, value: Option<u8>) -> (r: Vec<Option<u8>>)
    requires
        index < slots@.len(),
    ensures
        r@ == slots@.update(index as int, value),
{
    let mut copy: Vec<Option<u8>> = Vec::new();
    let mut i: usize = 0;
    while i < slots.len()
        invariant
            i <= slots@.len(),
            index < slots@.len(),
            copy@ == slots@.update(index as int, value).subrange(0, i as int),
        decreases slots@.len() - i,
    {
        if i == index {
            copy.push(value);
        } else {
            copy.push(slots[i]);
        }
        i += 1;
        assert(copy@ =~= slots@.update(index as int, value).subrange(0, i as int));
    }
    assert(copy@ =~= slots@.update(index as int, value));
    copy
}

/// One past the last slot that instruction `ins` writes.
pub open spec fn write_end(ins: Instruction) -> int {
    write_start(ins) + write_bytes(ins).len()
}

/// Two maximal runs that start at the same slot hold the same bytes.
proof fn lemma_run_from_start(s: Seq<Option<u8>>, start: int, a: Seq<u8>, b: Seq<u8>)
    requires
        is_run(s, start, a),
        is_run(s, start, b),
    ensures
        a == b,
{
    if a.len() < b.len() {
        assert(s[start + a.len()] == Some(b[a.len() as int]));
    } else if b.len() < a.len() {
        assert(s[start + b.len()] == Some(a[b.len() as int]));
    }
    assert forall|t: int| 0 <= t < a.len() implies a[t] == b[t] by {
        assert(s[start + t] == Some(a[t]));
        assert(s[start + t] == Some(b[t]));
    }
    assert(a =~= b);
}

/// In a coalesced list, a later write starts past a free slot after an
/// earlier one.
proof fn lemma_runs_apart(s: Seq<Option<u8>>, out: Seq<Instruction>, j: int, k: int)
    requires
        coalesced(s, out),
        0 <= j < k < out.len(),
    ensures
        write_end(out[j]) < write_start(out[k]),
{
    let sj = write_start(out[j]);
    let sk = write_start(out[k]);
    assert(out[j] is Write && is_run(s, sj, write_bytes(out[j])));
    assert(out[k] is Write && is_run(s, sk, write_bytes(out[k])));
    assert(sj < sk);
    if sk <= write_end(out[j]) {
        assert(s[sj + (sk - 1 - sj)] == Some(write_bytes(out[j])[sk - 1 - sj]));
    }
}

/// In a coalesced list, no slot before the first write, and none between two
/// consecutive writes, is pending; nor is any slot after the last write.
proof fn lemma_no_pending_outside(s: Seq<Option<u8>>, out: Seq<Instruction>, x: int, j: int)
    requires
        coalesced(s, out),
        0 <= x < s.len(),
        0 <= j <= out.len(),
        j == 0 || write_end(out[j - 1]) <= x,
        j == out.len() || x < write_start(out[j]),
    ensures
        s[x] is None,
{
    if s[x] is Some {
        let k = choose|k: int| 0 <= k < out.len() && writes_slot(#[trigger] out[k], x);
        if k < j - 1 {
            lemma_runs_apart(s, out, k, j - 1);
        } else if k > j {
            lemma_runs_apart(s, out, j, k);
        }
    }
}

/// Two coalesced lists of the same slots agree on their first `n` writes.
proof fn lemma_coalesced_agree(s: Seq<Option<u8>>, a: Seq<Instruction>, b: Seq<Instruction>, n: int)
    requires
        coalesced(s, a),
        coalesced(s, b),
        0 <= n <= a.len(),
        n <= b.len(),
    ensures
        forall|j: int|
            0 <= j < n ==> write_start(#[trigger] a[j]) == write_start(b[j]) && write_bytes(a[j])
                == write_bytes(b[j]),
    decreases n,
{
    if n > 0 {
        lemma_coalesced_agree(s, a, b, n - 1);
        let j = n - 1;
        let sa = write_start(a[j]);
        let sb = write_start(b[j]);
        assert(a[j] is Write && is_run(s, sa, write_bytes(a[j])));
        assert(b[j] is Write && is_run(s, sb, write_bytes(b[j])));
        assert(s[sa + 0] == Some(write_bytes(a[j])[0]));
        assert(s[sb + 0] == Some(write_bytes(b[j])[0]));
        if j > 0 {
            assert(write_start(a[j - 1]) == write_start(b[j - 1]));
            assert(write_end(a[j - 1]) == write_end(b[j - 1]));
            lemma_runs_apart(s, a, j - 1, j);
            lemma_runs_apart(s, b, j - 1, j);
        }
        if sa < sb {
            lemma_no_pending_outside(s, b, sa, j);
        } else if sb < sa {
            lemma_no_pending_outside(s, a, sb, j);
        }
        lemma_run_from_start(s, sa, write_bytes(a[j]), write_bytes(b[j]));
    }
}

/// The write list for a set of pending slots is determined by them: any two
/// lists that each hold one write per maximal run, in ascending order, and
/// cover every pending slot, write the same bytes at the same offsets.
pub proof fn lemma_coalesced_unique(s: Seq<Option<u8>>, a: Seq<Instruction>, b: Seq<Instruction>)
    requires
        coalesced(s, a),
        coalesced(s, b),
    ensures
        a.len() == b.len(),
        forall|j: int|
            0 <= j < a.len() ==> write_start(#[trigger] a[j]) == write_start(b[j]) && write_bytes(a[j])
                == write_bytes(b[j]),
{
    lemma_no_longer(s, a, b);
    lemma_no_longer(s, b, a);
    lemma_coalesced_agree(s, a, b, a.len() as int);
}

/// A coalesced list cannot be longer than another coalesced list of the same
/// slots.
proof fn lemma_no_longer(s: Seq<Option<u8>>, a: Seq<Instruction>, b: Seq<Instruction>)
    requires
        coalesced(s, a),
        coalesced(s, b),
    ensures
        a.len() <= b.len(),
{
    if a.len() > b.len() {
        let m = b.len() as int;
        lemma_coalesced_agree(s, a, b, m);
        let sa = write_start(a[m]);
        assert(a[m] is Write && is_run(s, sa, write_bytes(a[m])));
        assert(s[sa + 0] == Some(write_bytes(a[m])[0]));
        if m > 0 {
            assert(write_start(a[m - 1]) == write_start(b[m - 1]));
            assert(write_end(a[m - 1]) == write_end(b[m - 1]));
            lemma_runs_apart(s, a, m - 1, m);
        }
        lemma_no_pending_outside(s, b, sa, m);
    }
}

/// Pending register writes, one slot per byte offset below 56; a slot holds
/// the byte to store, or nothing.
#[derive(Debug)]
pub struct Assign(Vec<Option<u8>>);

impl View for Assign {
    type V = Seq<Option<u8>>;

    closed spec fn view(&self) -> Seq<Option<u8>> {
        slots_view(self.0@)
    }
}

/// The contents held by stored slots: 56 of them, pending only where a
/// writable register lies.
spec fn slots_view(slots: Seq<Option<u8>>) -> Seq<Option<u8>> {
    Seq::new(
        56,
        |i: int|
            if i < slots.len() && Address::writable(i) {
                slots[i]
            } else {
                None
            },
    )
}

/// Well-formed stored slots are their own contents.
proof fn lemma_slots_view(slots: Seq<Option<u8>>)
    requires
        slots.len() == 56,
        pending_writable(slots),
    ensures
        slots_view(slots) == slots,
{
    assert forall|i: int| 0 <= i < 56 implies slots_view(slots)[i] == slots[i] by {
        if !Address::writable(i) {
            assert(!(slots[i] is Some));
        }
    }
    assert(slots_view(slots) =~= slots);
}

/// Every pending slot lies in a writable register.
pub open spec fn pending_writable(s: Seq<Option<u8>>) -> bool {
    forall|i: int| 0 <= i < s.len() && (#[trigger] s[i]) is Some ==> Address::writable(i)
}

/// No slot pending.
pub open spec fn no_pending() -> Seq<Option<u8>> {
    Seq::new(56, |i: int| None)
}

impl Assign {
    /// A batch always has 56 slots, and a slot is pending only at an offset
    /// that holds a writable register.
    pub proof fn lemma_well_formed(self)
        ensures
            self@.len() == 56,
            pending_writable(self@),
    {
    }
}

impl Clone for Assign {
    fn clone(&self) -> (r: Self)
        ensures
            r@ == self@,
    {
        proof {
            use_type_invariant(self);
            lemma_slots_view(self.0@);
        }
        let mut slots: Vec<Option<u8>> = Vec::new();
        let mut i: usize = 0;
        while i < self.0.len()
            invariant
                i <= self.0@.len(),
                slots@ == self.0@.subrange(0, i as int),
            decreases self.0@.len() - i,
        {
            slots.push(self.0[i]);
            i += 1;
            assert(slots@ =~= self.0@.subrange(0, i as int));
        }
        assert(slots@ =~= self.0@);
        proof {
            lemma_slots_view(slots@);
        }
        Assign(slots)
    }
}

impl Default for Assign {
    fn default() -> (r: Self)
        ensures
            r@ == no_pending(),
    {
        let mut slots: Vec<Option<u8>> = Vec::new();
        let mut i: usize = 0;
        while i < Assign::MAX_ADDRESS
            invariant
                i <= 56,
                slots@ == Seq::new(i as nat, |k: int| None::<u8>),
            decreases 56 - i,
        {
            slots.push(None);
            i += 1;
            assert(slots@ =~= Seq::new(i as nat, |k: int| None::<u8>));
        }
        proof {
            lemma_slots_view(slots@);
            assert(slots@ =~= no_pending());
        }
        Assign(slots)
    }
}

impl Assign {
    pub const MAX_ADDRESS: usize = 56;

    #[verifier::type_invariant]
    spec fn inv(self) -> bool {
        &&& self.0@.len() == 56
        &&& pending_writable(self.0@)
    }

    /// Sets acceleration, goal position and goal speed in one batch. The goal
    /// time between them is set to zero so that all of it is one contiguous
    /// write.
    pub fn set_position_goal(position: Position, speed: Speed, acceleration: Acceleration) -> (r: Self)
        ensures
            r@ == no_pending().update(41, Some(acceleration.spec_raw())).update(
                42,
                spec_split_word(Some(position.spec_raw())).0,
            ).update(43, spec_split_word(Some(position.spec_raw())).1).update(
                44,
                Some(0u8),
            ).update(45, Some(0u8)).update(46, spec_split_word(Some(speed.spec_raw())).0).update(
                47,
                spec_split_word(Some(speed.spec_raw())).1,
            ),
    {
        let mut order = Assign::default();
        order.set_acceleration(Some(acceleration));
        order.set_position(Some(position));
        order.set_speed(Some(speed));
        order.set_word(Address::GoalTime, Some(0));
        proof {
            assert(order@ =~= no_pending().update(41, Some(acceleration.spec_raw())).update(
                42,
                spec_split_word(Some(position.spec_raw())).0,
            ).update(43, spec_split_word(Some(position.spec_raw())).1).update(
                44,
                Some(0u8),
            ).update(45, Some(0u8)).update(46, spec_split_word(Some(speed.spec_raw())).0).update(
                47,
                spec_split_word(Some(speed.spec_raw())).1,
            ));
        }
        order
    }

    pub fn set_acceleration(&mut self, acceleration: Option<Acceleration>)
        ensures
            final(self)@ == old(self)@.update(
                41,
                match acceleration {
                    Some(a) => Some(a.spec_raw()),
                    None => None,
                },
            ),
    {
        let value = match acceleration {
            Some(a) => Some(a.raw()),
            None => None,
        };
        self.set_byte(Address::Acceleration, value);
    }

    pub fn set_position(&mut self, position: Option<Position>)
        ensures
            final(self)@ == old(self)@.update(
                42,
                spec_split_word(
                    match position {
                        Some(p) => Some(p.spec_raw()),
                        None => None,
                    },
                ).0,
            ).update(
                43,
                spec_split_word(
                    match position {
                        Some(p) => Some(p.spec_raw()),
                        None => None,
                    },
                ).1,
            ),
    {
        let value = match position {
            Some(p) => Some(p.raw()),
            None => None,
        };
        self.set_word(Address::GoalPosition, value);
    }

    pub fn set_speed(&mut self, speed: Option<Speed>)
        ensures
            final(self)@ == old(self)@.update(
                46,
                spec_split_word(
                    match speed {
                        Some(s) => Some(s.spec_raw()),
                        None => None,
                    },
                ).0,
            ).update(
                47,
                spec_split_word(
                    match speed {
                        Some(s) => Some(s.spec_raw()),
                        None => None,
                    },
                ).1,
            ),
    {
        let value = match speed {
            Some(s) => Some(s.raw()),
            None => None,
        };
        self.set_word(Address::GoalSpeed, value);
    }

    /// Compiles the pending slots into write instructions: one per maximal
    /// run of pending slots, in ascending order of offset.
    pub fn get_instructions(&self) -> (r: Vec<Instruction>)
        ensures
            coalesced(self@, r@),
    {
        proof {
            use_type_invariant(self);
            lemma_slots_view(self.0@);
        }
        let n = self.0.len();
        let ghost s = self@;
        let mut out: Vec<Instruction> = Vec::new();
        let mut run_start: usize = 0;
        let mut collected: Vec<u8> = Vec::new();
        let mut i: usize = 0;
        while i <= n
            invariant
                n == 56,
                s == self.0@,
                s.len() == n,
                pending_writable(s),
                i <= n + 1,
                collected@.len() <= i,
                collected@.len() > 0 ==> {
                    &&& run_start + collected@.len() == i
                    &&& i <= n
                    &&& (run_start == 0 || s[run_start - 1] is None)
                    &&& forall|t: int|
                        0 <= t < collected@.len() ==> s[run_start + t] == Some(
                            #[trigger] collected@[t],
                        )
                },
                0 < i <= n && s[i - 1] is Some ==> collected@.len() > 0,
                forall|j: int|
                    0 <= j < out@.len() ==> {
                        &&& #[trigger] out@[j] is Write
                        &&& is_run(s, write_start(out@[j]), write_bytes(out@[j]))
                        &&& write_start(out@[j]) + write_bytes(out@[j]).len() < i
                            - collected@.len()
                    },
                forall|j: int, k: int|
                    0 <= j < k < out@.len() ==> write_start(#[trigger] out@[j]) < write_start(
                        #[trigger] out@[k],
                    ),
                forall|x: int|
                    0 <= x < s.len() && x < i - collected@.len() && (#[trigger] s[x]) is Some
                        ==> exists|j: int| 0 <= j < out@.len() && writes_slot(#[trigger] out@[j], x),
            decreases n + 1 - i,
        {
            let slot = if i < n {
                self.0[i]
            } else {
                None
            };
            match slot {
                Some(v) => {
                    if collected.len() == 0 {
                        run_start = i;
                    }
                    collected.push(v);
                },
                None => {
                    if collected.len() > 0 {
                        let ghost bytes = collected@;
                        let ghost start = run_start as int;
                        let ghost old_out = out@;
                        assert forall|x: int| start <= x < start + bytes.len() implies Address::writable(
                            x,
                        ) by {
                            assert(s[start + (x - start)] == Some(bytes[x - start]));
                        }
                        let region = WriteRegion::new(run_start as u8, collected).unwrap();
                        out.push(Instruction::write(region));
                        collected = Vec::new();
                        proof {
                            let last = out@.len() - 1;
                            assert(out@[last] == Instruction::Write(region));
                            assert(write_start(out@[last]) == start);
                            assert(write_bytes(out@[last]) == bytes);
                            assert forall|x: int|
                                0 <= x < s.len() && x < i + 1 && (#[trigger] s[x]) is Some
                                    implies exists|j: int|
                                0 <= j < out@.len() && writes_slot(#[trigger] out@[j], x) by {
                                if x >= start {
                                    assert(writes_slot(out@[last], x));
                                } else {
                                    let j = choose|j: int|
                                        0 <= j < old_out.len() && writes_slot(
                                            #[trigger] old_out[j],
                                            x,
                                        );
                                    assert(out@[j] == old_out[j]);
                                    assert(writes_slot(out@[j], x));
                                }
                            }
                        }
                    }
                },
            }
            i += 1;
        }
        out
    }

    /// Sets or clears the pending value of a one-byte writable register.
    pub fn set_byte(&mut self, address: Address, value: Option<u8>)
        requires
            address.spec_size() == Size::Byte,
            address.spec_access() == Access::ReadWrite,
        ensures
            final(self)@ == old(self)@.update(address.spec_index() as int, value),
    {
        proof {
            use_type_invariant(&*self);
            lemma_slots_view(self.0@);
            lemma_at_iff_covers(address, address.spec_index() as int);
        }
        let index = address.index() as usize;
        let slots = updated(&self.0, index, value);
        proof {
            lemma_slots_view(slots@);
        }
        self.0 = slots;
    }

    /// Sets or clears the pending value of a two-byte writable register, low
    /// byte first.
    pub fn set_word(&mut self, address: Address, value: Option<u16>)
        requires
            address.spec_size() == Size::Word,
            address.spec_access() == Access::ReadWrite,
        ensures
            final(self)@ == old(self)@.update(
                address.spec_index() as int,
                spec_split_word(value).0,
            ).update(address.spec_index() + 1, spec_split_word(value).1),
    {
        proof {
            use_type_invariant(&*self);
            lemma_slots_view(self.0@);
            lemma_at_iff_covers(address, address.spec_index() as int);
            lemma_at_iff_covers(address, address.spec_index() + 1);
        }
        let (l, h) = split_word(value);
        let index_l = address.index_l() as usize;
        let index_h = address.index_h() as usize;
        let low = updated(&self.0, index_l, l);
        let slots = updated(&low, index_h, h);
        proof {
            lemma_slots_view(slots@);
        }
        self.0 = slots;
    }
}

/// Why a device operation failed.
#[derive(Debug)]
pub enum ServoError {
    Serial(SerialError),
    Driver(DriverErrors),
    NoResponse,
}

/// What an operation that needs a reply makes of an exchange's outcome.
pub open spec fn expected(value: Result<Option<Response>, SerialError>) -> Result<Response, ServoError> {
    match value {
        Err(e) => Err(ServoError::Serial(e)),
        Ok(None) => Err(ServoError::NoResponse),
        Ok(Some(x)) => Ok(x),
    }
}

/// Turns an exchange's outcome into a reply, with no reply an error.
pub fn expect_response(value: Result<Option<Response>, SerialError>) -> (r: Result<Response, ServoError>)
    ensures
        r == expected(value),
{
    match value {
        Err(e) => Err(ServoError::Serial(e)),
        Ok(None) => Err(ServoError::NoResponse),
        Ok(Some(x)) => Ok(x),
    }
}

/// A ping to a single device waits for a reply's header once written; when
/// nothing arrives there, the exchange ends with no reply and the ping with
/// `NoResponse`.
pub proof fn lemma_silent_ping_no_response(servo: Servo)
    requires
        servo.spec_id() is Single,
    ensures
        Transaction::initial(servo.spec_id()).after_written() == Progress::Read(
            Transaction::AwaitingHeader,
            4,
        ),
        Transaction::AwaitingHeader.after_silent() == Progress::Done(Ok(None)),
        expected(Ok(None)) == Err::<Response, ServoError>(ServoError::NoResponse),
{
}

/// The steps of giving a device a new identifier. The configuration area is
/// unlocked first and locked again last, whatever failed in between.
#[derive(Debug)]
pub enum Reassign {
    /// The unlock is being written.
    Unlocking { new_id: ID },
    /// The new identifier is being written.
    Writing { new_id: ID },
    /// The lock is being written; `outcome` is what the operation returns
    /// unless an earlier step already failed.
    Locking { outcome: Result<Response, ServoError> },
}

/// What follows a step of `Reassign`.
#[derive(Debug)]
pub enum ReassignProgress {
    /// Exchange this command, then report its outcome.
    Send(Reassign, Command),
    /// The operation is over.
    Done(Result<Response, ServoError>),
}

/// A device on the bus, known by its identifier.
pub struct Servo {
    id: ID,
}

impl Servo {
    pub closed spec fn spec_id(self) -> ID {
        self.id
    }

    pub fn new(id: ID) -> (r: Self)
        ensures
            r.spec_id() == id,
    {
        Servo { id }
    }

    pub fn id(&self) -> (r: ID)
        ensures
            r == self.spec_id(),
    {
        self.id
    }

    /// The ping for this device.
    pub fn ping_command(&self) -> (r: Command)
        ensures
            r.id == self.spec_id(),
            r.instruction is Ping,
    {
        Command::new(self.id, Instruction::ping())
    }

    /// The writes of a batch, for this device, in ascending order of offset.
    pub fn write_commands(&self, assign: &Assign) -> (r: Vec<Command>)
        ensures
            forall|j: int| 0 <= j < r@.len() ==> (#[trigger] r@[j]).id == self.spec_id(),
            coalesced(assign@, r@.map_values(|c: Command| c.instruction)),
    {
        let mut instructions = assign.get_instructions();
        let ghost all = instructions@;
        let mut commands: Vec<Command> = Vec::new();
        let mut i: usize = 0;
        let n = instructions.len();
        while i < n
            invariant
                n == all.len(),
                i <= n,
                instructions@ == all.subrange(i as int, n as int),
                commands@.len() == i,
                forall|k: int|
                    0 <= k < i ==> (#[trigger] commands@[k]).id == self.id
                        && commands@[k].instruction == all[k],
            decreases n - i,
        {
            let instruction = instructions.remove(0);
            commands.push(Command::new(self.id, instruction));
            i += 1;
        }
        assert(commands@.map_values(|c: Command| c.instruction) =~= all);
        commands
    }

    /// Stores the lock flag of the configuration area.
    fn eeprom_lock_command(&self, locked: bool) -> (r: Command)
        ensures
            r.id == self.id,
            r.instruction.spec_data() == seq![3u8, 55u8, if locked { 1u8 } else { 0u8 }],
    {
        let value: u8 = if locked {
            1
        } else {
            0
        };
        let region = WriteRegion::one(Address::Lock, value);
        Command::new(self.id, Instruction::write(region))
    }

    /// Starts giving this device a new identifier: the first step unlocks the
    /// configuration area.
    pub fn begin_write_id(&self, new_id: ID) -> (r: (Reassign, Command))
        ensures
            r.0 == (Reassign::Unlocking { new_id }),
            r.1.id == self.spec_id(),
            r.1.instruction.spec_data() == seq![3u8, 55u8, 0u8],
    {
        (Reassign::Unlocking { new_id }, self.eeprom_lock_command(false))
    }

    /// Takes the outcome of a step of giving this device a new identifier.
    /// After the unlock comes the write of the identifier, to the current
    /// identifier; the identifier kept here changes only when the device
    /// replies to that write. The lock follows in every case, and is sent to
    /// the identifier kept here. A failed exchange, or no reply from a single
    /// device, fails its step. The result is the reply to the write, or the
    /// first failure.
    pub fn advance_write_id(&mut self, step: Reassign, outcome: Result<Option<Response>, SerialError>) -> (r: ReassignProgress)
        ensures
            match step {
                Reassign::Writing { new_id } => outcome matches Ok(Some(_))
                    ==> final(self).spec_id() == new_id,
                _ => true,
            },
            !(step is Writing && outcome matches Ok(Some(_))) ==> final(self).spec_id()
                == old(self).spec_id(),
            match step {
                Reassign::Unlocking { new_id } => r matches ReassignProgress::Send(next, c) && {
                    &&& c.id == old(self).spec_id()
                    &&& match acknowledged(old(self).spec_id(), outcome) {
                        Ok(_) => next == (Reassign::Writing { new_id }) && c.instruction.spec_data()
                            == seq![3u8, 5u8, new_id.spec_value()],
                        Err(e) => next == (Reassign::Locking { outcome: Err(e) })
                            && c.instruction.spec_data() == seq![3u8, 55u8, 1u8],
                    }
                },
                Reassign::Writing { new_id } => r matches ReassignProgress::Send(next, c) && next
                    == (Reassign::Locking { outcome: expected(outcome) }) && c.id == final(self).spec_id() && c.instruction.spec_data() == seq![3u8, 55u8, 1u8],
                Reassign::Locking { outcome: result } => r == ReassignProgress::Done(
                    match (result, acknowledged(old(self).spec_id(), outcome)) {
                        (Ok(_), Err(e)) => Err(e),
                        _ => result,
                    },
                ),
            },
    {
        match step {
            Reassign::Unlocking { new_id } => match acknowledge(self.id, outcome) {
                Ok(()) => {
                    let region = WriteRegion::one(Address::Id, new_id.value());
                    let command = Command::new(self.id, Instruction::write(region));
                    ReassignProgress::Send(Reassign::Writing { new_id }, command)
                },
                Err(e) => {
                    let failed = Reassign::Locking { outcome: Err(e) };
                    ReassignProgress::Send(failed, self.eeprom_lock_command(true))
                },
            },
            Reassign::Writing { new_id } => {
                let result = expect_response(outcome);
                if result.is_ok() {
                    self.id = new_id;
                }
                ReassignProgress::Send(
                    Reassign::Locking { outcome: result },
                    self.eeprom_lock_command(true),
                )
            },
            Reassign::Locking { outcome: result } => match (result, acknowledge(self.id, outcome)) {
                (Ok(_), Err(e)) => ReassignProgress::Done(Err(e)),
                (result, _) => ReassignProgress::Done(result),
            },
        }
    }

    /// Starts writing a batch: its first write, or the end when nothing is
    /// pending.
    pub fn begin_write(&self, assign: &Assign) -> (r: WriteProgress)
        ensures
            forall|j: int|
                0 <= j < r.commands().len() ==> (#[trigger] r.commands()[j]).id == self.spec_id(),
            coalesced(assign@, r.commands().map_values(|c: Command| c.instruction)),
            r is Done ==> r == WriteProgress::Done(Ok(())),
    {
        let commands = self.write_commands(assign);
        let r = BatchWrite { remaining: commands }.next();
        proof {
            assert(r.commands() =~= commands@);
        }
        r
    }

    /// Takes the outcome of one write of a batch: a failed exchange, or no
    /// reply from a single device, ends the batch with that failure; writes
    /// already made stay made. Otherwise the next write follows, or the end.
    pub fn advance_write(&self, batch: BatchWrite, outcome: Result<Option<Response>, SerialError>) -> (r: WriteProgress)
        ensures
            match acknowledged(self.spec_id(), outcome) {
                Err(e) => r == WriteProgress::Done(Err(e)),
                Ok(_) => r.commands() == batch.remaining@ && (r is Done ==> r
                    == WriteProgress::Done(Ok(()))),
            },
    {
        match acknowledge(self.id, outcome) {
            Err(e) => WriteProgress::Done(Err(e)),
            Ok(()) => batch.next(),
        }
    }
}

/// Writes of a batch not yet sent, in the order they go out.
#[derive(Debug)]
pub struct BatchWrite {
    pub remaining: Vec<Command>,
}

/// What follows a write of a batch.
#[derive(Debug)]
pub enum WriteProgress {
    /// Exchange this command, then report its outcome.
    Send(BatchWrite, Command),
    /// The batch is over.
    Done(Result<(), ServoError>),
}

impl WriteProgress {
    /// The writes still to go out, this one first.
    pub open spec fn commands(self) -> Seq<Command> {
        match self {
            WriteProgress::Send(rest, c) => seq![c] + rest.remaining@,
            WriteProgress::Done(_) => seq![],
        }
    }
}

impl BatchWrite {
    /// The next write, or the end of the batch.
    fn next(self) -> (r: WriteProgress)
        ensures
            r.commands() == self.remaining@,
            r is Done ==> r == WriteProgress::Done(Ok(())),
    {
        let mut remaining = self.remaining;
        if remaining.len() == 0 {
            WriteProgress::Done(Ok(()))
        } else {
            let ghost all = remaining@;
            let first = remaining.remove(0);
            proof {
                assert(seq![first] + remaining@ =~= all);
            }
            WriteProgress::Send(BatchWrite { remaining }, first)
        }
    }
}

/// What a step that needs no data makes of an exchange's outcome, for a
/// command sent to `id`: a failed exchange, or no reply from a single device,
/// is a failure; anything else completes the step.
pub open spec fn acknowledged(id: ID, value: Result<Option<Response>, SerialError>) -> Result<(), ServoError> {
    match value {
        Err(e) => Err(ServoError::Serial(e)),
        Ok(None) => if id is Single {
            Err(ServoError::NoResponse)
        } else {
            Ok(())
        },
        Ok(Some(_)) => Ok(()),
    }
}

/// Checks an exchange's outcome for a step that needs no data.
pub fn acknowledge(id: ID, value: Result<Option<Response>, SerialError>) -> (r: Result<(), ServoError>)
    ensures
        r == acknowledged(id, value),
{
    match value {
        Err(e) => Err(ServoError::Serial(e)),
        Ok(None) => match id {
            ID::Single(_) => Err(ServoError::NoResponse),
            ID::Broadcast => Ok(()),
        },
        Ok(Some(_)) => Ok(()),
    }
}

} // verus!
