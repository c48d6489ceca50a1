//! Outgoing frames: a destination and an instruction.
use vstd::prelude::*;

use crate::hardware::{Instruction, ID};
use crate::{checksum, crc};

verus! {

/// Header, destination, length, payload and checksum of an outgoing frame.
/// The length byte counts the payload and the checksum byte.
pub open spec fn frame(id: ID, data: Seq<u8>) -> Seq<u8> {
    let body = seq![id.spec_value(), (data.len() + 1) as u8] + data;
    seq![0xffu8, 0xffu8] + body + seq![checksum(body)]
}

/// An instruction addressed to a device, or to every device.
#[derive(Debug)]
pub struct Command {
    pub id: ID,
    pub instruction: Instruction,
}

impl Command {
    /// The bytes that `build` sends.
    pub open spec fn spec_build(self) -> Seq<u8> {
        frame(self.id, self.instruction.spec_data())
    }

    pub fn new(id: ID, instruction: Instruction) -> (r: Self)
        ensures
            r.id == id,
            r.instruction == instruction,
    {
        Command { id, instruction }
    }

    /// Frames the instruction for the wire.
    pub fn build(self) -> (r: Vec<u8>)
        ensures
            r@ == self.spec_build(),
            6 <= r@.len() <= 78,
    {
        let ghost data_spec = self.instruction.spec_data();
        let mut data = self.instruction.data();
        let length = (data.len() + 1) as u8;
        let mut body = vec![self.id.value(), length];
        body.append(&mut data);
        let sum = crc(body.as_slice());
        let mut packet = vec![0xffu8, 0xffu8];
        packet.append(&mut body);
        packet.push(sum);
        proof {
            let b = seq![self.id.spec_value(), (data_spec.len() + 1) as u8] + data_spec;
            assert(packet@ =~= seq![0xffu8, 0xffu8] + b + seq![checksum(b)]);
        }
        packet
    }
}

} // verus!
