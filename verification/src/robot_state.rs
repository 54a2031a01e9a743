//! Robot identity and touch-sensor records, and the parsing of the textual
//! identity fields that the robot's head-and-body report delivers.

use vstd::prelude::*;

verus! {

/// Identity of the robot's body and head: 20-byte serial strings and
/// single-digit major versions.
#[derive(Clone, Debug)]
pub struct RobotConfiguration {
    pub body_id: Vec<u8>,
    pub body_version: u8,
    pub head_id: Vec<u8>,
    pub head_version: u8,
}

impl RobotConfiguration {
    /// Both identity strings carry exactly 20 bytes, as `parse_id` accepts
    /// them.
    pub open spec fn wf(&self) -> bool {
        self.body_id@.len() == 20 && self.head_id@.len() == 20
    }
}

/// The boolean touch sensors of the robot.
#[derive(Clone, Copy, Debug, PartialEq, Eq, Structural, Default)]
pub struct TouchSensors {
    pub chest_button: bool,
    pub head_front: bool,
    pub head_middle: bool,
    pub head_rear: bool,
    pub left_foot_left: bool,
    pub left_foot_right: bool,
    pub left_hand_back: bool,
    pub left_hand_left: bool,
    pub left_hand_right: bool,
    pub right_foot_left: bool,
    pub right_foot_right: bool,
    pub right_hand_back: bool,
    pub right_hand_left: bool,
    pub right_hand_right: bool,
}

/// An identity string is accepted iff it is exactly 20 bytes long.
pub fn parse_id(bytes: &Vec<u8>) -> (r: Option<Vec<u8>>)
    ensures
        r is Some <==> bytes@.len() == 20,
        r is Some ==> r->Some_0@ == bytes@,
{
    if bytes.len() == 20 {
        let mut out: Vec<u8> = Vec::new();
        let mut i: usize = 0;
        while i < bytes.len()
            invariant
                i <= bytes@.len(),
                out@ == bytes@.take(i as int),
            decreases bytes@.len() - i,
        {
            out.push(bytes[i]);
            proof {
                assert(bytes@.take(i as int).push(bytes@[i as int]) =~= bytes@.take(i as int + 1));
            }
            i = i + 1;
        }
        proof {
            assert(bytes@.take(bytes@.len() as int) =~= bytes@);
        }
        Some(out)
    } else {
        None
    }
}

/// The version is the leading decimal digit of the version string: `None`
/// for an empty string or one that does not start with a digit.
pub fn parse_version(bytes: &Vec<u8>) -> (r: Option<u8>)
    ensures
        r is Some <==> bytes@.len() > 0 && 0x30 <= bytes@[0] <= 0x39,
        r is Some ==> r->Some_0 == bytes@[0] - 0x30,
{
    if bytes.len() == 0 {
        return None;
    }
    let b = bytes[0];
    if 0x30 <= b && b <= 0x39 {
        Some(b - 0x30)
    } else {
        None
    }
}

} // verus!
