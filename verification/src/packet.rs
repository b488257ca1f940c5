//! Plain-value models of the per-tick packets the control loop
//! exchanges with the hardware link: an outbound command buffer and the
//! inbound sensor snapshot. The transport itself lives outside this
//! library; segments only read and write these buffers.

use vstd::prelude::*;

verus! {

/// Number of motor ports on the outbound packet.
pub const MOTOR_PORT_COUNT: usize = 21;

/// Number of three-wire ports on the outbound packet.
pub const TRIPORT_COUNT: usize = 8;

/// One motor command slot. `Voltage` is in millivolt-scale thousandths
/// of full power, `Velocity` in revolutions per minute.
#[derive(Clone, Copy, Debug, PartialEq, Eq, Structural)]
pub enum MotorCmd {
    Unset,
    Voltage(i64),
    Velocity(i64),
    BrakeCoast,
    BrakeBrake,
    BrakeHold,
}

/// One three-wire (pneumatic) port command slot.
#[derive(Clone, Copy, Debug, PartialEq, Eq, Structural)]
pub enum TriportCmd {
    Unset,
    DigitalHigh,
    DigitalLow,
}

/// The single outbound command buffer for one tick; each segment that
/// commands an actuator writes directly into it.
pub struct CmdPacket {
    pub motors: Vec<MotorCmd>,
    pub triports: Vec<TriportCmd>,
}

/// The mathematical contents of a command buffer.
pub struct PktView {
    pub motors: Seq<MotorCmd>,
    pub triports: Seq<TriportCmd>,
}

impl View for CmdPacket {
    type V = PktView;

    open spec fn view(&self) -> PktView {
        PktView { motors: self.motors@, triports: self.triports@ }
    }
}

impl CmdPacket {
    pub open spec fn wf(self) -> bool {
        &&& self.motors@.len() == MOTOR_PORT_COUNT
        &&& self.triports@.len() == TRIPORT_COUNT
    }

    pub fn new() -> (r: CmdPacket)
        ensures
            r.wf(),
            forall|i: int| 0 <= i < MOTOR_PORT_COUNT ==> r.motors@[i] == MotorCmd::Unset,
            forall|i: int| 0 <= i < TRIPORT_COUNT ==> r.triports@[i] == TriportCmd::Unset,
    {
        let mut motors: Vec<MotorCmd> = Vec::new();
        let mut i: usize = 0;
        while i < MOTOR_PORT_COUNT
            invariant
                i <= MOTOR_PORT_COUNT,
                motors@.len() == i,
                forall|j: int| 0 <= j < i ==> motors@[j] == MotorCmd::Unset,
            decreases MOTOR_PORT_COUNT - i,
        {
            motors.push(MotorCmd::Unset);
            i = i + 1;
        }
        let mut triports: Vec<TriportCmd> = Vec::new();
        let mut j: usize = 0;
        while j < TRIPORT_COUNT
            invariant
                j <= TRIPORT_COUNT,
                triports@.len() == j,
                forall|k: int| 0 <= k < j ==> triports@[k] == TriportCmd::Unset,
            decreases TRIPORT_COUNT - j,
        {
            triports.push(TriportCmd::Unset);
            j = j + 1;
        }
        CmdPacket { motors, triports }
    }

    /// Write a command for the motor on 1-based `port`.
    pub fn set_motor(&mut self, port: usize, cmd: MotorCmd)
        requires
            old(self).wf(),
            1 <= port <= MOTOR_PORT_COUNT,
        ensures
            final(self).wf(),
            final(self).motors@ == old(self).motors@.update(port - 1, cmd),
            final(self).triports@ == old(self).triports@,
    {
        self.motors.set(port - 1, cmd);
    }

    /// Write a command for the three-wire port on 1-based `port`.
    pub fn set_triport(&mut self, port: usize, cmd: TriportCmd)
        requires
            old(self).wf(),
            1 <= port <= TRIPORT_COUNT,
        ensures
            final(self).wf(),
            final(self).triports@ == old(self).triports@.update(port - 1, cmd),
            final(self).motors@ == old(self).motors@,
    {
        self.triports.set(port - 1, cmd);
    }
}

/// One encoder slot of the inbound sensor snapshot: a reading in
/// milliradians, or nothing when the sensor was silent this tick.
#[derive(Clone, Copy, Debug, PartialEq, Eq, Structural)]
pub enum EncoderReading {
    Missing,
    Radians(i64),
}

/// Largest representable encoder reading magnitude, in milliradians.
pub const ENCODER_ABS_LIMIT: i64 = 1_000_000_000_000_000;

pub open spec fn encoder_in_range(r: EncoderReading) -> bool {
    match r {
        EncoderReading::Radians(v) => -ENCODER_ABS_LIMIT <= v <= ENCODER_ABS_LIMIT,
        EncoderReading::Missing => true,
    }
}

/// The inbound sensor snapshot the estimator keeps for segments that
/// read raw encoders.
pub struct SensorPacket {
    pub encoders: Vec<EncoderReading>,
}

impl SensorPacket {
    pub open spec fn wf(self) -> bool {
        &&& self.encoders@.len() == MOTOR_PORT_COUNT
        &&& forall|i: int| 0 <= i < self.encoders@.len() ==> encoder_in_range(#[trigger] self.encoders@[i])
    }

    pub fn new() -> (r: SensorPacket)
        ensures
            r.wf(),
            forall|i: int| 0 <= i < MOTOR_PORT_COUNT ==> r.encoders@[i] == EncoderReading::Missing,
    {
        let mut encoders: Vec<EncoderReading> = Vec::new();
        let mut i: usize = 0;
        while i < MOTOR_PORT_COUNT
            invariant
                i <= MOTOR_PORT_COUNT,
                encoders@.len() == i,
                forall|j: int| 0 <= j < i ==> encoders@[j] == EncoderReading::Missing,
            decreases MOTOR_PORT_COUNT - i,
        {
            encoders.push(EncoderReading::Missing);
            i = i + 1;
        }
        SensorPacket { encoders }
    }

    /// Replace the reading of the encoder on 1-based `port`.
    pub fn set_encoder(&mut self, port: usize, reading: EncoderReading)
        requires
            old(self).wf(),
            1 <= port <= MOTOR_PORT_COUNT,
            encoder_in_range(reading),
        ensures
            final(self).wf(),
            final(self).encoders@ == old(self).encoders@.update(port - 1, reading),
    {
        self.encoders.set(port - 1, reading);
    }

    /// An owned copy, element for element.
    pub fn duplicate(&self) -> (r: SensorPacket)
        ensures
            r.encoders@ == self.encoders@,
    {
        let mut encoders: Vec<EncoderReading> = Vec::new();
        let mut i: usize = 0;
        while i < self.encoders.len()
            invariant
                i <= self.encoders@.len(),
                encoders@ == self.encoders@.subrange(0, i as int),
            decreases self.encoders@.len() - i,
        {
            encoders.push(self.encoders[i]);
            i = i + 1;
        }
        proof {
            assert(encoders@ =~= self.encoders@);
        }
        SensorPacket { encoders }
    }
}

} // verus!
