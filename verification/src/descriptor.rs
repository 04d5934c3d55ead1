//! Hardware descriptors: the static truth about one robot form.
//!
//! A descriptor says which servos exist, what their Dynamixel IDs and limits are, where the
//! IMU sits, and what extra perception the form carries. The joint *order* is the order the
//! control loop indexes and the IPC layer serialises.
//!
//! Joint limits are radians held as IEEE-754 binary64 bit patterns (see
//! [`crate::limit_bits`]); reading a manifest file and decoding its YAML happen outside
//! this library, which receives the decoded descriptor and checks it.

use vstd::prelude::*;

use crate::limit_bits;

verus! {

/// The outside type of a failed read from the filesystem.
#[verifier::external_type_specification]
#[verifier::external_body]
pub struct ExIoError(std::io::Error);

/// The outside type of a YAML decoding failure.
#[verifier::external_type_specification]
#[verifier::external_body]
pub struct ExYamlError(serde_yaml::Error);

/// The bus a device hangs off.
#[derive(Debug, Clone, Copy, PartialEq, Eq, Structural)]
pub enum BusKind {
    Dynamixel,
    I2c,
}

/// The motor bus, as the descriptor sizes it. `rate` is the control-loop frequency the
/// form is tuned for; `baud` is the wire speed the drivers open the port with.
#[derive(Debug, Clone, Copy, PartialEq, Eq, Structural)]
pub struct Bus {
    /// The underlying transport.
    pub kind: BusKind,
    /// Control-loop frequency, Hz.
    pub rate: u8,
    /// Wire baud if the bus is serial.
    pub baud: u32,
}

/// One joint. `limit` is the actuator travel `(min, max)` in radians, each end held as an
/// IEEE-754 binary64 bit pattern.
#[derive(Debug)]
pub struct Joint {
    /// Dynamixel ID on the bus. Must be unique across the form.
    pub id: u8,
    /// Canonical name, as the wire order spells it (e.g. `left_hip_pitch`).
    pub name: String,
    /// Actuator travel `(min, max)`, radians, as binary64 bit patterns.
    pub limit: (u64, u64),
}

/// The IMU: the bus it hangs off and its device address there.
#[derive(Debug, Clone, Copy, PartialEq, Eq, Structural)]
pub struct Imu {
    pub bus: BusKind,
    /// Device address on that bus.
    pub id: u8,
}

/// A time-of-flight array, e.g. an 8x8 VL53L1 at I2C 0x29.
#[derive(Debug, Clone, Copy, PartialEq, Eq, Structural)]
pub struct Tof {
    pub bus: BusKind,
    pub id: u8,
}

/// A camera: interface kind (e.g. `mipi`) and resolution `(width, height)`.
#[derive(Debug, PartialEq, Eq)]
pub struct Camera {
    pub kind: String,
    pub resolution: (u16, u16),
}

/// An LED expression screen, e.g. the doge's 64x64 face.
#[derive(Debug, PartialEq, Eq)]
pub struct Expression {
    /// Interface kind, e.g. `spi`.
    pub kind: String,
    pub resolution: (u16, u16),
}

impl Clone for Joint {
    fn clone(&self) -> (r: Self)
        ensures
            r == *self,
    {
        Joint { id: self.id, name: self.name.clone(), limit: self.limit }
    }
}

impl Clone for Camera {
    fn clone(&self) -> (r: Self)
        ensures
            r == *self,
    {
        Camera { kind: self.kind.clone(), resolution: self.resolution }
    }
}

impl Clone for Expression {
    fn clone(&self) -> (r: Self)
        ensures
            r == *self,
    {
        Expression { kind: self.kind.clone(), resolution: self.resolution }
    }
}

/// Extra perception; presence is the cardinal fact.
#[derive(Debug, Clone, PartialEq, Eq)]
pub struct Perception {
    pub tof: Option<Tof>,
    pub camera: Option<Camera>,
    pub mic: Option<bool>,
    /// An LED expression screen; `resolution` is `(width, height)` in pixels.
    pub expression: Option<Expression>,
}

impl Default for Perception {
    /// No perception device at all.
    fn default() -> (p: Self)
        ensures
            p.tof is None,
            p.camera is None,
            p.mic is None,
            p.expression is None,
    {
        Perception { tof: None, camera: None, mic: None, expression: None }
    }
}

/// The compute board.
#[derive(Debug, Clone, PartialEq, Eq)]
pub struct Compute {
    pub soc: String,
    pub ram_gb: u8,
    pub storage_gb: u8,
}

/// Power source; informational.
#[derive(Debug, Clone, PartialEq, Eq)]
pub struct Power {
    pub battery: String,
    pub capacity_mah: Option<u32>,
    pub runtime_min: Option<u32>,
}

/// The full hardware descriptor of one form.
#[derive(Debug, Clone)]
pub struct HardwareDescriptor {
    /// Form name, e.g. "Vibe Chicken".
    pub name: String,
    /// Semantic version of the descriptor, not of the OS.
    pub version: String,
    /// The motor bus.
    pub bus: Bus,
    /// Joints, in the control loop's index order.
    pub joints: Vec<Joint>,
    pub imu: Imu,
    pub perception: Perception,
    pub compute: Compute,
    pub power: Option<Power>,
}

/// The form identifier: the value reported as the robot model on health.
#[derive(Debug, Clone, Copy, PartialEq, Eq, Structural)]
pub enum Form {
    Chicken,
    Cat,
    Doge,
}

impl Form {
    /// The canonical slug of the form; also the file base name of its manifest.
    pub open spec fn spec_slug(self) -> Seq<char> {
        match self {
            Form::Chicken => "chicken"@,
            Form::Cat => "cat"@,
            Form::Doge => "doge"@,
        }
    }

    /// The human title of the form.
    pub open spec fn spec_title(self) -> Seq<char> {
        match self {
            Form::Chicken => "Vibe Chicken"@,
            Form::Cat => "Vibe Cat"@,
            Form::Doge => "Vibe Doge"@,
        }
    }

    /// The canonical slug; also the file base name of the form's manifest.
    pub fn slug(self) -> (s: &'static str)
        ensures
            s@ == self.spec_slug(),
    {
        match self {
            Form::Chicken => "chicken",
            Form::Cat => "cat",
            Form::Doge => "doge",
        }
    }

    /// Human title, as the site spells it.
    pub fn title(self) -> (t: &'static str)
        ensures
            t@ == self.spec_title(),
    {
        match self {
            Form::Chicken => "Vibe Chicken",
            Form::Cat => "Vibe Cat",
            Form::Doge => "Vibe Doge",
        }
    }
}

/// Each form has its own slug (its own manifest file) and its own title: two forms with the
/// same slug, or with the same title, are the same form.
pub proof fn lemma_slug_and_title_identify_the_form(a: Form, b: Form)
    ensures
        a.spec_slug() == b.spec_slug() ==> a == b,
        a.spec_title() == b.spec_title() ==> a == b,
{
    reveal_strlit("chicken");
    reveal_strlit("cat");
    reveal_strlit("doge");
    reveal_strlit("Vibe Chicken");
    reveal_strlit("Vibe Cat");
    reveal_strlit("Vibe Doge");
    if a != b {
        assert(a.spec_slug().len() != b.spec_slug().len() || a.spec_slug()[0] != b.spec_slug()[0]);
        assert(a.spec_title().len() != b.spec_title().len());
    }
}

/// Why a descriptor could not be used.
#[derive(Debug)]
pub enum DescriptorError {
    /// The descriptor file could not be read.
    Io(std::io::Error),
    /// The descriptor file at `path` is not valid YAML for a descriptor.
    Parse { path: String, source: serde_yaml::Error },
    /// The descriptor has none of the named thing (a robot with nothing to command).
    Empty(&'static str),
    /// This servo id appears more than once on the bus.
    DuplicateId(u8),
    /// The named joint's limit is not a valid range: an end is NaN, or `min >= max` (ends
    /// as bit patterns).
    BadLimit { name: String, min: u64, max: u64 },
    /// The IMU id collides with a servo id.
    ImuCollidesWithServo(u8),
}

/// A joint limit is a valid `(min, max)` pair: neither end is NaN and `min < max`.
pub open spec fn limit_in_order(limit: (u64, u64)) -> bool {
    limit_bits::spec_lt(limit.0, limit.1)
}

/// Joint `i` carries an id that an earlier joint already carries.
pub open spec fn id_repeats_earlier(joints: Seq<Joint>, i: int) -> bool {
    exists|k: int| 0 <= k < i && #[trigger] joints[k].id == joints[i].id
}

/// Joint `i` is rejected on its own account: its id repeats, or its limit is not a valid
/// range.
pub open spec fn joint_faulty(joints: Seq<Joint>, i: int) -> bool {
    id_repeats_earlier(joints, i) || !limit_in_order(joints[i].limit)
}

/// Joint `i` is the first joint, in order, that is faulty.
pub open spec fn first_fault_at(joints: Seq<Joint>, i: int) -> bool {
    &&& 0 <= i < joints.len()
    &&& joint_faulty(joints, i)
    &&& forall|k: int| 0 <= k < i ==> !joint_faulty(joints, k)
}

/// The error reported for faulty joint `i`: a repeated id is reported before a bad limit.
pub open spec fn fault_error(joints: Seq<Joint>, i: int) -> DescriptorError {
    if id_repeats_earlier(joints, i) {
        DescriptorError::DuplicateId(joints[i].id)
    } else {
        DescriptorError::BadLimit {
            name: joints[i].name,
            min: joints[i].limit.0,
            max: joints[i].limit.1,
        }
    }
}

/// Some servo carries the IMU's id.
pub open spec fn imu_collides(joints: Seq<Joint>, imu_id: u8) -> bool {
    exists|k: int| 0 <= k < joints.len() && #[trigger] joints[k].id == imu_id
}

/// All servo ids are pairwise distinct.
pub open spec fn ids_unique(joints: Seq<Joint>) -> bool {
    forall|i: int, j: int| 0 <= i < j < joints.len() ==> joints[i].id != joints[j].id
}

/// Every limit is a valid `(min, max)` pair.
pub open spec fn limits_in_order(joints: Seq<Joint>) -> bool {
    forall|i: int| 0 <= i < joints.len() ==> limit_in_order(#[trigger] joints[i].limit)
}

/// A joint table passes the per-joint checks exactly when its ids are unique and every
/// limit is a valid range.
pub proof fn lemma_no_fault_iff_unique_and_ordered(joints: Seq<Joint>)
    ensures
        (forall|i: int| 0 <= i < joints.len() ==> !joint_faulty(joints, i)) <==> (ids_unique(
            joints,
        ) && limits_in_order(joints)),
{
    if forall|i: int| 0 <= i < joints.len() ==> !joint_faulty(joints, i) {
        assert forall|i: int, j: int| 0 <= i < j < joints.len() implies joints[i].id
            != joints[j].id by {
            assert(!joint_faulty(joints, j));
            if joints[i].id == joints[j].id {
                assert(id_repeats_earlier(joints, j));
            }
        }
        assert forall|i: int| 0 <= i < joints.len() implies limit_in_order(
            #[trigger] joints[i].limit,
        ) by {
            assert(!joint_faulty(joints, i));
        }
    }
    if ids_unique(joints) && limits_in_order(joints) {
        assert forall|i: int| 0 <= i < joints.len() implies !joint_faulty(joints, i) by {
            assert(limit_in_order(joints[i].limit));
            if id_repeats_earlier(joints, i) {
                let k = choose|k: int| 0 <= k < i && #[trigger] joints[k].id == joints[i].id;
                assert(joints[k].id != joints[i].id);
            }
        }
    }
}

impl HardwareDescriptor {
    /// The four invariants every form's descriptor must hold: the joint table is not
    /// empty, servo ids are unique, every limit is a valid `(min, max)` pair, and the IMU
    /// id is not a servo id.
    pub open spec fn well_formed(&self) -> bool {
        &&& self.joints@.len() > 0
        &&& ids_unique(self.joints@)
        &&& limits_in_order(self.joints@)
        &&& !imu_collides(self.joints@, self.imu.id)
    }

    /// Checks the invariants that hold for every form.
    ///
    /// An empty joint table is reported first. Otherwise the joints are checked in order,
    /// and the first joint whose id repeats an earlier one, or whose limit is not a valid
    /// range (an end is NaN, or `min >= max`), decides the error (a repeated id before a
    /// bad limit). Only then is the IMU id checked against the servo ids.
    pub fn validate(&self) -> (r: Result<(), DescriptorError>)
        ensures
            self.joints@.len() == 0 ==> r == Err::<(), DescriptorError>(
                DescriptorError::Empty("joints"),
            ),
            self.joints@.len() > 0 ==> forall|i: int|
                #![trigger first_fault_at(self.joints@, i)]
                first_fault_at(self.joints@, i) ==> r == Err::<(), DescriptorError>(
                    fault_error(self.joints@, i),
                ),
            self.joints@.len() > 0 && (forall|i: int|
                0 <= i < self.joints@.len() ==> !joint_faulty(self.joints@, i)) ==> r == (
            if imu_collides(self.joints@, self.imu.id) {
                Err::<(), DescriptorError>(DescriptorError::ImuCollidesWithServo(self.imu.id))
            } else {
                Ok::<(), DescriptorError>(())
            }),
            r is Ok <==> self.well_formed(),
            r matches Err(DescriptorError::Empty(_)) ==> self.joints@.len() == 0,
            r matches Err(DescriptorError::DuplicateId(id)) ==> exists|i: int, j: int|
                0 <= i < j < self.joints@.len() && #[trigger] self.joints@[i].id == id
                    && #[trigger] self.joints@[j].id == id,
            r matches Err(DescriptorError::BadLimit { name, min, max }) ==> exists|i: int|
                0 <= i < self.joints@.len() && #[trigger] self.joints@[i].name == name
                    && self.joints@[i].limit == (min, max) && !limit_bits::spec_lt(min, max),
            r matches Err(DescriptorError::ImuCollidesWithServo(id)) ==> id == self.imu.id
                && imu_collides(self.joints@, id),
            r matches Err(DescriptorError::DuplicateId(id)) ==> exists|i: int|
                0 <= i < self.joints@.len() && #[trigger] self.joints@[i].id == id && (exists|k: int|
                    0 <= k < i && self.joints@[k].id == id) && (forall|k: int|
                    0 <= k < i ==> limit_bits::spec_lt(
                        self.joints@[k].limit.0,
                        self.joints@[k].limit.1,
                    ) && (forall|m: int| 0 <= m < k ==> self.joints@[m].id != self.joints@[k].id)),
            r matches Err(DescriptorError::BadLimit { name, min, max }) ==> exists|i: int|
                0 <= i < self.joints@.len() && #[trigger] self.joints@[i].name == name
                    && self.joints@[i].limit == (min, max) && !limit_bits::spec_lt(min, max) && (
                forall|m: int| 0 <= m < i ==> self.joints@[m].id != self.joints@[i].id) && (
                forall|k: int|
                    0 <= k < i ==> limit_bits::spec_lt(
                        self.joints@[k].limit.0,
                        self.joints@[k].limit.1,
                    ) && (forall|m: int| 0 <= m < k ==> self.joints@[m].id != self.joints@[k].id)),
            r matches Err(DescriptorError::ImuCollidesWithServo(_)) ==> forall|k: int|
                0 <= k < self.joints@.len() ==> limit_bits::spec_lt(
                    self.joints@[k].limit.0,
                    self.joints@[k].limit.1,
                ) && (forall|m: int| 0 <= m < k ==> self.joints@[m].id != self.joints@[k].id),
            !(r matches Err(DescriptorError::Io(_))),
            !(r matches Err(DescriptorError::Parse { .. })),
    {
        let joints = &self.joints;
        let n = joints.len();
        if n == 0 {
            return Err(DescriptorError::Empty("joints"));
        }
        let mut seen: Vec<bool> = Vec::new();
        let mut v: usize = 0;
        while v < 256
            invariant
                v <= 256,
                seen@.len() == v,
                forall|w: int| 0 <= w < v ==> !seen@[w],
            decreases 256 - v,
        {
            seen.push(false);
            v = v + 1;
        }
        let mut i: usize = 0;
        while i < n
            invariant
                n == joints@.len(),
                joints == &self.joints,
                i <= n,
                seen@.len() == 256,
                forall|w: int|
                    0 <= w < 256 ==> (seen@[w] <==> exists|k: int|
                        0 <= k < i && #[trigger] joints@[k].id == w),
                forall|k: int| 0 <= k < i ==> !joint_faulty(joints@, k),
            decreases n - i,
        {
            let joint = &joints[i];
            let id = joint.id;
            proof {
                assert forall|k: int| 0 <= k < i implies limit_bits::spec_lt(
                    joints@[k].limit.0,
                    joints@[k].limit.1,
                ) && (forall|m: int| 0 <= m < k ==> joints@[m].id != joints@[k].id) by {
                    assert(!joint_faulty(joints@, k));
                    assert forall|m: int| 0 <= m < k implies joints@[m].id != joints@[k].id by {
                        if joints@[m].id == joints@[k].id {
                            assert(id_repeats_earlier(joints@, k));
                        }
                    }
                }
            }
            if seen[id as usize] {
                proof {
                    assert(first_fault_at(joints@, i as int));
                    assert(joints@[i as int].id == id);
                }
                return Err(DescriptorError::DuplicateId(id));
            }
            seen.set(id as usize, true);
            if !limit_bits::lt(joint.limit.0, joint.limit.1) {
                proof {
                    assert(first_fault_at(joints@, i as int));
                    assert(joints@[i as int].name == joint.name);
                    assert forall|m: int| 0 <= m < i implies joints@[m].id != joints@[i as int].id by {
                        if joints@[m].id == joints@[i as int].id {
                            assert(joints@[m].id == id);
                        }
                    }
                }
                return Err(
                    DescriptorError::BadLimit {
                        name: joint.name.clone(),
                        min: joint.limit.0,
                        max: joint.limit.1,
                    },
                );
            }
            i = i + 1;
        }
        let imu_id = self.imu.id;
        let mut j: usize = 0;
        while j < n
            invariant
                n == joints@.len(),
                joints == &self.joints,
                j <= n,
                imu_id == self.imu.id,
                forall|k: int| 0 <= k < n ==> !joint_faulty(joints@, k),
                forall|k: int| 0 <= k < j ==> joints@[k].id != imu_id,
            decreases n - j,
        {
            if joints[j].id == imu_id {
                proof {
                    assert(joints@[j as int].id == imu_id);
                    lemma_no_fault_iff_unique_and_ordered(joints@);
                }
                return Err(DescriptorError::ImuCollidesWithServo(imu_id));
            }
            j = j + 1;
        }
        proof {
            lemma_no_fault_iff_unique_and_ordered(joints@);
        }
        Ok(())
    }
}

} // verus!
