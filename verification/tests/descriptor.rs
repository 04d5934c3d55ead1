use vibe_hal::descriptor::{
    Bus, BusKind, Camera, Compute, DescriptorError, Form, HardwareDescriptor, Imu, Joint,
    Perception, Power, Tof,
};

fn joint(id: u8, name: &str, min: f64, max: f64) -> Joint {
    Joint { id, name: name.to_string(), limit: (min.to_bits(), max.to_bits()) }
}

fn compute() -> Compute {
    Compute { soc: "RK3566".to_string(), ram_gb: 2, storage_gb: 32 }
}

/// The chicken form's table, in wire order: left leg, neck/head/mouth, right leg.
fn chicken() -> HardwareDescriptor {
    let joints = vec![
        joint(20, "left_hip_yaw", -0.5, 0.5),
        joint(21, "left_hip_roll", -0.4, 0.4),
        joint(22, "left_hip_pitch", -1.2, 0.8),
        joint(23, "left_knee", -1.5, 0.2),
        joint(24, "left_ankle", -0.8, 0.8),
        joint(30, "neck_pitch", -0.6, 0.6),
        joint(31, "head_pitch", -0.8, 0.8),
        joint(32, "head_yaw", -1.5, 1.5),
        joint(33, "head_roll", -0.5, 0.5),
        joint(34, "mouth", 0.0, 0.6),
        joint(10, "right_hip_yaw", -0.5, 0.5),
        joint(11, "right_hip_roll", -0.4, 0.4),
        joint(12, "right_hip_pitch", -0.8, 1.2),
        joint(13, "right_knee", -0.2, 1.5),
        joint(14, "right_ankle", -0.8, 0.8),
    ];
    HardwareDescriptor {
        name: "Vibe Chicken".to_string(),
        version: "1.0".to_string(),
        bus: Bus { kind: BusKind::Dynamixel, rate: 50, baud: 1_000_000 },
        joints,
        imu: Imu { bus: BusKind::Dynamixel, id: 200 },
        perception: Perception {
            tof: Some(Tof { bus: BusKind::I2c, id: 0x29 }),
            camera: Some(Camera { kind: "mipi".to_string(), resolution: (1280, 720) }),
            mic: None,
            expression: None,
        },
        compute: compute(),
        power: Some(Power { battery: "2S LiPo".to_string(), capacity_mah: None, runtime_min: None }),
    }
}

/// A placeholder table of `n` joints with ids `base..base + n`.
fn placeholder(name: &str, n: u8, base: u8) -> HardwareDescriptor {
    let mut joints = Vec::new();
    for k in 0..n {
        joints.push(joint(base + k, &format!("joint_{k}"), -1.0, 1.0));
    }
    HardwareDescriptor {
        name: name.to_string(),
        version: "0.1".to_string(),
        bus: Bus { kind: BusKind::Dynamixel, rate: 50, baud: 1_000_000 },
        joints,
        imu: Imu { bus: BusKind::Dynamixel, id: 200 },
        perception: Perception::default(),
        compute: compute(),
        power: None,
    }
}

fn descriptor_for(form: Form) -> HardwareDescriptor {
    match form {
        Form::Chicken => chicken(),
        Form::Cat => placeholder("Vibe Cat", 13, 1),
        Form::Doge => {
            let mut d = placeholder("Vibe Doge", 7, 1);
            d.perception.expression = Some(vibe_hal::descriptor::Expression {
                kind: "spi".to_string(),
                resolution: (64, 64),
            });
            d
        }
    }
}

#[test]
fn every_manifest_parses_and_validates() {
    for form in [Form::Chicken, Form::Cat, Form::Doge] {
        let desc = descriptor_for(form);
        desc.validate().unwrap_or_else(|e| panic!("{} manifest: {e:?}", form.slug()));
        assert_eq!(desc.name, form.title());
    }
}

#[test]
fn chicken_has_fifteen_joints_in_wire_order() {
    let desc = chicken();
    let names: Vec<_> = desc.joints.iter().map(|j| j.name.as_str()).collect();
    assert_eq!(names.len(), 15);
    assert_eq!(names[9], "mouth", "index 9 is the mouth — policies skip it");
    assert_eq!(names[0], "left_hip_yaw", "left leg leads, as the wire order does");
}

#[test]
fn duplicate_ids_are_rejected() {
    let mut desc = chicken();
    desc.joints[0].id = desc.joints[1].id;
    assert!(matches!(desc.validate(), Err(DescriptorError::DuplicateId(_))));
}

#[test]
fn imu_id_colliding_with_a_servo_is_rejected() {
    let mut desc = chicken();
    desc.imu.id = desc.joints[0].id;
    assert!(matches!(desc.validate(), Err(DescriptorError::ImuCollidesWithServo(_))));
}

#[test]
fn empty_joint_table_is_rejected() {
    let mut desc = chicken();
    desc.joints.clear();
    assert!(matches!(desc.validate(), Err(DescriptorError::Empty(_))));
}

#[test]
fn bad_limit_range_is_rejected() {
    let mut desc = chicken();
    desc.joints[0].limit = (desc.joints[0].limit.1, desc.joints[0].limit.0);
    assert!(matches!(desc.validate(), Err(DescriptorError::BadLimit { .. })));
}

#[test]
fn duplicate_reports_the_repeated_id() {
    let mut desc = chicken();
    desc.joints[0].id = desc.joints[1].id;
    match desc.validate() {
        Err(DescriptorError::DuplicateId(id)) => assert_eq!(id, 21),
        other => panic!("unexpected {other:?}"),
    }
}

#[test]
fn imu_collision_reports_the_imu_id() {
    let mut desc = chicken();
    desc.imu.id = 14;
    match desc.validate() {
        Err(DescriptorError::ImuCollidesWithServo(id)) => assert_eq!(id, 14),
        other => panic!("unexpected {other:?}"),
    }
}

#[test]
fn empty_names_the_joints() {
    let mut desc = chicken();
    desc.joints.clear();
    desc.imu.id = 0;
    match desc.validate() {
        Err(DescriptorError::Empty(what)) => assert_eq!(what, "joints"),
        other => panic!("unexpected {other:?}"),
    }
}

#[test]
fn bad_limit_reports_name_and_ends() {
    let mut desc = chicken();
    desc.joints[3].limit = (0.7f64.to_bits(), 0.2f64.to_bits());
    match desc.validate() {
        Err(DescriptorError::BadLimit { name, min, max }) => {
            assert_eq!(name, "left_knee");
            assert_eq!(f64::from_bits(min), 0.7);
            assert_eq!(f64::from_bits(max), 0.2);
        }
        other => panic!("unexpected {other:?}"),
    }
}

#[test]
fn equal_limit_ends_are_rejected() {
    let mut desc = chicken();
    desc.joints[2].limit = (0.3f64.to_bits(), 0.3f64.to_bits());
    assert!(matches!(desc.validate(), Err(DescriptorError::BadLimit { .. })));
}

#[test]
fn zero_limits_of_both_signs_are_rejected() {
    let mut desc = chicken();
    desc.joints[2].limit = (0.0f64.to_bits(), (-0.0f64).to_bits());
    assert!(matches!(desc.validate(), Err(DescriptorError::BadLimit { .. })));
}

#[test]
fn nan_limit_is_rejected() {
    for limit in [
        (f64::NAN, 0.5),
        (-0.5, f64::NAN),
        (f64::NAN, f64::NAN),
        (f64::NEG_INFINITY, -f64::NAN),
    ] {
        let mut desc = chicken();
        desc.joints[2].limit = (limit.0.to_bits(), limit.1.to_bits());
        match desc.validate() {
            Err(DescriptorError::BadLimit { name, min, max }) => {
                assert_eq!(name, "left_hip_pitch");
                assert_eq!((min, max), (limit.0.to_bits(), limit.1.to_bits()));
            }
            other => panic!("unexpected {other:?}"),
        }
    }
}

#[test]
fn infinite_limit_ends_in_order_are_valid() {
    let mut desc = chicken();
    desc.joints[7].limit = (f64::NEG_INFINITY.to_bits(), f64::INFINITY.to_bits());
    assert!(desc.validate().is_ok());
}

#[test]
fn repeated_id_is_reported_before_a_bad_limit_on_the_same_joint() {
    let mut desc = chicken();
    desc.joints[4].id = desc.joints[2].id;
    desc.joints[4].limit = (1.0f64.to_bits(), (-1.0f64).to_bits());
    assert!(matches!(desc.validate(), Err(DescriptorError::DuplicateId(22))));
}

#[test]
fn earlier_bad_limit_is_reported_before_a_later_duplicate() {
    let mut desc = chicken();
    desc.joints[1].limit = (1.0f64.to_bits(), (-1.0f64).to_bits());
    desc.joints[7].id = desc.joints[0].id;
    match desc.validate() {
        Err(DescriptorError::BadLimit { name, .. }) => assert_eq!(name, "left_hip_roll"),
        other => panic!("unexpected {other:?}"),
    }
}

#[test]
fn joint_faults_are_reported_before_the_imu_collision() {
    let mut desc = chicken();
    desc.imu.id = desc.joints[0].id;
    desc.joints[14].id = desc.joints[13].id;
    assert!(matches!(desc.validate(), Err(DescriptorError::DuplicateId(13))));
}

#[test]
fn an_empty_table_is_reported_first() {
    let mut desc = placeholder("Vibe Cat", 0, 1);
    desc.imu.id = 0;
    assert!(matches!(desc.validate(), Err(DescriptorError::Empty(_))));
}

#[test]
fn a_single_joint_table_is_valid() {
    let desc = placeholder("Vibe Doge", 1, 7);
    assert!(desc.validate().is_ok());
}

#[test]
fn slugs_and_titles() {
    assert_eq!(Form::Chicken.slug(), "chicken");
    assert_eq!(Form::Cat.slug(), "cat");
    assert_eq!(Form::Doge.slug(), "doge");
    assert_eq!(Form::Chicken.title(), "Vibe Chicken");
    assert_eq!(Form::Cat.title(), "Vibe Cat");
    assert_eq!(Form::Doge.title(), "Vibe Doge");
}

#[test]
fn slugs_and_titles_are_distinct() {
    let forms = [Form::Chicken, Form::Cat, Form::Doge];
    for a in forms {
        for b in forms {
            assert_eq!(a == b, a.slug() == b.slug());
            assert_eq!(a == b, a.title() == b.title());
        }
    }
}

#[test]
fn default_perception_has_nothing() {
    let p = Perception::default();
    assert!(p.tof.is_none() && p.camera.is_none() && p.mic.is_none() && p.expression.is_none());
}
