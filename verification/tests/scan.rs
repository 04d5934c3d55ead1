use vibe_hal::descriptor::{
    Bus, BusKind, Compute, HardwareDescriptor, Imu, Joint, Perception,
};
use vibe_hal::scan::{listed_ids, missing_ids, parse_args, ping_ids, ArgError, DEFAULT_BAUD, MAX_ID};

fn args(list: &[&str]) -> Vec<String> {
    list.iter().map(|s| s.to_string()).collect()
}

#[test]
fn no_arguments_give_the_defaults() {
    let a = parse_args(&args(&[])).unwrap();
    assert_eq!(a.port, None);
    assert_eq!(a.baud, DEFAULT_BAUD);
    assert_eq!(a.baud, 1_000_000);
    assert_eq!(a.manifest, None);
    assert!(!a.show_help);
}

#[test]
fn help_flags() {
    assert!(parse_args(&args(&["--help"])).unwrap().show_help);
    let a = parse_args(&args(&["-h", "/dev/ttyUSB0"])).unwrap();
    assert!(a.show_help);
    assert_eq!(a.port.as_deref(), Some("/dev/ttyUSB0"));
}

#[test]
fn port_and_baud() {
    let a = parse_args(&args(&["--baud", "115200", "/dev/ttyS0"])).unwrap();
    assert_eq!(a.baud, 115_200);
    assert_eq!(a.port.as_deref(), Some("/dev/ttyS0"));
}

#[test]
fn baud_with_plus_sign_and_leading_zeros() {
    assert_eq!(parse_args(&args(&["--baud", "+9600"])).unwrap().baud, 9600);
    assert_eq!(parse_args(&args(&["--baud", "00057600"])).unwrap().baud, 57600);
    assert_eq!(parse_args(&args(&["--baud", "4294967295"])).unwrap().baud, u32::MAX);
}

#[test]
fn baud_requires_a_number() {
    for bad in [
        vec!["--baud"],
        vec!["--baud", "fast"],
        vec!["--baud", ""],
        vec!["--baud", "+"],
        vec!["--baud", "-5"],
        vec!["--baud", " 9600"],
        vec!["--baud", "4294967296"],
        vec!["/dev/ttyS0", "--baud", "9_600"],
    ] {
        assert!(matches!(parse_args(&args(&bad)), Err(ArgError::BaudRequiresNumber)), "{bad:?}");
    }
}

#[test]
fn manifest_takes_the_next_argument() {
    let a = parse_args(&args(&["--manifest", "cat.yaml"])).unwrap();
    assert_eq!(a.manifest.as_deref(), Some("cat.yaml"));
    let b = parse_args(&args(&["--manifest", "--baud"])).unwrap();
    assert_eq!(b.manifest.as_deref(), Some("--baud"));
    assert_eq!(b.baud, DEFAULT_BAUD);
}

#[test]
fn trailing_manifest_flag_clears_the_manifest() {
    let a = parse_args(&args(&["--manifest", "cat.yaml", "--manifest"])).unwrap();
    assert_eq!(a.manifest, None);
}

#[test]
fn unknown_flag_is_refused() {
    match parse_args(&args(&["/dev/ttyS0", "-x", "--baud"])) {
        Err(ArgError::UnknownFlag(f)) => assert_eq!(f, "-x"),
        other => panic!("unexpected {other:?}"),
    }
    assert!(matches!(parse_args(&args(&["-"])), Err(ArgError::UnknownFlag(_))));
}

#[test]
fn last_port_and_last_baud_win() {
    let a = parse_args(&args(&["a", "--baud", "1", "b", "--baud", "2"])).unwrap();
    assert_eq!(a.port.as_deref(), Some("b"));
    assert_eq!(a.baud, 2);
}

fn desc(ids: &[u8], imu: u8) -> HardwareDescriptor {
    HardwareDescriptor {
        name: "Vibe Cat".to_string(),
        version: "0.1".to_string(),
        bus: Bus { kind: BusKind::Dynamixel, rate: 50, baud: 1_000_000 },
        joints: ids
            .iter()
            .map(|&id| Joint {
                id,
                name: format!("j{id}"),
                limit: ((-1.0f64).to_bits(), 1.0f64.to_bits()),
            })
            .collect(),
        imu: Imu { bus: BusKind::Dynamixel, id: imu },
        perception: Perception::default(),
        compute: Compute { soc: "RK3566".to_string(), ram_gb: 2, storage_gb: 32 },
        power: None,
    }
}

#[test]
fn listed_ids_are_joints_then_imu() {
    assert_eq!(listed_ids(&desc(&[20, 21, 10], 200)), vec![20, 21, 10, 200]);
    assert_eq!(listed_ids(&desc(&[], 7)), vec![7]);
}

#[test]
fn missing_ids_keep_listed_order() {
    let listed = vec![20, 21, 10, 200, 21];
    assert_eq!(missing_ids(&listed, &vec![10, 20]), vec![21, 200, 21]);
    assert_eq!(missing_ids(&listed, &vec![10, 20, 21, 200, 3]), Vec::<u8>::new());
    assert_eq!(missing_ids(&listed, &vec![]), listed);
}

#[test]
fn cross_check_of_a_full_answer() {
    let d = desc(&[20, 21, 22], 200);
    let found: Vec<u8> = vec![20, 21, 22, 200];
    assert!(missing_ids(&listed_ids(&d), &found).is_empty());
}

#[test]
fn ping_ids_cover_every_dynamixel_id() {
    let ids = ping_ids();
    assert_eq!(MAX_ID, 252);
    assert_eq!(ids, (0..=252u8).collect::<Vec<u8>>());
}
