use traffic_telemetry::cli::{parse_server_addr_args, AddrArgs, ArgError, Flag};
use traffic_telemetry::identity::{load_or_create_id, new_identity, parse_identity};
use traffic_telemetry::protocol::{EndpointDomain, NodeDomain};
use traffic_telemetry::render::{
    format_desc, format_domain, format_node_domain, format_node_id_as_uuid, pass_label,
    route_label, short_node_id, yes_no,
};

fn args(list: &[&str]) -> Vec<String> {
    list.iter().map(|s| s.to_string()).collect()
}

#[test]
fn labels() {
    assert_eq!(format_domain(EndpointDomain::Internal), "internal");
    assert_eq!(format_domain(EndpointDomain::External), "external");
    assert_eq!(format_node_domain(NodeDomain::Internal), "internal");
    assert_eq!(format_node_domain(NodeDomain::External), "external");
    assert_eq!(pass_label(true), "PASS");
    assert_eq!(pass_label(false), "FAIL");
    assert_eq!(yes_no(true), "yes");
    assert_eq!(yes_no(false), "no");
    assert_eq!(route_label(0), "internal->internal");
    assert_eq!(route_label(1), "internal->external");
    assert_eq!(route_label(2), "external->internal");
    assert_eq!(route_label(3), "external->external");
    assert_eq!(route_label(4), "unknown");
}

#[test]
fn identifiers_in_hexadecimal() {
    let id = [
        0x55, 0x0e, 0x84, 0x00, 0xe2, 0x9b, 0x41, 0xd4, 0xa7, 0x16, 0x44, 0x66, 0x55, 0x44, 0x00,
        0x0f,
    ];
    assert_eq!(short_node_id(&id), "550e8400");
    assert_eq!(format_node_id_as_uuid(&id), "550e8400-e29b-41d4-a716-44665544000f");
    assert_eq!(format_node_id_as_uuid(&[0xff; 16]), "ffffffff-ffff-ffff-ffff-ffffffffffff");
    assert_eq!(short_node_id(&[0; 16]), "00000000");
}

#[test]
fn descriptions_lose_their_padding() {
    assert_eq!(format_desc(b"probe-node\0\0\0\0\0\0"), "probe-node");
    assert_eq!(format_desc(b"sixteen-bytes-ok"), "sixteen-bytes-ok");
    assert_eq!(format_desc(&[0; 16]), "<empty>");
    // Zeros inside the text stay; bytes that are no UTF-8 are replaced.
    assert_eq!(format_desc(b"a\0b\0\0\0\0\0\0\0\0\0\0\0\0\0"), "a\0b");
    assert_eq!(format_desc(b"\xff\0\0\0\0\0\0\0\0\0\0\0\0\0\0\0"), "\u{fffd}");
}

#[test]
fn identity_is_read_from_the_file_contents() {
    let id = parse_identity("550e8400-e29b-41d4-a716-446655440000\n").unwrap();
    assert_eq!(format_node_id_as_uuid(&id), "550e8400-e29b-41d4-a716-446655440000");
    assert_eq!(parse_identity("  550E8400E29B41D4A716446655440000  "), Some(id));
    assert!(parse_identity("not an id").is_none());
    assert!(parse_identity("").is_none());

    let kept = load_or_create_id(Some("550e8400-e29b-41d4-a716-446655440000\n"));
    assert_eq!(kept.node_id, id);
    assert!(kept.contents.is_none());
}

#[test]
fn a_new_identity_comes_with_the_contents_to_write() {
    for existing in [None, Some("garbage")] {
        let made = load_or_create_id(existing);
        let contents = made.contents.expect("a new identity is to be written");
        assert_eq!(contents, format!("{}\n", format_node_id_as_uuid(&made.node_id)));
        assert_eq!(made.node_id[6] >> 4, 4);
        assert_eq!(made.node_id[8] >> 6, 2);
        // What was written is read back as the same identity.
        assert_eq!(parse_identity(&contents), Some(made.node_id));
        assert!(load_or_create_id(Some(&contents)).contents.is_none());
    }
    assert_ne!(new_identity().node_id, new_identity().node_id);
}

#[test]
fn command_line_defaults_and_options() {
    match parse_server_addr_args(&args(&[])) {
        Ok(AddrArgs::Address { host, port }) => {
            assert_eq!(host, "127.0.0.1");
            assert_eq!(port, 8080);
        }
        _ => panic!("expected the default address"),
    }
    match parse_server_addr_args(&args(&["-s", "example.org", "--port", "9000"])) {
        Ok(AddrArgs::Address { host, port }) => {
            assert_eq!(host, "example.org");
            assert_eq!(port, 9000);
        }
        _ => panic!("expected an address"),
    }
    match parse_server_addr_args(&args(&["--server", "a", "-p", "1", "-s", "b", "-p", "+2"])) {
        Ok(AddrArgs::Address { host, port }) => {
            assert_eq!(host, "b");
            assert_eq!(port, 2);
        }
        _ => panic!("expected an address"),
    }
    assert!(matches!(parse_server_addr_args(&args(&["-h"])), Ok(AddrArgs::Help)));
    assert!(matches!(
        parse_server_addr_args(&args(&["-p", "1", "--help", "--bogus"])),
        Ok(AddrArgs::Help)
    ));
}

#[test]
fn command_line_faults() {
    assert!(matches!(
        parse_server_addr_args(&args(&["-s"])),
        Err(ArgError::MissingValue { flag: Flag::Server })
    ));
    assert!(matches!(
        parse_server_addr_args(&args(&["-s", "x", "--port"])),
        Err(ArgError::MissingValue { flag: Flag::Port })
    ));
    match parse_server_addr_args(&args(&["-p", "65536"])) {
        Err(ArgError::InvalidPort { value }) => assert_eq!(value, "65536"),
        _ => panic!("expected an invalid port"),
    }
    match parse_server_addr_args(&args(&["-p", "http"])) {
        Err(ArgError::InvalidPort { value }) => assert_eq!(value, "http"),
        _ => panic!("expected an invalid port"),
    }
    match parse_server_addr_args(&args(&["--verbose", "-h"])) {
        Err(ArgError::UnknownArgument { argument }) => assert_eq!(argument, "--verbose"),
        _ => panic!("expected an unknown argument"),
    }
    // A value is taken as it is, even where it looks like an option.
    match parse_server_addr_args(&args(&["-s", "-p"])) {
        Ok(AddrArgs::Address { host, port }) => {
            assert_eq!(host, "-p");
            assert_eq!(port, 8080);
        }
        _ => panic!("expected an address"),
    }
}
