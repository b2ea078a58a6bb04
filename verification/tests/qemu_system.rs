use vm_foundry::qemu_system::{
    bridge_helper_candidates, classify_bridge, detect_network_capabilities, emulator_candidates,
    find_bridge_helper, get_kvm_info, get_supported_displays, is_bridge_helper_configured,
    is_lab_friendly_bridge, lab_friendly_bridges, list_available_emulators, list_system_bridges,
    parse_allowed_bridges, qemu_version_from_output,
};

#[test]
fn test_parse_allowed_bridges_filters_to_existing_bridges() {
    let system_bridges = vec!["virbr0".to_string(), "virbr1".to_string()];
    let bridge_conf = "# comment\nallow virbr0\nallow virbr2\n";

    let allowed = parse_allowed_bridges(bridge_conf, &system_bridges);
    assert_eq!(allowed, vec!["virbr0".to_string()]);
}

#[test]
fn test_parse_allowed_bridges_supports_allow_all() {
    let system_bridges = vec!["virbr0".to_string(), "virbr1".to_string()];
    let allowed = parse_allowed_bridges("allow all\n", &system_bridges);
    assert_eq!(allowed, system_bridges);
}

#[test]
fn test_classify_bridge() {
    assert_eq!(classify_bridge("virbr0"), "private/libvirt bridge");
    assert_eq!(classify_bridge("br-f37fef"), "container/custom bridge");
    assert_eq!(classify_bridge("br0"), "host/LAN bridge");
}

#[test]
fn test_lab_friendly_bridges_prefers_virbr() {
    let bridges = vec![
        "virbr0".to_string(),
        "br0".to_string(),
        "virbr1".to_string(),
        "br-deadbeef".to_string(),
    ];
    assert_eq!(
        lab_friendly_bridges(&bridges),
        vec!["virbr0".to_string(), "virbr1".to_string()]
    );
}

#[test]
fn parse_allowed_bridges_skips_duplicates_and_keeps_order() {
    let system = vec!["br0".to_string(), "virbr0".to_string(), "virbr1".to_string()];
    let conf = "allow virbr1\r\n  allow   virbr0  \nallow virbr1\n#allow br0\nallowbr0\n";
    assert_eq!(
        parse_allowed_bridges(conf, &system),
        vec!["virbr1".to_string(), "virbr0".to_string()]
    );
}

#[test]
fn parse_allowed_bridges_allow_all_after_others_gives_every_bridge() {
    let system = vec!["br0".to_string(), "virbr0".to_string()];
    let conf = "allow virbr0\nallow all";
    assert_eq!(parse_allowed_bridges(conf, &system), system);
    assert!(parse_allowed_bridges("", &system).is_empty());
}

#[test]
fn lab_friendly_check_matches_prefix() {
    assert!(is_lab_friendly_bridge("virbr12"));
    assert!(!is_lab_friendly_bridge("virb"));
    assert!(!is_lab_friendly_bridge("br-virbr"));
    assert_eq!(classify_bridge("virbr"), "private/libvirt bridge");
    assert_eq!(classify_bridge("br-"), "container/custom bridge");
    assert_eq!(classify_bridge(""), "host/LAN bridge");
}

#[test]
fn available_emulators_follow_probe_results() {
    assert_eq!(emulator_candidates().len(), 6);
    let found = list_available_emulators(&[true, false, false, false, true]);
    assert_eq!(
        found,
        vec!["qemu-system-x86_64".to_string(), "qemu-system-arm".to_string()]
    );
    assert!(list_available_emulators(&[]).is_empty());
}

#[test]
fn bridge_helper_is_the_first_present_candidate() {
    assert_eq!(bridge_helper_candidates().len(), 3);
    assert_eq!(
        find_bridge_helper(&[false, true, true]),
        Some("/usr/libexec/qemu-bridge-helper".to_string())
    );
    assert_eq!(find_bridge_helper(&[false, false, false]), None);
    assert_eq!(find_bridge_helper(&[]), None);
}

#[test]
fn system_bridges_come_from_ip_link_lines() {
    let out = "4: virbr0: <NO-CARRIER,BROADCAST> mtu 1500\n7: br-abc: <UP> mtu 1500\nbroken\n9: : x\n";
    assert_eq!(
        list_system_bridges(out),
        vec!["virbr0".to_string(), "br-abc".to_string()]
    );
}

#[test]
fn supported_displays_skip_headers_and_colons() {
    let out = "Available display backend types:\nnone\ngtk\nsdl\negl-headless\ncurses\nfoo: bar\n\n  vnc   extra\n";
    assert_eq!(
        get_supported_displays(out, "ignored"),
        vec![
            "none".to_string(),
            "gtk".to_string(),
            "sdl".to_string(),
            "egl-headless".to_string(),
            "curses".to_string(),
            "vnc".to_string()
        ]
    );
    assert_eq!(get_supported_displays("", "gtk\n"), vec!["gtk".to_string()]);
}

#[test]
fn kvm_info_reports_vendor_module() {
    let lsmod = "Module Size Used\nkvm_amd 200704 0\nkvm 1409024 1 kvm_amd\n";
    assert_eq!(get_kvm_info(true, Some(lsmod)), Some("kvm_amd".to_string()));
    assert_eq!(get_kvm_info(true, Some("snd 1 0\n")), Some("kvm".to_string()));
    assert_eq!(get_kvm_info(false, Some(lsmod)), None);
    assert_eq!(get_kvm_info(true, None), None);
}

#[test]
fn qemu_version_is_first_line() {
    assert_eq!(
        qemu_version_from_output("QEMU emulator version 9.1.0\nCopyright (c)\n"),
        "QEMU emulator version 9.1.0"
    );
    assert_eq!(qemu_version_from_output(""), "Unknown");
}

#[test]
fn bridge_helper_configuration_checks() {
    assert!(is_bridge_helper_configured(Some(0o104755), None));
    assert!(!is_bridge_helper_configured(Some(0o100755), None));
    assert!(is_bridge_helper_configured(
        None,
        Some("/usr/lib/qemu/qemu-bridge-helper cap_net_admin=ep")
    ));
    assert!(!is_bridge_helper_configured(Some(0o755), Some("")));
    assert!(!is_bridge_helper_configured(None, None));
}

#[test]
fn network_capabilities_only_allow_with_configured_helper() {
    let ip = "3: virbr0: <UP>\n5: br0: <UP>\n";
    let conf = "allow virbr0\nallow virbr9\n";
    let caps = detect_network_capabilities(
        true,
        Some("/usr/lib/qemu/qemu-bridge-helper".to_string()),
        true,
        ip,
        Some(conf),
    );
    assert!(caps.passt_available);
    assert!(caps.bridge_helper_configured);
    assert_eq!(caps.system_bridges, vec!["virbr0".to_string(), "br0".to_string()]);
    assert_eq!(caps.allowed_bridges, vec!["virbr0".to_string()]);

    let unconfigured = detect_network_capabilities(false, None, true, ip, Some(conf));
    assert!(!unconfigured.bridge_helper_configured);
    assert!(unconfigured.allowed_bridges.is_empty());
    assert_eq!(unconfigured.system_bridges.len(), 2);
}
