use vm_foundry::management::{
    boot_option_rows, snapshot_row_text,
    detail_row_text, display_option_rows, network_status_text, numbered_row_text, script_option_value,
    categories_for, category_blurb, category_count, current_display_of, detail_item_count,
    detail_items_for, display_emulator, extract_display_from_script, focus_action,
    get_display_options, is_danger_action, manage_title_of, management_status_texts,
    overview_summary_lines, selected_action, shown_selection_of, snapshots_dialog_title, App,
    Config, DiscoveredVm, DiskSummary, ManageCategory, MenuAction, NetworkBackend,
    NetworkConfig, QemuConfig, RunningVm,
};

fn test_config() -> QemuConfig {
    QemuConfig {
        raw_script: String::new(),
        network: None,
        supports_snapshots: false,
        emulator_command: "qemu-system-x86_64".to_string(),
        architecture: "x86_64".to_string(),
        memory_mb: 2048,
        cpu_cores: 2,
        cpu_model: None,
        machine: None,
        vga: "Std".to_string(),
        enable_kvm: false,
        uefi: false,
        tpm: false,
        disks: Vec::new(),
    }
}

fn test_vm() -> DiscoveredVm {
    DiscoveredVm {
        id: "linux-test".to_string(),
        path: "/tmp/linux-test".to_string(),
        display_name: "linux-test".to_string(),
        notes: None,
        config: test_config(),
    }
}

fn test_app(vm: Option<DiscoveredVm>) -> App {
    App {
        selected_vm: vm,
        config: Config::default(),
        running_vms: Vec::new(),
        snapshot_count: 0,
        shared_folder_count: 0,
        management_category: 0,
        management_detail: 0,
        management_focus_right: false,
    }
}

#[test]
fn danger_actions_are_classified_correctly() {
    assert!(is_danger_action(MenuAction::StopVm));
    assert!(is_danger_action(MenuAction::ResetVm));
    assert!(is_danger_action(MenuAction::DeleteVm));
    assert!(!is_danger_action(MenuAction::BootOptions));
    assert!(!is_danger_action(MenuAction::EditRawConfig));
}

#[test]
fn categories_include_core_sections() {
    let vm = test_vm();
    let config = Config::default();
    let cats = categories_for(&vm, &config);
    assert!(cats.contains(&ManageCategory::Overview));
    assert!(cats.contains(&ManageCategory::Run));
    assert!(cats.contains(&ManageCategory::Network));
    assert!(cats.contains(&ManageCategory::Advanced));
    assert!(!cats.is_empty());
}

#[test]
fn advanced_category_lists_destructive_actions() {
    assert_eq!(ManageCategory::Advanced.title(), "Advanced");
    assert!(is_danger_action(MenuAction::ResetVm));
    assert!(is_danger_action(MenuAction::DeleteVm));
    assert!(!is_danger_action(MenuAction::EditRawConfig));
}

#[test]
fn devices_respect_gpu_feature_flags() {
    let vm = test_vm();
    let mut config = Config::default();
    config.enable_multi_gpu_passthrough = false;
    config.single_gpu_enabled = false;

    let cats = categories_for(&vm, &config);
    assert!(cats.contains(&ManageCategory::Devices));
    assert!(!config.enable_multi_gpu_passthrough);
    assert!(!config.single_gpu_enabled);
}

#[test]
fn device_rows_follow_gpu_switches() {
    let vm = test_vm();
    let app = test_app(Some(test_vm()));
    let off = Config { enable_multi_gpu_passthrough: false, single_gpu_enabled: false };
    let on = Config { enable_multi_gpu_passthrough: true, single_gpu_enabled: true };
    let rows = detail_items_for(ManageCategory::Devices, &vm, &off, &app);
    assert_eq!(rows.len(), 2);
    let rows = detail_items_for(ManageCategory::Devices, &vm, &on, &app);
    assert_eq!(rows.len(), 4);
    assert_eq!(rows[2].name, "Multi-GPU Passthrough");
    assert_eq!(rows[3].action, Some(MenuAction::SingleGpuPassthrough));
}

#[test]
fn run_rows_show_display_and_process() {
    let mut vm = test_vm();
    vm.config.raw_script = "qemu-system-x86_64 -m 2048 -display sdl,gl=on \\\n -vga std".to_string();
    let mut app = test_app(None);
    app.running_vms = vec![RunningVm { id: "other".to_string(), pid: 1 }, RunningVm { id: "linux-test".to_string(), pid: 4242 }];
    let rows = detail_items_for(ManageCategory::Run, &vm, &app.config, &app);
    assert_eq!(rows.len(), 3);
    assert_eq!(rows[0].name, "Boot Options");
    assert_eq!(rows[0].value, None);
    assert_eq!(rows[1].value, Some("sdl".to_string()));
    assert_eq!(rows[2].value, Some("pid 4242".to_string()));
    assert_eq!(rows[2].description, "Shut down the running VM (ACPI poweroff)");

    app.running_vms.clear();
    let rows = detail_items_for(ManageCategory::Run, &vm, &app.config, &app);
    assert_eq!(rows[2].value, Some("stopped".to_string()));
    assert_eq!(rows[2].description, "VM is not running");
}

#[test]
fn overview_rows_preview_notes() {
    let mut vm = test_vm();
    let app = test_app(None);
    vm.notes = Some("   \nsecond".to_string());
    let rows = detail_items_for(ManageCategory::Overview, &vm, &app.config, &app);
    assert_eq!(rows[0].value, Some("empty".to_string()));
    assert_eq!(rows[1].value, Some("linux-test".to_string()));
    vm.notes = Some("  A fairly long first line of notes here  \nmore".to_string());
    let rows = detail_items_for(ManageCategory::Overview, &vm, &app.config, &app);
    assert_eq!(rows[0].value, Some("A fairly long first line of…".to_string()));
    vm.notes = Some("exactly twenty-eight chars!!".to_string());
    let rows = detail_items_for(ManageCategory::Overview, &vm, &app.config, &app);
    assert_eq!(rows[0].value, Some("exactly twenty-eight chars!!".to_string()));
    vm.notes = None;
    let rows = detail_items_for(ManageCategory::Overview, &vm, &app.config, &app);
    assert_eq!(rows[0].value, None);
}

#[test]
fn network_storage_and_folder_values() {
    let mut vm = test_vm();
    let mut app = test_app(None);
    let rows = detail_items_for(ManageCategory::Network, &vm, &app.config, &app);
    assert_eq!(rows[0].value, Some("— · none".to_string()));
    vm.config.network = Some(NetworkConfig {
        backend: NetworkBackend::Bridge("virbr0".to_string()),
        model: "virtio-net-pci".to_string(),
        port_forward_count: 2,
    });
    let rows = detail_items_for(ManageCategory::Network, &vm, &app.config, &app);
    assert_eq!(rows[0].value, Some("virtio-net-pci · bridge · 2 fwd".to_string()));

    let rows = detail_items_for(ManageCategory::Storage, &vm, &app.config, &app);
    assert_eq!(rows[0].value, Some("unavailable (raw disk)".to_string()));
    vm.config.supports_snapshots = true;
    let rows = detail_items_for(ManageCategory::Storage, &vm, &app.config, &app);
    assert_eq!(rows[0].value, Some("qcow2 · no snapshots loaded".to_string()));
    app.snapshot_count = 3;
    let rows = detail_items_for(ManageCategory::Storage, &vm, &app.config, &app);
    assert_eq!(rows[0].value, Some("qcow2 · 3 snapshot(s)".to_string()));

    let rows = detail_items_for(ManageCategory::SharedFolders, &vm, &app.config, &app);
    assert_eq!(rows[0].value, None);
    app.shared_folder_count = 12;
    let rows = detail_items_for(ManageCategory::SharedFolders, &vm, &app.config, &app);
    assert_eq!(rows[0].value, Some("12 folder(s)".to_string()));
}

#[test]
fn focus_then_selected_action_round_trips() {
    let mut app = test_app(Some(test_vm()));
    focus_action(&mut app, MenuAction::DeleteVm);
    assert_eq!(app.management_category, 6);
    assert_eq!(app.management_detail, 2);
    assert!(app.management_focus_right);
    assert_eq!(selected_action(&app), Some(MenuAction::DeleteVm));

    focus_action(&mut app, MenuAction::StopVm);
    assert_eq!((app.management_category, app.management_detail), (1, 2));
    assert_eq!(selected_action(&app), Some(MenuAction::StopVm));

    // Disabled GPU passthrough is nowhere: the selection stays.
    focus_action(&mut app, MenuAction::SingleGpuPassthrough);
    assert_eq!((app.management_category, app.management_detail), (1, 2));

    let mut empty = test_app(None);
    focus_action(&mut empty, MenuAction::EditNotes);
    assert!(!empty.management_focus_right);
    assert_eq!(selected_action(&empty), None);
}

#[test]
fn counts_and_selection() {
    let mut app = test_app(Some(test_vm()));
    assert_eq!(category_count(&app), 7);
    app.management_category = 5;
    assert_eq!(detail_item_count(&app), 2);
    app.management_category = 9;
    assert_eq!(detail_item_count(&app), 0);
    app.management_detail = 7;
    assert_eq!(selected_action(&app), None);
    assert_eq!(shown_selection_of(&app), Some((6, 2)));
    let none = test_app(None);
    assert_eq!(category_count(&none), 0);
    assert_eq!(detail_item_count(&none), 0);
    assert_eq!(shown_selection_of(&none), None);
}

#[test]
fn display_script_extraction() {
    assert_eq!(extract_display_from_script("qemu -display gtk,gl=on -m 1"), "gtk");
    assert_eq!(extract_display_from_script("qemu -display spice-app \\\n"), "spice-app");
    assert_eq!(extract_display_from_script("qemu -display  vnc=:1"), "");
    assert_eq!(extract_display_from_script("qemu -m 512"), "gtk");
    assert_eq!(extract_display_from_script("qemu -display vnc=:1"), "vnc=:1");
}

#[test]
fn display_options_describe_backends() {
    let opts = get_display_options(&["gtk".to_string(), "egl-headless".to_string(), "none".to_string()]);
    assert_eq!(opts[0], ("gtk".to_string(), "GTK - Default windowed display".to_string()));
    assert_eq!(opts[1], ("egl-headless".to_string(), "egl-headless display".to_string()));
    assert_eq!(opts[2].1, "None - Headless, no graphical output");
    assert_eq!(display_emulator(&test_app(None)), "qemu-system-x86_64");
    let mut vm = test_vm();
    vm.config.emulator_command = "qemu-system-ppc".to_string();
    assert_eq!(display_emulator(&test_app(Some(vm))), "qemu-system-ppc");
}

#[test]
fn titles_and_status_texts() {
    let mut vm = test_vm();
    vm.config.supports_snapshots = true;
    vm.config.raw_script = "-display sdl".to_string();
    let mut app = test_app(Some(vm));
    app.snapshot_count = 4;
    assert_eq!(snapshots_dialog_title(&app), " Snapshots (4) ");
    assert_eq!(current_display_of(&app), "sdl");
    assert_eq!(manage_title_of(&app), " linux-test — Manage ");
    app.running_vms.push(RunningVm { id: "linux-test".to_string(), pid: 77 });
    let vm = app.selected_vm.as_ref().unwrap();
    let (run, storage) = management_status_texts(&app, vm);
    assert_eq!(run, "running (pid 77)");
    assert_eq!(storage, "snapshots: qcow2");
    let none = test_app(None);
    assert_eq!(snapshots_dialog_title(&none), " Snapshots (not supported) ");
    assert_eq!(current_display_of(&none), "gtk");
    assert_eq!(manage_title_of(&none), " Unknown — Manage ");
    assert_eq!(category_blurb(ManageCategory::Storage), "Disk snapshots (qcow2)");
    assert_eq!(ManageCategory::SharedFolders.title(), "Shared Folders");
}

#[test]
fn overview_summary_lists_configuration() {
    let mut vm = test_vm();
    vm.config.cpu_model = Some("host".to_string());
    vm.config.enable_kvm = true;
    vm.config.tpm = true;
    vm.config.network = Some(NetworkConfig {
        backend: NetworkBackend::User,
        model: "e1000".to_string(),
        port_forward_count: 0,
    });
    vm.config.disks = vec![
        DiskSummary { file_name: Some("disk.qcow2".to_string()), format: "Qcow2".to_string(), interface: "virtio".to_string() },
        DiskSummary { file_name: None, format: "Raw".to_string(), interface: "ide".to_string() },
    ];
    vm.notes = Some("one\ntwo\nthree\nfour\nfive\nsix\nseven".to_string());
    let lines = overview_summary_lines(&vm);
    let texts: Vec<(String, String, bool)> = lines.into_iter().map(|l| (l.label, l.text, l.heading)).collect();
    let f = |a: &str, b: &str| (a.to_string(), b.to_string(), false);
    assert_eq!(texts[0], f("Path: ", "/tmp/linux-test"));
    assert_eq!(texts[3], f("Memory: ", "2048 MB"));
    assert_eq!(texts[4], f("CPU Cores: ", "2"));
    assert_eq!(texts[5], f("CPU Model: ", "host"));
    assert_eq!(texts[6], f("VGA: ", "Std"));
    assert_eq!(texts[7], f("Network: ", "e1000 (user/SLIRP (NAT))"));
    assert_eq!(texts[8], f("Display: ", "gtk"));
    assert_eq!(texts[9], f("Features: ", "KVM, TPM"));
    assert_eq!(texts[10], f("", ""));
    assert_eq!(texts[11], ("".to_string(), "Disks".to_string(), true));
    assert_eq!(texts[12], f("", "  disk.qcow2 (Qcow2, virtio)"));
    assert_eq!(texts[13], f("", "  unknown (Raw, ide)"));
    assert_eq!(texts[15], ("".to_string(), "Notes".to_string(), true));
    assert_eq!(texts[16], f("", "  one"));
    assert_eq!(texts.len(), 22);
    assert_eq!(texts[21], f("", "  six"));
}

#[test]
fn destructive_rows_live_in_run_and_advanced() {
    let vm = test_vm();
    let app = test_app(None);
    let on = Config { enable_multi_gpu_passthrough: true, single_gpu_enabled: true };
    for cat in categories_for(&vm, &on) {
        for row in detail_items_for(cat, &vm, &on, &app) {
            if is_danger_action(row.action.unwrap()) {
                assert!(cat == ManageCategory::Run || cat == ManageCategory::Advanced);
            }
        }
    }
    let advanced = detail_items_for(ManageCategory::Advanced, &vm, &on, &app);
    let actions: Vec<MenuAction> = advanced.iter().map(|r| r.action.unwrap()).collect();
    assert_eq!(actions, vec![MenuAction::EditRawConfig, MenuAction::ResetVm, MenuAction::DeleteVm]);
    assert_eq!(advanced[1].name, "Reset VM (recreate disk)");
}

#[test]
fn row_texts_and_network_status() {
    let vm = test_vm();
    let mut app = test_app(None);
    app.shared_folder_count = 2;
    let rows = detail_items_for(ManageCategory::SharedFolders, &vm, &app.config, &app);
    assert_eq!(
        detail_row_text(&rows[0]),
        ("  Shared Folders  ·  2 folder(s)".to_string(), "    Share host directories with the VM (virtio-9p)".to_string())
    );
    let rows = detail_items_for(ManageCategory::Advanced, &vm, &app.config, &app);
    assert_eq!(detail_row_text(&rows[2]).0, "  Delete VM");
    assert_eq!(numbered_row_text(0, "Normal boot", "Start the VM normally", false),
        ("[1] Normal boot".to_string(), "    Start the VM normally".to_string()));
    assert_eq!(numbered_row_text(9, "x", "", true).0, "[10] x *");
    let rows = display_option_rows(&["gtk".to_string(), "sdl".to_string()], "sdl");
    assert_eq!(rows[0], ("[1] gtk".to_string(), "    GTK - Default windowed display".to_string()));
    assert_eq!(rows[1].0, "[2] sdl *");
    assert_eq!(network_status_text(&None), "net: none");
    let net = Some(NetworkConfig { backend: NetworkBackend::Bridge("br0".to_string()), model: "e1000".to_string(), port_forward_count: 0 });
    assert_eq!(network_status_text(&net), "net: bridge: br0");
}

#[test]
fn script_options_are_read_word_by_word() {
    let script = "qemu-system-x86_64 -m 4096 -smp 4,sockets=1 -vga std \\\n -cpu host";
    assert_eq!(script_option_value(script, "-m "), Some("4096".to_string()));
    assert_eq!(script_option_value(script, "-smp "), Some("4".to_string()));
    assert_eq!(script_option_value(script, "-vga "), Some("std".to_string()));
    assert_eq!(script_option_value(script, "-cpu "), Some("host".to_string()));
    assert_eq!(script_option_value(script, "-machine "), None);
}

#[test]
fn boot_and_snapshot_rows() {
    let rows = boot_option_rows();
    assert_eq!(rows.len(), 5);
    assert_eq!(rows[0], ("[1] Normal boot".to_string(), "    Start the VM normally".to_string()));
    assert_eq!(rows[4].0, "[5] Boot with floppy image");
    assert_eq!(
        snapshot_row_text("clean", "2024-01-02 10:00", "1.2 GiB"),
        ("  clean".to_string(), "    2024-01-02 10:00 - 1.2 GiB".to_string())
    );
}
