//! The VM management workspace: categories in the left column, and for the
//! selected category the actions in the right column, each with a short
//! description and the current value it concerns.

use vstd::prelude::*;
use vstd::string::*;
use crate::text::{
    chars_eq, chars_of, decimal, find_chars, find_from, is_whitespace_char, is_ws, lemma_find_from_sound,
    lines_of, occurs_at, push_chars, push_decimal, push_str, scan_until,
    split_lines, string_from_chars, sub_chars, trim_chars, trim_seq,
};

verus! {

/// Categories in the left navigation column.
#[derive(Debug, Clone, Copy, PartialEq, Eq, Structural)]
pub enum ManageCategory {
    Overview,
    Run,
    Network,
    Storage,
    SharedFolders,
    Devices,
    Advanced,
}

/// Actions that can be performed from the management workspace.
#[derive(Debug, Clone, Copy, PartialEq, Eq, Structural)]
pub enum MenuAction {
    StopVm,
    BootOptions,
    Snapshots,
    UsbPassthrough,
    PciPassthrough,
    SharedFolders,
    NetworkSettings,
    MultiGpuPassthrough,
    SingleGpuPassthrough,
    ChangeDisplay,
    EditNotes,
    RenameVm,
    ResetVm,
    DeleteVm,
    EditRawConfig,
}

pub open spec fn category_title(c: ManageCategory) -> Seq<char> {
    match c {
        ManageCategory::Overview => "Overview"@,
        ManageCategory::Run => "Run"@,
        ManageCategory::Network => "Network"@,
        ManageCategory::Storage => "Storage"@,
        ManageCategory::SharedFolders => "Shared Folders"@,
        ManageCategory::Devices => "Devices"@,
        ManageCategory::Advanced => "Advanced"@,
    }
}

pub open spec fn category_blurb_text(c: ManageCategory) -> Seq<char> {
    match c {
        ManageCategory::Overview => "Configuration summary and metadata"@,
        ManageCategory::Run => "Boot, display, and power control"@,
        ManageCategory::Network => "Adapter, backend, bridge, and port forwards"@,
        ManageCategory::Storage => "Disk snapshots (qcow2)"@,
        ManageCategory::SharedFolders => "Host directories shared into the guest"@,
        ManageCategory::Devices => "USB, PCI, and GPU passthrough"@,
        ManageCategory::Advanced => "Raw config and destructive operations"@,
    }
}

impl ManageCategory {
    /// The category's name as the left column shows it.
    pub fn title(self) -> (r: &'static str)
        ensures
            r@ == category_title(self),
    {
        match self {
            ManageCategory::Overview => "Overview",
            ManageCategory::Run => "Run",
            ManageCategory::Network => "Network",
            ManageCategory::Storage => "Storage",
            ManageCategory::SharedFolders => "Shared Folders",
            ManageCategory::Devices => "Devices",
            ManageCategory::Advanced => "Advanced",
        }
    }
}

/// The one-line explanation shown above a category's actions.
pub fn category_blurb(category: ManageCategory) -> (r: &'static str)
    ensures
        r@ == category_blurb_text(category),
{
    match category {
        ManageCategory::Overview => "Configuration summary and metadata",
        ManageCategory::Run => "Boot, display, and power control",
        ManageCategory::Network => "Adapter, backend, bridge, and port forwards",
        ManageCategory::Storage => "Disk snapshots (qcow2)",
        ManageCategory::SharedFolders => "Host directories shared into the guest",
        ManageCategory::Devices => "USB, PCI, and GPU passthrough",
        ManageCategory::Advanced => "Raw config and destructive operations",
    }
}

/// Actions that stop, wipe or remove a VM.
pub open spec fn danger(action: MenuAction) -> bool {
    action is StopVm || action is ResetVm || action is DeleteVm
}

/// Whether an action is destructive, so that the UI marks it.
pub fn is_danger_action(action: MenuAction) -> (r: bool)
    ensures
        r == danger(action),
{
    matches!(action, MenuAction::StopVm | MenuAction::ResetVm | MenuAction::DeleteVm)
}

/// The categories, in the order of the left column.
pub open spec fn all_categories() -> Seq<ManageCategory> {
    seq![
        ManageCategory::Overview,
        ManageCategory::Run,
        ManageCategory::Network,
        ManageCategory::Storage,
        ManageCategory::SharedFolders,
        ManageCategory::Devices,
        ManageCategory::Advanced,
    ]
}

/// Feature switches of the application's configuration that shape the menus.
#[derive(Debug, Clone)]
pub struct Config {
    /// Offer passthrough of a secondary GPU (with Looking Glass).
    pub enable_multi_gpu_passthrough: bool,
    /// Offer passthrough of the primary GPU.
    pub single_gpu_enabled: bool,
}

impl Default for Config {
    fn default() -> (c: Self)
        ensures
            !c.enable_multi_gpu_passthrough,
            !c.single_gpu_enabled,
    {
        Config { enable_multi_gpu_passthrough: false, single_gpu_enabled: false }
    }
}

/// The actions of a category, in the order of the right column.
pub open spec fn category_actions(c: ManageCategory, config: Config) -> Seq<MenuAction> {
    match c {
        ManageCategory::Overview => seq![MenuAction::EditNotes, MenuAction::RenameVm],
        ManageCategory::Run => seq![
            MenuAction::BootOptions,
            MenuAction::ChangeDisplay,
            MenuAction::StopVm,
        ],
        ManageCategory::Network => seq![MenuAction::NetworkSettings],
        ManageCategory::Storage => seq![MenuAction::Snapshots],
        ManageCategory::SharedFolders => seq![MenuAction::SharedFolders],
        ManageCategory::Devices => {
            let base = seq![MenuAction::UsbPassthrough, MenuAction::PciPassthrough];
            let with_multi = if config.enable_multi_gpu_passthrough {
                base.push(MenuAction::MultiGpuPassthrough)
            } else {
                base
            };
            if config.single_gpu_enabled {
                with_multi.push(MenuAction::SingleGpuPassthrough)
            } else {
                with_multi
            }
        },
        ManageCategory::Advanced => seq![
            MenuAction::EditRawConfig,
            MenuAction::ResetVm,
            MenuAction::DeleteVm,
        ],
    }
}

fn category_actions_of(c: ManageCategory, config: &Config) -> (r: Vec<MenuAction>)
    ensures
        r@ == category_actions(c, *config),
{
    let r = match c {
        ManageCategory::Overview => vec![MenuAction::EditNotes, MenuAction::RenameVm],
        ManageCategory::Run => vec![
            MenuAction::BootOptions,
            MenuAction::ChangeDisplay,
            MenuAction::StopVm,
        ],
        ManageCategory::Network => vec![MenuAction::NetworkSettings],
        ManageCategory::Storage => vec![MenuAction::Snapshots],
        ManageCategory::SharedFolders => vec![MenuAction::SharedFolders],
        ManageCategory::Devices => {
            let mut items = vec![MenuAction::UsbPassthrough, MenuAction::PciPassthrough];
            if config.enable_multi_gpu_passthrough {
                items.push(MenuAction::MultiGpuPassthrough);
            }
            if config.single_gpu_enabled {
                items.push(MenuAction::SingleGpuPassthrough);
            }
            items
        },
        ManageCategory::Advanced => vec![
            MenuAction::EditRawConfig,
            MenuAction::ResetVm,
            MenuAction::DeleteVm,
        ],
    };
    assert(r@ =~= category_actions(c, *config));
    r
}

/// The name of an action's row.
pub open spec fn action_name(a: MenuAction) -> Seq<char> {
    match a {
        MenuAction::EditNotes => "Edit Notes"@,
        MenuAction::RenameVm => "Rename VM"@,
        MenuAction::BootOptions => "Boot Options"@,
        MenuAction::ChangeDisplay => "Change Display"@,
        MenuAction::StopVm => "Stop VM"@,
        MenuAction::NetworkSettings => "Network Settings"@,
        MenuAction::Snapshots => "Snapshots"@,
        MenuAction::SharedFolders => "Shared Folders"@,
        MenuAction::UsbPassthrough => "USB Passthrough"@,
        MenuAction::PciPassthrough => "PCI Passthrough"@,
        MenuAction::MultiGpuPassthrough => "Multi-GPU Passthrough"@,
        MenuAction::SingleGpuPassthrough => "Single GPU Passthrough"@,
        MenuAction::EditRawConfig => "Edit Raw Configuration"@,
        MenuAction::ResetVm => "Reset VM (recreate disk)"@,
        MenuAction::DeleteVm => "Delete VM"@,
    }
}

/// The description under an action's row; stopping depends on whether the
/// VM runs.
pub open spec fn action_description(a: MenuAction, running: bool) -> Seq<char> {
    match a {
        MenuAction::EditNotes => "Add or edit personal notes for this VM"@,
        MenuAction::RenameVm => "Change the VM's display name"@,
        MenuAction::BootOptions => "Normal, installer, recovery, or custom media boot"@,
        MenuAction::ChangeDisplay => "Switch GTK, SDL, SPICE-app, or VNC output"@,
        MenuAction::StopVm => if running {
            "Shut down the running VM (ACPI poweroff)"@
        } else {
            "VM is not running"@
        },
        MenuAction::NetworkSettings => "Change backend, adapter model, and port forwarding"@,
        MenuAction::Snapshots => "Create, restore, or delete qcow2 snapshots"@,
        MenuAction::SharedFolders => "Share host directories with the VM (virtio-9p)"@,
        MenuAction::UsbPassthrough => "Pass USB devices to the VM"@,
        MenuAction::PciPassthrough => "Pass PCI devices to the VM"@,
        MenuAction::MultiGpuPassthrough => "Pass a secondary GPU to the VM with Looking Glass"@,
        MenuAction::SingleGpuPassthrough => "Configure passthrough for your primary GPU"@,
        MenuAction::EditRawConfig => "Edit launch.sh directly"@,
        MenuAction::ResetVm => "Restore VM to fresh state"@,
        MenuAction::DeleteVm => "Permanently remove this VM"@,
    }
}

fn action_name_of(a: MenuAction) -> (r: &'static str)
    ensures
        r@ == action_name(a),
{
    match a {
        MenuAction::EditNotes => "Edit Notes",
        MenuAction::RenameVm => "Rename VM",
        MenuAction::BootOptions => "Boot Options",
        MenuAction::ChangeDisplay => "Change Display",
        MenuAction::StopVm => "Stop VM",
        MenuAction::NetworkSettings => "Network Settings",
        MenuAction::Snapshots => "Snapshots",
        MenuAction::SharedFolders => "Shared Folders",
        MenuAction::UsbPassthrough => "USB Passthrough",
        MenuAction::PciPassthrough => "PCI Passthrough",
        MenuAction::MultiGpuPassthrough => "Multi-GPU Passthrough",
        MenuAction::SingleGpuPassthrough => "Single GPU Passthrough",
        MenuAction::EditRawConfig => "Edit Raw Configuration",
        MenuAction::ResetVm => "Reset VM (recreate disk)",
        MenuAction::DeleteVm => "Delete VM",
    }
}

fn action_description_of(a: MenuAction, running: bool) -> (r: &'static str)
    ensures
        r@ == action_description(a, running),
{
    match a {
        MenuAction::EditNotes => "Add or edit personal notes for this VM",
        MenuAction::RenameVm => "Change the VM's display name",
        MenuAction::BootOptions => "Normal, installer, recovery, or custom media boot",
        MenuAction::ChangeDisplay => "Switch GTK, SDL, SPICE-app, or VNC output",
        MenuAction::StopVm => if running {
            "Shut down the running VM (ACPI poweroff)"
        } else {
            "VM is not running"
        },
        MenuAction::NetworkSettings => "Change backend, adapter model, and port forwarding",
        MenuAction::Snapshots => "Create, restore, or delete qcow2 snapshots",
        MenuAction::SharedFolders => "Share host directories with the VM (virtio-9p)",
        MenuAction::UsbPassthrough => "Pass USB devices to the VM",
        MenuAction::PciPassthrough => "Pass PCI devices to the VM",
        MenuAction::MultiGpuPassthrough => "Pass a secondary GPU to the VM with Looking Glass",
        MenuAction::SingleGpuPassthrough => "Configure passthrough for your primary GPU",
        MenuAction::EditRawConfig => "Edit launch.sh directly",
        MenuAction::ResetVm => "Restore VM to fresh state",
        MenuAction::DeleteVm => "Permanently remove this VM",
    }
}

} // verus!

verus! {

/// The network backend of a VM.
#[derive(Debug, Clone)]
pub enum NetworkBackend {
    User,
    Passt,
    Bridge(String),
    NoBackend,
}

/// The network adapter of a VM.
#[derive(Debug, Clone)]
pub struct NetworkConfig {
    pub backend: NetworkBackend,
    /// The adapter model, e.g. `e1000` or `virtio-net-pci`.
    pub model: String,
    /// How many ports are forwarded into the guest.
    pub port_forward_count: usize,
}

/// A disk of a VM.
#[derive(Debug, Clone)]
pub struct DiskSummary {
    /// The disk image's file name, when its path has one.
    pub file_name: Option<String>,
    /// The image format, e.g. `Qcow2`.
    pub format: String,
    /// The interface it is attached with, e.g. `virtio`.
    pub interface: String,
}

/// What is known of a VM's QEMU configuration, as read from its launch script.
#[derive(Debug, Clone)]
pub struct QemuConfig {
    /// The launch script itself.
    pub raw_script: String,
    pub network: Option<NetworkConfig>,
    /// The VM's disk format allows snapshots (qcow2).
    pub supports_snapshots: bool,
    pub emulator_command: String,
    pub architecture: String,
    pub memory_mb: u64,
    pub cpu_cores: u64,
    pub cpu_model: Option<String>,
    pub machine: Option<String>,
    pub vga: String,
    pub enable_kvm: bool,
    pub uefi: bool,
    pub tpm: bool,
    pub disks: Vec<DiskSummary>,
}

/// A VM found in the library.
#[derive(Debug, Clone)]
pub struct DiscoveredVm {
    /// The VM's directory name, which identifies it.
    pub id: String,
    /// The VM's directory.
    pub path: String,
    /// The name the VM is shown under.
    pub display_name: String,
    pub notes: Option<String>,
    pub config: QemuConfig,
}

/// A VM that is running, with the process that runs it.
#[derive(Debug, Clone)]
pub struct RunningVm {
    pub id: String,
    pub pid: u32,
}

/// The application state that the management workspace reads and moves.
#[derive(Debug, Clone)]
pub struct App {
    pub selected_vm: Option<DiscoveredVm>,
    pub config: Config,
    pub running_vms: Vec<RunningVm>,
    /// Snapshots loaded for the selected VM.
    pub snapshot_count: usize,
    /// Folders shared with the selected VM.
    pub shared_folder_count: usize,
    /// Selected category (left column).
    pub management_category: usize,
    /// Selected action (right column).
    pub management_detail: usize,
    /// The right column has the focus.
    pub management_focus_right: bool,
}

/// The process running the VM `id`, if any (the first entry for it).
pub open spec fn pid_of(running: Seq<RunningVm>, id: Seq<char>) -> Option<u32>
    decreases running.len(),
{
    if running.len() == 0 {
        None
    } else if running[0].id@ == id {
        Some(running[0].pid)
    } else {
        pid_of(running.drop_first(), id)
    }
}

fn running_pid(app: &App, id: &String) -> (r: Option<u32>)
    ensures
        r == pid_of(app.running_vms@, id@),
{
    let mut i: usize = 0;
    proof {
        assert(app.running_vms@.skip(0) =~= app.running_vms@);
    }
    while i < app.running_vms.len()
        invariant
            i <= app.running_vms.len(),
            pid_of(app.running_vms@, id@) == pid_of(app.running_vms@.skip(i as int), id@),
        decreases app.running_vms.len() - i,
    {
        assert(app.running_vms@.skip(i as int).drop_first() =~= app.running_vms@.skip(i + 1));
        if app.running_vms[i].id == *id {
            return Some(app.running_vms[i].pid);
        }
        i = i + 1;
    }
    None
}

/// The option text that introduces a display backend on QEMU's command line.
pub open spec fn display_option() -> Seq<char> {
    "-display "@
}

/// Stops where a display backend's name ends.
pub open spec fn display_stop() -> spec_fn(char) -> bool {
    |c: char| is_ws(c) || c == ',' || c == '\\'
}

/// The display backend that a launch script selects: the word after the
/// first `-display `, up to whitespace, a comma or a backslash; `gtk` when
/// the script selects none.
pub open spec fn display_from_script(script: Seq<char>) -> Seq<char> {
    match option_value(script, display_option()) {
        Some(w) => w,
        None => "gtk"@,
    }
}

/// The word that follows the first occurrence of `option` (e.g. `-vga `) in
/// a launch script, up to whitespace, a comma or a backslash.
pub open spec fn option_value(script: Seq<char>, option: Seq<char>) -> Option<Seq<char>> {
    match find_from(script, option, 0) {
        Some(p) => {
            let rest = script.skip(p + option.len());
            Some(rest.take(scan_until(rest, 0, display_stop())))
        },
        None => None,
    }
}

/// The value that a launch script gives an option: the word after the first
/// occurrence of `option`.
pub fn script_option_value(script: &str, option: &str) -> (r: Option<String>)
    ensures
        r.deep_view() == option_value(script@, option@),
{
    let s = chars_of(script);
    let opt = chars_of(option);
    match find_chars(&s, &opt) {
        Some(pos) => {
            proof {
                lemma_find_from_sound(s@, opt@, 0);
                assert(occurs_at(s@, opt@, pos as int));
            }
            assert(pos + opt@.len() <= s@.len());
            assert(pos + opt.len() <= s.len());
            let rest = sub_chars(&s, pos + opt.len(), s.len());
            assert(rest@ =~= s@.skip(pos + option@.len()));
            let mut end: usize = 0;
            while end < rest.len() && !(is_whitespace_char(rest[end]) || rest[end] == ','
                || rest[end] == '\\')
                invariant
                    end <= rest.len(),
                    scan_until(rest@, 0, display_stop()) == scan_until(
                        rest@,
                        end as int,
                        display_stop(),
                    ),
                decreases rest.len() - end,
            {
                end = end + 1;
            }
            let name = sub_chars(&rest, 0, end);
            assert(name@ =~= rest@.take(end as int));
            Some(string_from_chars(&name))
        },
        None => None,
    }
}

/// Extract the display setting from a launch script.
pub fn extract_display_from_script(script: &str) -> (r: String)
    ensures
        r@ == display_from_script(script@),
{
    match script_option_value(script, "-display ") {
        Some(w) => w,
        None => String::from_str("gtk"),
    }
}

/// The ellipsis that ends a shortened text.
pub open spec fn ellipsis() -> Seq<char> {
    "…"@
}

/// How a VM's notes are previewed: their first line, trimmed; `empty` when
/// that is blank; cut to 27 characters and an ellipsis when longer than 28.
pub open spec fn notes_preview(notes: Seq<char>) -> Seq<char> {
    let lines = lines_of(notes);
    let first = trim_seq(if lines.len() > 0 { lines[0] } else { Seq::empty() });
    if first.len() == 0 {
        "empty"@
    } else if first.len() > 28 {
        first.take(27) + ellipsis()
    } else {
        first
    }
}

fn notes_preview_of(notes: &String) -> (r: String)
    ensures
        r@ == notes_preview(notes@),
{
    let lines = split_lines(&chars_of(notes.as_str()));
    let first_line = if lines.len() > 0 {
        assert(lines.deep_view()[0] == lines[0]@);
        sub_chars(&lines[0], 0, lines[0].len())
    } else {
        Vec::new()
    };
    assert(first_line@ =~= (if lines_of(notes@).len() > 0 {
        lines_of(notes@)[0]
    } else {
        Seq::empty()
    }));
    let first = trim_chars(&first_line);
    if first.len() == 0 {
        String::from_str("empty")
    } else if first.len() > 28 {
        let mut out = sub_chars(&first, 0, 27);
        push_str(&mut out, "…");
        string_from_chars(&out)
    } else {
        string_from_chars(&first)
    }
}

/// The short label of a network backend in the action list.
pub open spec fn backend_label(b: NetworkBackend) -> Seq<char> {
    match b {
        NetworkBackend::User => "user/SLIRP"@,
        NetworkBackend::Passt => "passt"@,
        NetworkBackend::Bridge(_) => "bridge"@,
        NetworkBackend::NoBackend => "none"@,
    }
}

/// The separator between parts of a value.
pub open spec fn dot_sep() -> Seq<char> {
    " · "@
}

/// The network value: adapter model and backend, and the number of port
/// forwards when there are any; `— · none` without a network.
pub open spec fn network_value(network: Option<NetworkConfig>) -> Seq<char> {
    let (backend, model, count) = match network {
        Some(n) => (backend_label(n.backend), n.model@, n.port_forward_count as nat),
        None => ("none"@, "—"@, 0nat),
    };
    if count > 0 {
        model + dot_sep() + backend + dot_sep() + decimal(count) + " fwd"@
    } else {
        model + dot_sep() + backend
    }
}

fn network_value_of(network: &Option<NetworkConfig>) -> (r: String)
    ensures
        r@ == network_value(*network),
{
    let mut out: Vec<char> = Vec::new();
    let mut backend: Vec<char> = Vec::new();
    let mut count: usize = 0;
    match network {
        Some(n) => {
            push_chars(&mut out, &chars_of(n.model.as_str()));
            match &n.backend {
                NetworkBackend::User => push_str(&mut backend, "user/SLIRP"),
                NetworkBackend::Passt => push_str(&mut backend, "passt"),
                NetworkBackend::Bridge(_) => push_str(&mut backend, "bridge"),
                NetworkBackend::NoBackend => push_str(&mut backend, "none"),
            }
            count = n.port_forward_count;
        },
        None => {
            push_str(&mut out, "—");
            push_str(&mut backend, "none");
        },
    }
    push_str(&mut out, " · ");
    push_chars(&mut out, &backend);
    if count > 0 {
        push_str(&mut out, " · ");
        push_decimal(&mut out, count as u64);
        push_str(&mut out, " fwd");
    }
    string_from_chars(&out)
}

/// The snapshot value: what the disk format allows and how many snapshots
/// are loaded.
pub open spec fn snapshots_value(supports_snapshots: bool, count: nat) -> Seq<char> {
    if supports_snapshots {
        if count == 0 {
            "qcow2 · no snapshots loaded"@
        } else {
            "qcow2 · "@ + decimal(count) + " snapshot(s)"@
        }
    } else {
        "unavailable (raw disk)"@
    }
}

fn snapshots_value_of(supports_snapshots: bool, count: usize) -> (r: String)
    ensures
        r@ == snapshots_value(supports_snapshots, count as nat),
{
    if supports_snapshots {
        if count == 0 {
            String::from_str("qcow2 · no snapshots loaded")
        } else {
            let mut out: Vec<char> = Vec::new();
            push_str(&mut out, "qcow2 · ");
            push_decimal(&mut out, count as u64);
            push_str(&mut out, " snapshot(s)");
            string_from_chars(&out)
        }
    } else {
        String::from_str("unavailable (raw disk)")
    }
}

/// The value shown beside an action's name, if any.
pub open spec fn action_value(a: MenuAction, vm: DiscoveredVm, app: App) -> Option<Seq<char>> {
    match a {
        MenuAction::EditNotes => match vm.notes {
            Some(n) => Some(notes_preview(n@)),
            None => None,
        },
        MenuAction::RenameVm => Some(vm.display_name@),
        MenuAction::ChangeDisplay => Some(display_from_script(vm.config.raw_script@)),
        MenuAction::StopVm => match pid_of(app.running_vms@, vm.id@) {
            Some(pid) => Some("pid "@ + decimal(pid as nat)),
            None => Some("stopped"@),
        },
        MenuAction::NetworkSettings => Some(network_value(vm.config.network)),
        MenuAction::Snapshots => Some(
            snapshots_value(vm.config.supports_snapshots, app.snapshot_count as nat),
        ),
        MenuAction::SharedFolders => if app.shared_folder_count == 0 {
            None
        } else {
            Some(decimal(app.shared_folder_count as nat) + " folder(s)"@)
        },
        _ => None,
    }
}

/// A selectable row in the right (detail) pane.
#[derive(Debug, Clone)]
pub struct DetailItem {
    pub name: &'static str,
    pub description: &'static str,
    /// Optional current-value hint shown on the right of the name.
    pub value: Option<String>,
    pub action: Option<MenuAction>,
}

/// `item` is the row of action `a` for `vm` in `app`.
pub open spec fn is_item_for(item: DetailItem, a: MenuAction, vm: DiscoveredVm, app: App) -> bool {
    &&& item.action == Some(a)
    &&& item.name@ == action_name(a)
    &&& item.description@ == action_description(a, pid_of(app.running_vms@, vm.id@) is Some)
    &&& item.value.deep_view() == action_value(a, vm, app)
}

fn action_value_of(a: MenuAction, vm: &DiscoveredVm, app: &App) -> (r: Option<String>)
    ensures
        r.deep_view() == action_value(a, *vm, *app),
{
    match a {
        MenuAction::EditNotes => match &vm.notes {
            Some(n) => Some(notes_preview_of(n)),
            None => None,
        },
        MenuAction::RenameVm => Some(vm.display_name.clone()),
        MenuAction::ChangeDisplay => Some(extract_display_from_script(vm.config.raw_script.as_str())),
        MenuAction::StopVm => match running_pid(app, &vm.id) {
            Some(pid) => {
                let mut out: Vec<char> = Vec::new();
                push_str(&mut out, "pid ");
                push_decimal(&mut out, pid as u64);
                Some(string_from_chars(&out))
            },
            None => Some(String::from_str("stopped")),
        },
        MenuAction::NetworkSettings => Some(network_value_of(&vm.config.network)),
        MenuAction::Snapshots => Some(
            snapshots_value_of(vm.config.supports_snapshots, app.snapshot_count),
        ),
        MenuAction::SharedFolders => if app.shared_folder_count == 0 {
            None
        } else {
            let mut out: Vec<char> = Vec::new();
            push_decimal(&mut out, app.shared_folder_count as u64);
            push_str(&mut out, " folder(s)");
            Some(string_from_chars(&out))
        },
        _ => None,
    }
}

fn detail_item(a: MenuAction, vm: &DiscoveredVm, app: &App) -> (r: DetailItem)
    ensures
        is_item_for(r, a, *vm, *app),
{
    let running = running_pid(app, &vm.id).is_some();
    DetailItem {
        name: action_name_of(a),
        description: action_description_of(a, running),
        value: action_value_of(a, vm, app),
        action: Some(a),
    }
}

/// Build the left-column category list for this VM and configuration.
pub fn categories_for(_vm: &DiscoveredVm, _config: &Config) -> (r: Vec<ManageCategory>)
    ensures
        r@ == all_categories(),
{
    let r = vec![
        ManageCategory::Overview,
        ManageCategory::Run,
        ManageCategory::Network,
        ManageCategory::Storage,
        ManageCategory::SharedFolders,
        ManageCategory::Devices,
        ManageCategory::Advanced,
    ];
    assert(r@ =~= all_categories());
    r
}

/// Build the right-pane items for a category: one row per action of the
/// category, in order.
pub fn detail_items_for(category: ManageCategory, vm: &DiscoveredVm, config: &Config, app: &App) -> (r: Vec<DetailItem>)
    ensures
        r.len() == category_actions(category, *config).len(),
        forall|i: int|
            0 <= i < r.len() ==> is_item_for(
                #[trigger] r@[i],
                category_actions(category, *config)[i],
                *vm,
                *app,
            ),
{
    let actions = category_actions_of(category, config);
    let mut items: Vec<DetailItem> = Vec::new();
    let mut i: usize = 0;
    while i < actions.len()
        invariant
            i <= actions.len(),
            actions@ == category_actions(category, *config),
            items.len() == i,
            forall|j: int| 0 <= j < i ==> is_item_for(#[trigger] items@[j], actions@[j], *vm, *app),
        decreases actions.len() - i,
    {
        items.push(detail_item(actions[i], vm, app));
        i = i + 1;
    }
    items
}

} // verus!

verus! {

/// The first index at or after `k` where `a` occurs in `s`.
pub open spec fn position_from(s: Seq<MenuAction>, a: MenuAction, k: int) -> Option<int>
    decreases s.len() - k,
{
    if k < 0 || k >= s.len() {
        None
    } else if s[k] == a {
        Some(k)
    } else {
        position_from(s, a, k + 1)
    }
}

/// Where `a` is offered: the first category at or after `k` that lists it,
/// and its row there.
pub open spec fn locate_from(config: Config, a: MenuAction, k: int) -> Option<(int, int)>
    decreases 7 - k,
{
    if k < 0 || k >= 7 {
        None
    } else {
        match position_from(category_actions(all_categories()[k], config), a, 0) {
            Some(d) => Some((k, d)),
            None => locate_from(config, a, k + 1),
        }
    }
}

/// Where `a` is offered in the workspace: (category, row).
pub open spec fn action_location(config: Config, a: MenuAction) -> Option<(int, int)> {
    locate_from(config, a, 0)
}

/// The action that the selection points at, if any.
pub open spec fn selection_action(app: App) -> Option<MenuAction> {
    if app.selected_vm is Some && app.management_category < 7 {
        let acts = category_actions(
            all_categories()[app.management_category as int],
            app.config,
        );
        if app.management_detail < acts.len() {
            Some(acts[app.management_detail as int])
        } else {
            None
        }
    } else {
        None
    }
}

proof fn lemma_position_from_sound(s: Seq<MenuAction>, a: MenuAction, k: int)
    requires
        0 <= k,
    ensures
        match position_from(s, a, k) {
            Some(i) => k <= i < s.len() && s[i] == a,
            None => forall|j: int| k <= j < s.len() ==> s[j] != a,
        },
    decreases s.len() - k,
{
    if k < s.len() && s[k] != a {
        lemma_position_from_sound(s, a, k + 1);
    }
}

proof fn lemma_locate_from_sound(config: Config, a: MenuAction, k: int)
    requires
        0 <= k,
    ensures
        match locate_from(config, a, k) {
            Some((c, d)) => k <= c < 7 && 0 <= d < category_actions(all_categories()[c], config).len()
                && category_actions(all_categories()[c], config)[d] == a,
            None => true,
        },
    decreases 7 - k,
{
    if k < 7 {
        lemma_position_from_sound(category_actions(all_categories()[k], config), a, 0);
        lemma_locate_from_sound(config, a, k + 1);
    }
}

fn position_of(items: &Vec<DetailItem>, acts: Ghost<Seq<MenuAction>>, a: MenuAction) -> (r: Option<usize>)
    requires
        items.len() == acts@.len(),
        forall|i: int| 0 <= i < items.len() ==> (#[trigger] items@[i]).action == Some(acts@[i]),
    ensures
        match r {
            Some(d) => position_from(acts@, a, 0) == Some(d as int),
            None => position_from(acts@, a, 0) is None,
        },
{
    let mut d: usize = 0;
    while d < items.len()
        invariant
            d <= items.len(),
            items.len() == acts@.len(),
            forall|i: int| 0 <= i < items.len() ==> (#[trigger] items@[i]).action == Some(acts@[i]),
            position_from(acts@, a, 0) == position_from(acts@, a, d as int),
        decreases items.len() - d,
    {
        let hit = match items[d].action {
            Some(x) => x == a,
            None => false,
        };
        assert(items@[d as int].action == Some(acts@[d as int]));
        if hit {
            return Some(d);
        }
        d = d + 1;
    }
    None
}

fn locate_action(app: &App, action: MenuAction) -> (r: Option<(usize, usize)>)
    ensures
        match r {
            Some((c, d)) => app.selected_vm is Some && action_location(app.config, action) == Some(
                (c as int, d as int),
            ),
            None => app.selected_vm is None || action_location(app.config, action) is None,
        },
{
    let vm = match &app.selected_vm {
        Some(vm) => vm,
        None => return None,
    };
    let cats = categories_for(vm, &app.config);
    let mut ci: usize = 0;
    while ci < cats.len()
        invariant
            ci <= cats.len(),
            cats@ == all_categories(),
            app.selected_vm == Some(*vm),
            action_location(app.config, action) == locate_from(app.config, action, ci as int),
        decreases cats.len() - ci,
    {
        let details = detail_items_for(cats[ci], vm, &app.config, app);
        let ghost acts = category_actions(cats@[ci as int], app.config);
        assert forall|i: int| 0 <= i < details.len() implies (#[trigger] details@[i]).action == Some(
            acts[i],
        ) by {
            assert(is_item_for(details@[i], acts[i], *vm, *app));
        }
        match position_of(&details, Ghost(acts), action) {
            Some(d) => {
                return Some((ci, d));
            },
            None => {},
        }
        ci = ci + 1;
    }
    None
}

/// Restore the selection so that `action` is highlighted after a sub-screen:
/// the first category that offers it and its row there, with the focus on the
/// actions. Nothing changes when no VM is selected or no category offers it.
pub fn focus_action(app: &mut App, action: MenuAction)
    ensures
        match (old(app).selected_vm, action_location(old(app).config, action)) {
            (Some(_), Some((c, d))) => *final(app) == (App {
                management_category: c as usize,
                management_detail: d as usize,
                management_focus_right: true,
                ..*old(app)
            }),
            _ => *final(app) == *old(app),
        },
{
    match locate_action(app, action) {
        Some((c, d)) => {
            app.management_category = c;
            app.management_detail = d;
            app.management_focus_right = true;
        },
        None => {},
    }
}

/// Count of right-pane items for the current category.
pub fn detail_item_count(app: &App) -> (r: usize)
    ensures
        r == (if app.selected_vm is Some && app.management_category < 7 {
            category_actions(all_categories()[app.management_category as int], app.config).len()
        } else {
            0
        }),
{
    match &app.selected_vm {
        Some(vm) => {
            let cats = categories_for(vm, &app.config);
            if app.management_category < cats.len() {
                return detail_items_for(cats[app.management_category], vm, &app.config, app).len();
            }
            0
        },
        None => 0,
    }
}

/// Count of categories: all of them when a VM is selected, else none.
pub fn category_count(app: &App) -> (r: usize)
    ensures
        r == (if app.selected_vm is Some {
            all_categories().len()
        } else {
            0
        }),
{
    match &app.selected_vm {
        Some(vm) => categories_for(vm, &app.config).len(),
        None => 0,
    }
}

/// Resolve the currently selected detail action, if any.
pub fn selected_action(app: &App) -> (r: Option<MenuAction>)
    ensures
        r == selection_action(*app),
{
    let vm = match &app.selected_vm {
        Some(vm) => vm,
        None => return None,
    };
    let cats = categories_for(vm, &app.config);
    if app.management_category >= cats.len() {
        return None;
    }
    let details = detail_items_for(cats[app.management_category], vm, &app.config, app);
    if app.management_detail >= details.len() {
        return None;
    }
    let ghost acts = category_actions(all_categories()[app.management_category as int], app.config);
    assert(is_item_for(details@[app.management_detail as int], acts[app.management_detail as int], *vm, *app));
    details[app.management_detail].action
}

/// Highlighting an action and then asking what is selected gives that action.
pub proof fn law_focus_then_select(app: App, action: MenuAction)
    requires
        app.selected_vm is Some,
        action_location(app.config, action) is Some,
    ensures
        ({
            let (c, d) = action_location(app.config, action).unwrap();
            selection_action(
                App {
                    management_category: c as usize,
                    management_detail: d as usize,
                    management_focus_right: true,
                    ..app
                },
            ) == Some(action)
        }),
{
    lemma_locate_from_sound(app.config, action, 0);
}

/// Every action has a place in the workspace, except GPU passthrough whose
/// feature switch is off.
pub proof fn law_every_action_is_offered(config: Config, action: MenuAction)
    requires
        action is MultiGpuPassthrough ==> config.enable_multi_gpu_passthrough,
        action is SingleGpuPassthrough ==> config.single_gpu_enabled,
    ensures
        action_location(config, action) is Some,
{
    reveal_with_fuel(locate_from, 8);
    reveal_with_fuel(position_from, 5);
}

/// Disabled GPU passthrough is offered nowhere.
pub proof fn law_disabled_gpu_actions_hidden(config: Config)
    ensures
        !config.enable_multi_gpu_passthrough ==> action_location(
            config,
            MenuAction::MultiGpuPassthrough,
        ) is None,
        !config.single_gpu_enabled ==> action_location(
            config,
            MenuAction::SingleGpuPassthrough,
        ) is None,
{
    reveal_with_fuel(locate_from, 8);
    reveal_with_fuel(position_from, 5);
}

} // verus!

verus! {

/// The description shown for a display backend: a fixed one for the common
/// backends, else the backend's name and ` display`.
pub open spec fn display_description(backend: Seq<char>) -> Seq<char> {
    if backend == "gtk"@ {
        "GTK - Default windowed display"@
    } else if backend == "sdl"@ {
        "SDL - Better for 3D acceleration"@
    } else if backend == "spice-app"@ {
        "SPICE - Remote desktop (needs virt-viewer)"@
    } else if backend == "vnc"@ {
        "VNC - Network accessible display"@
    } else if backend == "none"@ {
        "None - Headless, no graphical output"@
    } else {
        backend + " display"@
    }
}

fn display_description_of(backend: &String) -> (r: String)
    ensures
        r@ == display_description(backend@),
{
    let b = chars_of(backend.as_str());
    if chars_eq(&b, &chars_of("gtk")) {
        String::from_str("GTK - Default windowed display")
    } else if chars_eq(&b, &chars_of("sdl")) {
        String::from_str("SDL - Better for 3D acceleration")
    } else if chars_eq(&b, &chars_of("spice-app")) {
        String::from_str("SPICE - Remote desktop (needs virt-viewer)")
    } else if chars_eq(&b, &chars_of("vnc")) {
        String::from_str("VNC - Network accessible display")
    } else if chars_eq(&b, &chars_of("none")) {
        String::from_str("None - Headless, no graphical output")
    } else {
        let mut out = b;
        push_str(&mut out, " display");
        string_from_chars(&out)
    }
}

/// The display options to offer, from the backends that the VM's emulator
/// reports (see `display_emulator`): each backend with its description.
pub fn get_display_options(detected: &[String]) -> (r: Vec<(String, String)>)
    ensures
        r.len() == detected.len(),
        forall|i: int|
            0 <= i < r.len() ==> (#[trigger] r@[i]).0@ == detected@[i]@ && r@[i].1@
                == display_description(detected@[i]@),
{
    let mut r: Vec<(String, String)> = Vec::new();
    let mut i: usize = 0;
    while i < detected.len()
        invariant
            i <= detected.len(),
            r.len() == i,
            forall|j: int|
                0 <= j < i ==> (#[trigger] r@[j]).0@ == detected@[j]@ && r@[j].1@
                    == display_description(detected@[j]@),
        decreases detected.len() - i,
    {
        let desc = display_description_of(&detected[i]);
        r.push((detected[i].clone(), desc));
        i = i + 1;
    }
    r
}

/// The emulator whose display backends are offered: the selected VM's, or
/// `qemu-system-x86_64` when no VM is selected.
pub fn display_emulator(app: &App) -> (r: String)
    ensures
        r@ == (match app.selected_vm {
            Some(vm) => vm.config.emulator_command@,
            None => "qemu-system-x86_64"@,
        }),
{
    match &app.selected_vm {
        Some(vm) => vm.config.emulator_command.clone(),
        None => String::from_str("qemu-system-x86_64"),
    }
}

} // verus!

verus! {

/// A line of the overview summary: a labelled field, a heading, or plain
/// text (a blank line has neither label nor text).
#[derive(Debug, Clone)]
pub struct SummaryLine {
    pub label: String,
    pub text: String,
    pub heading: bool,
}

/// A summary line as (label, text, heading).
pub type LineView = (Seq<char>, Seq<char>, bool);

pub open spec fn line_view(l: SummaryLine) -> LineView {
    (l.label@, l.text@, l.heading)
}

pub open spec fn lines_view(v: Seq<SummaryLine>) -> Seq<LineView> {
    v.map_values(|l: SummaryLine| line_view(l))
}

pub open spec fn field(label: Seq<char>, text: Seq<char>) -> LineView {
    (label, text, false)
}

pub open spec fn plain(text: Seq<char>) -> LineView {
    (""@, text, false)
}

pub open spec fn heading(text: Seq<char>) -> LineView {
    (""@, text, true)
}

/// How the overview names a network backend.
pub open spec fn backend_description(b: NetworkBackend) -> Seq<char> {
    match b {
        NetworkBackend::User => "user/SLIRP (NAT)"@,
        NetworkBackend::Passt => "passt"@,
        NetworkBackend::Bridge(name) => "bridge: "@ + name@,
        NetworkBackend::NoBackend => "none"@,
    }
}

/// The features line's text: those of KVM, UEFI and TPM that are enabled,
/// joined by commas.
pub open spec fn features_text(kvm: bool, uefi: bool, tpm: bool) -> Seq<char> {
    let names = (if kvm { seq!["KVM"@] } else { Seq::<Seq<char>>::empty() }) + (if uefi {
        seq!["UEFI"@]
    } else {
        Seq::<Seq<char>>::empty()
    }) + (if tpm { seq!["TPM"@] } else { Seq::<Seq<char>>::empty() });
    join_comma(names)
}

/// `names` joined by `, `.
pub open spec fn join_comma(names: Seq<Seq<char>>) -> Seq<char>
    decreases names.len(),
{
    if names.len() == 0 {
        Seq::empty()
    } else if names.len() == 1 {
        names[0]
    } else {
        join_comma(names.drop_last()) + ", "@ + names.last()
    }
}

/// The line that lists a disk: its file name (or `unknown`), format and interface.
pub open spec fn disk_text(d: DiskSummary) -> Seq<char> {
    "  "@ + (match d.file_name {
        Some(n) => n@,
        None => "unknown"@,
    }) + " ("@ + d.format@ + ", "@ + d.interface@ + ")"@
}

/// The summary's configuration fields, down to the display.
pub open spec fn overview_fields(vm: DiscoveredVm) -> Seq<LineView> {
    let c = vm.config;
    seq![
        field("Path: "@, vm.path@),
        field("Emulator: "@, c.emulator_command@),
        field("Architecture: "@, c.architecture@),
        field("Memory: "@, decimal(c.memory_mb as nat) + " MB"@),
        field("CPU Cores: "@, decimal(c.cpu_cores as nat)),
    ] + (match c.cpu_model {
        Some(m) => seq![field("CPU Model: "@, m@)],
        None => Seq::empty(),
    }) + (match c.machine {
        Some(m) => seq![field("Machine: "@, m@)],
        None => Seq::empty(),
    }) + seq![field("VGA: "@, c.vga@)] + (match c.network {
        Some(n) => seq![
            field("Network: "@, n.model@ + " ("@ + backend_description(n.backend) + ")"@),
        ],
        None => Seq::empty(),
    }) + seq![field("Display: "@, display_from_script(c.raw_script@))]
}

/// The summary's features line, when any feature is enabled.
pub open spec fn overview_features(c: QemuConfig) -> Seq<LineView> {
    if c.enable_kvm || c.uefi || c.tpm {
        seq![field("Features: "@, features_text(c.enable_kvm, c.uefi, c.tpm))]
    } else {
        Seq::empty()
    }
}

/// The summary's disk section.
pub open spec fn overview_disks(c: QemuConfig) -> Seq<LineView> {
    seq![plain(Seq::empty()), heading("Disks"@)] + c.disks@.map_values(
        |d: DiskSummary| plain(disk_text(d)),
    )
}

/// The summary's notes section: the first six lines of non-blank notes.
pub open spec fn overview_notes(notes: Option<String>) -> Seq<LineView> {
    match notes {
        Some(n) => if trim_seq(n@).len() > 0 {
            let ls = lines_of(n@);
            let shown = if ls.len() > 6 { ls.take(6) } else { ls };
            seq![plain(Seq::empty()), heading("Notes"@)] + shown.map_values(
                |l: Seq<char>| plain("  "@ + l),
            )
        } else {
            Seq::empty()
        },
        None => Seq::empty(),
    }
}

/// The configuration summary shown in the Overview category.
pub open spec fn overview_summary(vm: DiscoveredVm) -> Seq<LineView> {
    overview_fields(vm) + overview_features(vm.config) + overview_disks(vm.config)
        + overview_notes(vm.notes)
}

fn push_line(lines: &mut Vec<SummaryLine>, label: &str, text: Vec<char>, is_heading: bool)
    ensures
        lines_view(final(lines)@) == lines_view(old(lines)@).push((label@, text@, is_heading)),
{
    let l = SummaryLine {
        label: string_from_chars(&chars_of(label)),
        text: string_from_chars(&text),
        heading: is_heading,
    };
    lines.push(l);
    assert(lines_view(lines@) =~= lines_view(old(lines)@).push((label@, text@, is_heading)));
}

fn str_chars(s: &String) -> (r: Vec<char>)
    ensures
        r@ == s@,
{
    chars_of(s.as_str())
}

fn overview_fields_of(vm: &DiscoveredVm) -> (r: Vec<SummaryLine>)
    ensures
        lines_view(r@) == overview_fields(*vm),
{
    let c = &vm.config;
    let mut lines: Vec<SummaryLine> = Vec::new();
    push_line(&mut lines, "Path: ", str_chars(&vm.path), false);
    push_line(&mut lines, "Emulator: ", str_chars(&c.emulator_command), false);
    push_line(&mut lines, "Architecture: ", str_chars(&c.architecture), false);
    let mut mem: Vec<char> = Vec::new();
    push_decimal(&mut mem, c.memory_mb);
    push_str(&mut mem, " MB");
    push_line(&mut lines, "Memory: ", mem, false);
    let mut cores: Vec<char> = Vec::new();
    push_decimal(&mut cores, c.cpu_cores);
    assert(cores@ =~= decimal(c.cpu_cores as nat));
    push_line(&mut lines, "CPU Cores: ", cores, false);
    let ghost head = lines_view(lines@);
    if let Some(m) = &c.cpu_model {
        push_line(&mut lines, "CPU Model: ", str_chars(m), false);
    }
    let ghost with_model = lines_view(lines@);
    if let Some(m) = &c.machine {
        push_line(&mut lines, "Machine: ", str_chars(m), false);
    }
    let ghost with_machine = lines_view(lines@);
    push_line(&mut lines, "VGA: ", str_chars(&c.vga), false);
    let ghost with_vga = lines_view(lines@);
    if let Some(n) = &c.network {
        let mut t = str_chars(&n.model);
        push_str(&mut t, " (");
        match &n.backend {
            NetworkBackend::User => push_str(&mut t, "user/SLIRP (NAT)"),
            NetworkBackend::Passt => push_str(&mut t, "passt"),
            NetworkBackend::Bridge(name) => {
                push_str(&mut t, "bridge: ");
                push_chars(&mut t, &str_chars(name));
            },
            NetworkBackend::NoBackend => push_str(&mut t, "none"),
        }
        push_str(&mut t, ")");
        assert(t@ =~= n.model@ + " ("@ + backend_description(n.backend) + ")"@);
        push_line(&mut lines, "Network: ", t, false);
    }
    let ghost with_net = lines_view(lines@);
    let display = extract_display_from_script(c.raw_script.as_str());
    push_line(&mut lines, "Display: ", str_chars(&display), false);
    assert(lines_view(lines@) =~= overview_fields(*vm));
    lines
}

fn overview_features_of(c: &QemuConfig) -> (r: Vec<SummaryLine>)
    ensures
        lines_view(r@) == overview_features(*c),
{
    let mut lines: Vec<SummaryLine> = Vec::new();
    if c.enable_kvm || c.uefi || c.tpm {
        let mut t: Vec<char> = Vec::new();
        let mut any = false;
        let ghost mut names: Seq<Seq<char>> = Seq::empty();
        if c.enable_kvm {
            push_str(&mut t, "KVM");
            any = true;
            proof {
                names = names.push("KVM"@);
            }
        }
        assert(t@ =~= join_comma(names));
        assert(any == (names.len() > 0));
        if c.uefi {
            let ghost old_names = names;
            let ghost old_t = t@;
            if any {
                push_str(&mut t, ", ");
            }
            push_str(&mut t, "UEFI");
            any = true;
            proof {
                names = names.push("UEFI"@);
                assert(names.drop_last() =~= old_names);
                if old_names.len() > 0 {
                    assert(join_comma(names) == join_comma(old_names) + ", "@ + "UEFI"@);
                    assert(t@ =~= old_t + ", "@ + "UEFI"@);
                } else {
                    assert(t@ =~= "UEFI"@);
                }
            }
        }
        assert(t@ =~= join_comma(names));
        assert(any == (names.len() > 0));
        if c.tpm {
            let ghost old_names = names;
            let ghost old_t = t@;
            if any {
                push_str(&mut t, ", ");
            }
            push_str(&mut t, "TPM");
            proof {
                names = names.push("TPM"@);
                assert(names.drop_last() =~= old_names);
                if old_names.len() > 0 {
                    assert(join_comma(names) == join_comma(old_names) + ", "@ + "TPM"@);
                    assert(t@ =~= old_t + ", "@ + "TPM"@);
                } else {
                    assert(t@ =~= "TPM"@);
                }
            }
        }
        assert(t@ =~= join_comma(names));
        assert(names =~= (if c.enable_kvm { seq!["KVM"@] } else { Seq::<Seq<char>>::empty() }) + (
        if c.uefi {
            seq!["UEFI"@]
        } else {
            Seq::<Seq<char>>::empty()
        }) + (if c.tpm { seq!["TPM"@] } else { Seq::<Seq<char>>::empty() }));
        push_line(&mut lines, "Features: ", t, false);
    }
    assert(lines_view(lines@) =~= overview_features(*c));
    lines
}

} // verus!

verus! {

fn overview_disks_of(c: &QemuConfig) -> (r: Vec<SummaryLine>)
    ensures
        lines_view(r@) == overview_disks(*c),
{
    let mut lines: Vec<SummaryLine> = Vec::new();
    push_line(&mut lines, "", Vec::new(), false);
    push_line(&mut lines, "", chars_of("Disks"), true);
    let ghost head = lines_view(lines@);
    assert(head =~= seq![plain(Seq::empty()), heading("Disks"@)]);
    let mut i: usize = 0;
    while i < c.disks.len()
        invariant
            i <= c.disks.len(),
            head == seq![plain(Seq::<char>::empty()), heading("Disks"@)],
            lines_view(lines@) == head + c.disks@.take(i as int).map_values(
                |d: DiskSummary| plain(disk_text(d)),
            ),
        decreases c.disks.len() - i,
    {
        let d = &c.disks[i];
        let mut t: Vec<char> = Vec::new();
        push_str(&mut t, "  ");
        match &d.file_name {
            Some(n) => push_chars(&mut t, &str_chars(n)),
            None => push_str(&mut t, "unknown"),
        }
        push_str(&mut t, " (");
        push_chars(&mut t, &str_chars(&d.format));
        push_str(&mut t, ", ");
        push_chars(&mut t, &str_chars(&d.interface));
        push_str(&mut t, ")");
        assert(t@ =~= disk_text(*d));
        push_line(&mut lines, "", t, false);
        assert(c.disks@.take(i + 1).map_values(|d: DiskSummary| plain(disk_text(d))) =~= c.disks@.take(
            i as int,
        ).map_values(|d: DiskSummary| plain(disk_text(d))).push(plain(disk_text(c.disks@[i as int]))));
        i = i + 1;
    }
    assert(c.disks@.take(i as int) =~= c.disks@);
    lines
}

fn overview_notes_of(notes: &Option<String>) -> (r: Vec<SummaryLine>)
    ensures
        lines_view(r@) == overview_notes(*notes),
{
    let mut lines: Vec<SummaryLine> = Vec::new();
    match notes {
        Some(n) => {
            let text = str_chars(n);
            let trimmed = trim_chars(&text);
            if trimmed.len() > 0 {
                push_line(&mut lines, "", Vec::new(), false);
                push_line(&mut lines, "", chars_of("Notes"), true);
                let ghost head = lines_view(lines@);
                assert(head =~= seq![plain(Seq::empty()), heading("Notes"@)]);
                let ls = split_lines(&text);
                let shown: usize = if ls.len() > 6 { 6 } else { ls.len() };
                let ghost shown_seq = if ls.deep_view().len() > 6 {
                    ls.deep_view().take(6)
                } else {
                    ls.deep_view()
                };
                assert(shown_seq.len() == shown);
                let mut i: usize = 0;
                while i < shown
                    invariant
                        i <= shown <= ls.len(),
                        shown_seq.len() == shown,
                        forall|j: int| 0 <= j < shown ==> shown_seq[j] == #[trigger] ls.deep_view()[j],
                        head == seq![plain(Seq::<char>::empty()), heading("Notes"@)],
                        lines_view(lines@) == head + shown_seq.take(i as int).map_values(
                            |l: Seq<char>| plain("  "@ + l),
                        ),
                    decreases shown - i,
                {
                    let mut t: Vec<char> = Vec::new();
                    push_str(&mut t, "  ");
                    push_chars(&mut t, &ls[i]);
                    assert(ls.deep_view()[i as int] == ls[i as int]@);
                    push_line(&mut lines, "", t, false);
                    assert(shown_seq.take(i + 1).map_values(|l: Seq<char>| plain("  "@ + l))
                        =~= shown_seq.take(i as int).map_values(|l: Seq<char>| plain("  "@ + l)).push(
                        plain("  "@ + shown_seq[i as int]),
                    ));
                    i = i + 1;
                }
                assert(shown_seq.take(i as int) =~= shown_seq);
            }
        },
        None => {},
    }
    lines
}

/// The configuration summary of the Overview category: path, emulator,
/// architecture, memory, cores, CPU model and machine when set, VGA, network
/// when set, display, enabled features, the disks, and the first lines of
/// the notes.
pub fn overview_summary_lines(vm: &DiscoveredVm) -> (r: Vec<SummaryLine>)
    ensures
        lines_view(r@) == overview_summary(*vm),
{
    let mut lines = overview_fields_of(vm);
    let mut features = overview_features_of(&vm.config);
    let mut disks = overview_disks_of(&vm.config);
    let mut notes = overview_notes_of(&vm.notes);
    let ghost a = lines@;
    let ghost b = features@;
    let ghost c = disks@;
    let ghost d = notes@;
    lines.append(&mut features);
    lines.append(&mut disks);
    lines.append(&mut notes);
    assert(lines@ =~= a + b + c + d);
    assert(lines_view(a + b + c + d) =~= lines_view(a) + lines_view(b) + lines_view(c) + lines_view(d));
    lines
}

/// How the status header describes whether the VM runs.
pub open spec fn run_status_text(pid: Option<u32>) -> Seq<char> {
    match pid {
        Some(p) => "running (pid "@ + decimal(p as nat) + ")"@,
        None => "stopped"@,
    }
}

/// How the status header describes the VM's snapshot support.
pub open spec fn storage_status_text(supports_snapshots: bool) -> Seq<char> {
    if supports_snapshots {
        "snapshots: qcow2"@
    } else {
        "snapshots: unavailable"@
    }
}

/// The run and storage parts of the management status header for `vm`.
pub fn management_status_texts(app: &App, vm: &DiscoveredVm) -> (r: (String, String))
    ensures
        r.0@ == run_status_text(pid_of(app.running_vms@, vm.id@)),
        r.1@ == storage_status_text(vm.config.supports_snapshots),
{
    let run = match running_pid(app, &vm.id) {
        Some(pid) => {
            let mut t: Vec<char> = Vec::new();
            push_str(&mut t, "running (pid ");
            push_decimal(&mut t, pid as u64);
            push_str(&mut t, ")");
            string_from_chars(&t)
        },
        None => String::from_str("stopped"),
    };
    let storage = if vm.config.supports_snapshots {
        String::from_str("snapshots: qcow2")
    } else {
        String::from_str("snapshots: unavailable")
    };
    (run, storage)
}

} // verus!

verus! {

/// The title of the snapshot dialog: the number of loaded snapshots when the
/// selected VM's disk supports them.
pub open spec fn snapshots_title(app: App) -> Seq<char> {
    let supports = match app.selected_vm {
        Some(vm) => vm.config.supports_snapshots,
        None => false,
    };
    if supports {
        " Snapshots ("@ + decimal(app.snapshot_count as nat) + ") "@
    } else {
        " Snapshots (not supported) "@
    }
}

/// Title of the snapshot management dialog.
pub fn snapshots_dialog_title(app: &App) -> (r: String)
    ensures
        r@ == snapshots_title(*app),
{
    let supports = match &app.selected_vm {
        Some(vm) => vm.config.supports_snapshots,
        None => false,
    };
    if supports {
        let mut t: Vec<char> = Vec::new();
        push_str(&mut t, " Snapshots (");
        push_decimal(&mut t, app.snapshot_count as u64);
        push_str(&mut t, ") ");
        string_from_chars(&t)
    } else {
        String::from_str(" Snapshots (not supported) ")
    }
}

/// The display backend that the selected VM's launch script uses, or `gtk`.
pub open spec fn current_display(app: App) -> Seq<char> {
    match app.selected_vm {
        Some(vm) => display_from_script(vm.config.raw_script@),
        None => "gtk"@,
    }
}

/// The display backend that the selected VM uses (`gtk` without a VM); the
/// display dialog marks it.
pub fn current_display_of(app: &App) -> (r: String)
    ensures
        r@ == current_display(*app),
{
    match &app.selected_vm {
        Some(vm) => extract_display_from_script(vm.config.raw_script.as_str()),
        None => String::from_str("gtk"),
    }
}

/// The title of the workspace: the selected VM's name, or `Unknown`.
pub open spec fn manage_title(app: App) -> Seq<char> {
    " "@ + (match app.selected_vm {
        Some(vm) => vm.display_name@,
        None => "Unknown"@,
    }) + " — Manage "@
}

/// Title of the management workspace.
pub fn manage_title_of(app: &App) -> (r: String)
    ensures
        r@ == manage_title(*app),
{
    let mut t = chars_of(" ");
    match &app.selected_vm {
        Some(vm) => push_chars(&mut t, &chars_of(vm.display_name.as_str())),
        None => push_str(&mut t, "Unknown"),
    }
    push_str(&mut t, " — Manage ");
    string_from_chars(&t)
}

/// The selection as the workspace draws it: the selected category and row,
/// each moved back into range (an empty row list keeps row 0).
pub open spec fn shown_selection(app: App) -> Option<(int, int)> {
    match app.selected_vm {
        Some(vm) => {
            let c = if app.management_category < 6 { app.management_category as int } else { 6 };
            let n = category_actions(all_categories()[c], app.config).len();
            let last = if n > 0 { n - 1 } else { 0 };
            let d = if app.management_detail < last { app.management_detail as int } else { last };
            Some((c, d))
        },
        None => None,
    }
}

/// Clamp the selection into the categories and rows that exist, for drawing.
pub fn shown_selection_of(app: &App) -> (r: Option<(usize, usize)>)
    ensures
        match r {
            Some((c, d)) => shown_selection(*app) == Some((c as int, d as int)),
            None => shown_selection(*app) is None,
        },
{
    match &app.selected_vm {
        Some(vm) => {
            let cats = categories_for(vm, &app.config);
            let last_cat = cats.len() - 1;
            let c = if app.management_category < last_cat { app.management_category } else { last_cat };
            let details = detail_items_for(cats[c], vm, &app.config, app);
            let last = details.len().saturating_sub(1);
            let d = if app.management_detail < last { app.management_detail } else { last };
            Some((c, d))
        },
        None => None,
    }
}

} // verus!

verus! {

/// Destructive actions are only offered under Run (stopping) and Advanced
/// (reset and delete).
pub proof fn law_destructive_actions_placement(c: ManageCategory, config: Config, i: int)
    requires
        0 <= i < category_actions(c, config).len(),
        danger(category_actions(c, config)[i]),
    ensures
        c is Run || c is Advanced,
        c is Run ==> category_actions(c, config)[i] is StopVm,
{
}

} // verus!

verus! {

/// How the status header names the VM's network.
pub open spec fn network_status(network: Option<NetworkConfig>) -> Seq<char> {
    "net: "@ + (match network {
        Some(n) => backend_description(n.backend),
        None => "none"@,
    })
}

/// The network part of the management status header.
pub fn network_status_text(network: &Option<NetworkConfig>) -> (r: String)
    ensures
        r@ == network_status(*network),
{
    let mut t = chars_of("net: ");
    match network {
        Some(n) => match &n.backend {
            NetworkBackend::User => push_str(&mut t, "user/SLIRP (NAT)"),
            NetworkBackend::Passt => push_str(&mut t, "passt"),
            NetworkBackend::Bridge(name) => {
                push_str(&mut t, "bridge: ");
                push_chars(&mut t, &chars_of(name.as_str()));
            },
            NetworkBackend::NoBackend => push_str(&mut t, "none"),
        },
        None => push_str(&mut t, "none"),
    }
    string_from_chars(&t)
}

/// The two lines of an action row: the name with its value after a dot, and
/// the indented description.
pub open spec fn detail_row(item: DetailItem) -> (Seq<char>, Seq<char>) {
    (
        "  "@ + item.name@ + (match item.value {
            Some(v) => "  ·  "@ + v@,
            None => Seq::empty(),
        }),
        "    "@ + item.description@,
    )
}

/// The text of an action row in the right pane.
pub fn detail_row_text(item: &DetailItem) -> (r: (String, String))
    ensures
        (r.0@, r.1@) == detail_row(*item),
{
    let mut first = chars_of("  ");
    push_str(&mut first, item.name);
    match &item.value {
        Some(v) => {
            push_str(&mut first, "  ·  ");
            push_chars(&mut first, &chars_of(v.as_str()));
        },
        None => {},
    }
    let mut second = chars_of("    ");
    push_str(&mut second, item.description);
    proof {
        if item.value is None {
            assert(first@ =~= "  "@ + item.name@ + Seq::<char>::empty());
        }
    }
    (string_from_chars(&first), string_from_chars(&second))
}

/// The two lines of the `index`-th (from zero) entry of a numbered dialog
/// list: `[n] name`, marked ` *` when current, and the indented description.
pub open spec fn numbered_row(index: nat, name: Seq<char>, description: Seq<char>, current: bool) -> (Seq<char>, Seq<char>) {
    (
        "["@ + decimal(index + 1) + "] "@ + name + (if current { " *"@ } else { Seq::empty() }),
        "    "@ + description,
    )
}

/// The text of an entry of a numbered dialog list (boot and display options).
pub fn numbered_row_text(index: usize, name: &str, description: &str, current: bool) -> (r: (String, String))
    requires
        index < u64::MAX,
    ensures
        (r.0@, r.1@) == numbered_row(index as nat, name@, description@, current),
{
    let mut first = chars_of("[");
    push_decimal(&mut first, index as u64 + 1);
    push_str(&mut first, "] ");
    push_str(&mut first, name);
    if current {
        push_str(&mut first, " *");
    } else {
        assert(first@ =~= first@ + Seq::<char>::empty());
    }
    let mut second = chars_of("    ");
    push_str(&mut second, description);
    (string_from_chars(&first), string_from_chars(&second))
}

/// The rows of the display dialog: each detected backend numbered, with its
/// description, the one in use (`current`) marked.
pub fn display_option_rows(detected: &[String], current: &str) -> (r: Vec<(String, String)>)
    requires
        detected.len() < u64::MAX,
    ensures
        r.len() == detected.len(),
        forall|i: int|
            0 <= i < r.len() ==> ((#[trigger] r@[i]).0@, r@[i].1@) == numbered_row(
                i as nat,
                detected@[i]@,
                display_description(detected@[i]@),
                detected@[i]@ == current@,
            ),
{
    let options = get_display_options(detected);
    let cur = chars_of(current);
    let mut rows: Vec<(String, String)> = Vec::new();
    let mut i: usize = 0;
    while i < options.len()
        invariant
            i <= options.len() == detected.len() < u64::MAX,
            cur@ == current@,
            rows.len() == i,
            forall|j: int|
                0 <= j < options.len() ==> (#[trigger] options@[j]).0@ == detected@[j]@
                    && options@[j].1@ == display_description(detected@[j]@),
            forall|j: int|
                0 <= j < i ==> ((#[trigger] rows@[j]).0@, rows@[j].1@) == numbered_row(
                    j as nat,
                    detected@[j]@,
                    display_description(detected@[j]@),
                    detected@[j]@ == current@,
                ),
        decreases options.len() - i,
    {
        let is_current = chars_eq(&chars_of(options[i].0.as_str()), &cur);
        let row = numbered_row_text(i, options[i].0.as_str(), options[i].1.as_str(), is_current);
        rows.push(row);
        i = i + 1;
    }
    rows
}

/// No VM is listed as running twice: the running list is a map from VM id
/// to process.
pub open spec fn distinct_running_ids(running: Seq<RunningVm>) -> bool {
    forall|i: int, j: int|
        0 <= i < running.len() && 0 <= j < running.len() && i != j ==> running[i].id@
            != running[j].id@
}

/// The ids of the running VMs.
pub open spec fn running_ids(running: Seq<RunningVm>) -> Seq<Seq<char>> {
    running.map_values(|v: RunningVm| v.id@)
}

/// With distinct ids the running list behaves as a map: a VM has a process
/// exactly when it is listed, and then it is the listed one.
pub proof fn law_running_vms_as_map(running: Seq<RunningVm>, id: Seq<char>)
    requires
        distinct_running_ids(running),
    ensures
        (pid_of(running, id) is Some) <==> (exists|i: int| 0 <= i < running.len() && #[trigger] running[i].id@ == id),
        forall|i: int| 0 <= i < running.len() && #[trigger] running[i].id@ == id ==> pid_of(running, id) == Some(running[i].pid),
    decreases running.len(),
{
    if running.len() > 0 {
        let rest = running.drop_first();
        assert(distinct_running_ids(rest)) by {
            assert forall|i: int, j: int|
                0 <= i < rest.len() && 0 <= j < rest.len() && i != j implies rest[i].id@ != rest[j].id@ by {
                assert(rest[i] == running[i + 1] && rest[j] == running[j + 1]);
            }
        }
        law_running_vms_as_map(rest, id);
        if running[0].id@ != id {
            assert forall|i: int| 0 <= i < running.len() && #[trigger] running[i].id@ == id implies pid_of(running, id) == Some(running[i].pid) by {
                assert(rest[i - 1] == running[i]);
            }
            if exists|i: int| 0 <= i < running.len() && #[trigger] running[i].id@ == id {
                let i = choose|i: int| 0 <= i < running.len() && #[trigger] running[i].id@ == id;
                assert(rest[i - 1].id@ == id);
            }
            if pid_of(rest, id) is Some {
                let k = choose|k: int| 0 <= k < rest.len() && #[trigger] rest[k].id@ == id;
                assert(running[k + 1].id@ == id);
            }
        } else {
            assert(running[0].id@ == id);
        }
    }
}

/// With distinct ids, the length of the running list is the number of
/// running VMs.
pub proof fn law_running_count(running: Seq<RunningVm>)
    requires
        distinct_running_ids(running),
    ensures
        running_ids(running).to_set().len() == running.len(),
{
    let ids = running_ids(running);
    assert(ids.no_duplicates()) by {
        assert forall|i: int, j: int| 0 <= i < ids.len() && 0 <= j < ids.len() && i != j implies ids[i] != ids[j] by {
            assert(ids[i] == running[i].id@ && ids[j] == running[j].id@);
        }
    }
    ids.unique_seq_to_set();
}

} // verus!

verus! {

/// The boot modes offered for a VM, with their descriptions, in order.
pub open spec fn boot_options() -> Seq<(Seq<char>, Seq<char>)> {
    seq![
        ("Normal boot"@, "Start the VM normally"@),
        ("Install mode"@, "Boot from installation media"@),
        ("Boot with custom ISO"@, "Select an ISO file to boot"@),
        ("Boot with recovery DMG"@, "Select a DMG file as recovery image"@),
        ("Boot with floppy image"@, "Select a floppy image (.img, .ima) to boot"@),
    ]
}

/// The rows of the boot options dialog: each boot mode numbered, none marked.
pub fn boot_option_rows() -> (r: Vec<(String, String)>)
    ensures
        r.len() == boot_options().len(),
        forall|i: int|
            0 <= i < r.len() ==> ((#[trigger] r@[i]).0@, r@[i].1@) == numbered_row(
                i as nat,
                boot_options()[i].0,
                boot_options()[i].1,
                false,
            ),
{
    let mut rows: Vec<(String, String)> = Vec::new();
    rows.push(numbered_row_text(0, "Normal boot", "Start the VM normally", false));
    rows.push(numbered_row_text(1, "Install mode", "Boot from installation media", false));
    rows.push(numbered_row_text(2, "Boot with custom ISO", "Select an ISO file to boot", false));
    rows.push(
        numbered_row_text(3, "Boot with recovery DMG", "Select a DMG file as recovery image", false),
    );
    rows.push(
        numbered_row_text(
            4,
            "Boot with floppy image",
            "Select a floppy image (.img, .ima) to boot",
            false,
        ),
    );
    rows
}

/// The two lines of a snapshot entry: its name, and its date and size.
pub open spec fn snapshot_row(name: Seq<char>, date: Seq<char>, size: Seq<char>) -> (Seq<char>, Seq<char>) {
    ("  "@ + name, "    "@ + date + " - "@ + size)
}

/// The text of a snapshot entry in the snapshot dialog.
pub fn snapshot_row_text(name: &str, date: &str, size: &str) -> (r: (String, String))
    ensures
        (r.0@, r.1@) == snapshot_row(name@, date@, size@),
{
    let mut first = chars_of("  ");
    push_str(&mut first, name);
    let mut second = chars_of("    ");
    push_str(&mut second, date);
    push_str(&mut second, " - ");
    push_str(&mut second, size);
    (string_from_chars(&first), string_from_chars(&second))
}

} // verus!

verus! {

/// The Network Settings value: adapter model, backend, and — exactly when
/// there are port forwards — their number followed by `fwd`.
pub proof fn law_network_value_shows_forwards(vm: DiscoveredVm, app: App, n: NetworkConfig)
    requires
        vm.config.network == Some(n),
    ensures
        ({
            let label = match n.backend {
                NetworkBackend::User => "user/SLIRP"@,
                NetworkBackend::Passt => "passt"@,
                NetworkBackend::Bridge(_) => "bridge"@,
                NetworkBackend::NoBackend => "none"@,
            };
            let base = n.model@ + " · "@ + label;
            action_value(MenuAction::NetworkSettings, vm, app) == Some(
                if n.port_forward_count >= 1 {
                    base + " · "@ + decimal(n.port_forward_count as nat) + " fwd"@
                } else {
                    base
                },
            )
        }),
{
}

/// A VM without a network shows `— · none`.
pub proof fn law_network_value_without_network(vm: DiscoveredVm, app: App)
    requires
        vm.config.network is None,
    ensures
        action_value(MenuAction::NetworkSettings, vm, app) == Some("—"@ + " · "@ + "none"@),
{
}

proof fn lemma_labels_differ()
    ensures
        "CPU Model: "@ != "Path: "@,
        "CPU Model: "@ != "Emulator: "@,
        "CPU Model: "@ != "Architecture: "@,
        "CPU Model: "@ != "Memory: "@,
        "CPU Model: "@ != "CPU Cores: "@,
        "CPU Model: "@ != "Machine: "@,
        "CPU Model: "@ != "VGA: "@,
        "CPU Model: "@ != "Network: "@,
        "CPU Model: "@ != "Display: "@,
        "CPU Model: "@ != "Features: "@,
        "CPU Model: "@ != ""@,
        "Machine: "@ != "Path: "@,
        "Machine: "@ != "Emulator: "@,
        "Machine: "@ != "Architecture: "@,
        "Machine: "@ != "Memory: "@,
        "Machine: "@ != "CPU Cores: "@,
        "Machine: "@ != "VGA: "@,
        "Machine: "@ != "Network: "@,
        "Machine: "@ != "Display: "@,
        "Machine: "@ != "Features: "@,
        "Machine: "@ != ""@,
{
    reveal_strlit("CPU Model: ");
    reveal_strlit("Machine: ");
    reveal_strlit("Path: ");
    reveal_strlit("Emulator: ");
    reveal_strlit("Architecture: ");
    reveal_strlit("Memory: ");
    reveal_strlit("CPU Cores: ");
    reveal_strlit("VGA: ");
    reveal_strlit("Network: ");
    reveal_strlit("Display: ");
    reveal_strlit("Features: ");
    reveal_strlit("");
    assert("CPU Model: "@[4] != "CPU Cores: "@[4]);
    assert("Machine: "@.len() != "Memory: "@.len());
    assert("Machine: "@[0] != "Network: "@[0]);
    assert("Machine: "@[0] != "Display: "@[0]);
    assert("CPU Model: "@.len() != ""@.len());
    assert("Machine: "@.len() != ""@.len());
}

/// The summary shows the machine type exactly when the configuration sets
/// one, and the CPU model exactly when it sets one.
pub proof fn law_overview_shows_machine_and_cpu_model(vm: DiscoveredVm)
    ensures
        (exists|i: int|
            0 <= i < overview_summary(vm).len() && (#[trigger] overview_summary(vm)[i]).0
                == "Machine: "@) <==> vm.config.machine is Some,
        vm.config.machine matches Some(m) ==> exists|i: int|
            0 <= i < overview_summary(vm).len() && #[trigger] overview_summary(vm)[i] == field(
                "Machine: "@,
                m@,
            ),
        (exists|i: int|
            0 <= i < overview_summary(vm).len() && (#[trigger] overview_summary(vm)[i]).0
                == "CPU Model: "@) <==> vm.config.cpu_model is Some,
        vm.config.cpu_model matches Some(m) ==> exists|i: int|
            0 <= i < overview_summary(vm).len() && #[trigger] overview_summary(vm)[i] == field(
                "CPU Model: "@,
                m@,
            ),
{
    lemma_labels_differ();
    let c = vm.config;
    let s = overview_summary(vm);
    let f = overview_fields(vm);
    let rest = overview_features(c) + overview_disks(c) + overview_notes(vm.notes);
    assert(s =~= f + rest);
    let cpu_n: int = if c.cpu_model is Some { 1 } else { 0 };
    let mach_n: int = if c.machine is Some { 1 } else { 0 };
    let net_n: int = if c.network is Some { 1 } else { 0 };
    assert(f.len() == 7 + cpu_n + mach_n + net_n);
    assert forall|i: int| 0 <= i < f.len() implies ((#[trigger] f[i]).0 == "CPU Model: "@ ==> (c.cpu_model is Some && i == 5)) by {
        if i >= 5 && i < 5 + cpu_n {
        } else {
            assert(f[i].0 != "CPU Model: "@);
        }
    }
    assert forall|i: int| 0 <= i < f.len() implies ((#[trigger] f[i]).0 == "Machine: "@ ==> (c.machine is Some && i == 5 + cpu_n)) by {
        if i >= 5 + cpu_n && i < 5 + cpu_n + mach_n {
        } else {
            assert(f[i].0 != "Machine: "@);
        }
    }
    let fe = overview_features(c);
    let di = overview_disks(c);
    let no = overview_notes(vm.notes);
    assert forall|i: int| 0 <= i < fe.len() implies (#[trigger] fe[i]).0 == "Features: "@ by {}
    assert forall|i: int| 0 <= i < di.len() implies (#[trigger] di[i]).0 == ""@ by {
        if i >= 2 {
            assert(di[i] == c.disks@.map_values(|d: DiskSummary| plain(disk_text(d)))[i - 2]);
        }
    }
    assert forall|i: int| 0 <= i < no.len() implies (#[trigger] no[i]).0 == ""@ by {
        match vm.notes {
            Some(n) => {
                if trim_seq(n@).len() > 0 {
                    let ls = lines_of(n@);
                    let shown = if ls.len() > 6 { ls.take(6) } else { ls };
                    if i >= 2 {
                        assert(no[i] == shown.map_values(|l: Seq<char>| plain("  "@ + l))[i - 2]);
                    }
                }
            },
            None => {},
        }
    }
    assert forall|i: int| 0 <= i < rest.len() implies (#[trigger] rest[i]).0 != "Machine: "@ && rest[i].0 != "CPU Model: "@ by {
        if i < fe.len() {
            assert(rest[i] == fe[i]);
        } else if i < fe.len() + di.len() {
            assert(rest[i] == di[i - fe.len()]);
        } else {
            assert(rest[i] == no[i - fe.len() - di.len()]);
        }
    }
    if c.cpu_model is Some {
        assert(s[5] == f[5]);
    }
    if c.machine is Some {
        assert(s[5 + cpu_n] == f[5 + cpu_n]);
    }
    assert forall|i: int| 0 <= i < s.len() implies ((#[trigger] s[i]).0 == "Machine: "@ ==> c.machine is Some) && (s[i].0 == "CPU Model: "@ ==> c.cpu_model is Some) by {
        if i < f.len() {
            assert(s[i] == f[i]);
        } else {
            assert(s[i] == rest[i - f.len()]);
        }
    }
}

} // verus!
