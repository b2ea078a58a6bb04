//! QEMU host capabilities: which emulators and helpers are present, what the
//! host's bridges are and which of them QEMU may use.
//!
//! The probes themselves (running programs, looking at files) happen outside
//! this crate; the functions here take what the probes returned and decide.

use vstd::prelude::*;
use vstd::string::*;
use crate::text::{
    chars_eq, chars_of, clone_strings, contains_chars, contains_seq, has_prefix, leading_word,
    leading_word_chars, lemma_scan_until_range, lines_of, scan_until, split_lines,
    starts_with_seq, string_from_chars, sub_chars, trim_chars, trim_seq,
};

verus! {

/// The prefix of libvirt's private bridges.
pub open spec fn libvirt_prefix() -> Seq<char> {
    "virbr"@
}

/// The prefix of container and custom bridges.
pub open spec fn custom_prefix() -> Seq<char> {
    "br-"@
}

/// The usage class of a bridge, judged by its name.
pub open spec fn bridge_class(name: Seq<char>) -> Seq<char> {
    if starts_with_seq(name, libvirt_prefix()) {
        "private/libvirt bridge"@
    } else if starts_with_seq(name, custom_prefix()) {
        "container/custom bridge"@
    } else {
        "host/LAN bridge"@
    }
}

/// A bridge suits isolated lab use when it is one of libvirt's private bridges.
pub open spec fn lab_friendly(name: Seq<char>) -> bool {
    starts_with_seq(name, libvirt_prefix())
}

/// The lab-friendly bridges of `bridges`, in their order.
pub open spec fn lab_friendly_seq(bridges: Seq<Seq<char>>) -> Seq<Seq<char>>
    decreases bridges.len(),
{
    if bridges.len() == 0 {
        Seq::empty()
    } else {
        let rest = lab_friendly_seq(bridges.drop_last());
        if lab_friendly(bridges.last()) {
            rest.push(bridges.last())
        } else {
            rest
        }
    }
}

/// Classify a bridge by likely usage so the UI can present safer guidance.
pub fn classify_bridge(name: &str) -> (r: &'static str)
    ensures
        r@ == bridge_class(name@),
{
    let n = chars_of(name);
    if has_prefix(&n, &chars_of("virbr")) {
        "private/libvirt bridge"
    } else if has_prefix(&n, &chars_of("br-")) {
        "container/custom bridge"
    } else {
        "host/LAN bridge"
    }
}

/// Whether a bridge is a good default candidate for isolated lab use.
pub fn is_lab_friendly_bridge(name: &str) -> (r: bool)
    ensures
        r == lab_friendly(name@),
{
    has_prefix(&chars_of(name), &chars_of("virbr"))
}

/// Filter allowed bridges to those that are most likely private/internal lab bridges.
pub fn lab_friendly_bridges(bridges: &[String]) -> (r: Vec<String>)
    ensures
        r.deep_view() == lab_friendly_seq(bridges.deep_view()),
{
    let mut r: Vec<String> = Vec::new();
    let mut i: usize = 0;
    while i < bridges.len()
        invariant
            i <= bridges.len(),
            r.deep_view() == lab_friendly_seq(bridges.deep_view().take(i as int)),
        decreases bridges.len() - i,
    {
        let ghost before = bridges.deep_view().take(i as int);
        assert(bridges.deep_view().take(i + 1).drop_last() =~= before);
        if is_lab_friendly_bridge(bridges[i].as_str()) {
            let ghost old_r = r.deep_view();
            r.push(bridges[i].clone());
            assert(r.deep_view() =~= old_r.push(bridges.deep_view()[i as int]));
        }
        i = i + 1;
    }
    assert(bridges.deep_view().take(i as int) =~= bridges.deep_view());
    r
}

/// The names that `flags` marks, in their order (a missing flag counts as unmarked).
pub open spec fn flagged(names: Seq<Seq<char>>, flags: Seq<bool>) -> Seq<Seq<char>>
    decreases names.len(),
{
    if names.len() == 0 {
        Seq::empty()
    } else {
        let rest = flagged(names.drop_last(), flags);
        let i = names.len() - 1;
        if i < flags.len() && flags[i] {
            rest.push(names.last())
        } else {
            rest
        }
    }
}

/// The emulator binaries that are looked for, in order.
pub open spec fn emulator_names() -> Seq<Seq<char>> {
    seq![
        "qemu-system-x86_64"@,
        "qemu-system-i386"@,
        "qemu-system-ppc"@,
        "qemu-system-m68k"@,
        "qemu-system-arm"@,
        "qemu-system-aarch64"@,
    ]
}

/// The places where `qemu-bridge-helper` is looked for, in order.
pub open spec fn bridge_helper_paths() -> Seq<Seq<char>> {
    seq![
        "/usr/lib/qemu/qemu-bridge-helper"@,
        "/usr/libexec/qemu-bridge-helper"@,
        "/usr/libexec/qemu/qemu-bridge-helper"@,
    ]
}

/// The emulator binaries to look for on the host, in the order they are listed.
pub fn emulator_candidates() -> (r: Vec<String>)
    ensures
        r.deep_view() == emulator_names(),
{
    let r = vec![
        String::from_str("qemu-system-x86_64"),
        String::from_str("qemu-system-i386"),
        String::from_str("qemu-system-ppc"),
        String::from_str("qemu-system-m68k"),
        String::from_str("qemu-system-arm"),
        String::from_str("qemu-system-aarch64"),
    ];
    assert(r.deep_view() =~= emulator_names());
    r
}

/// The paths at which `qemu-bridge-helper` may be installed, in search order.
pub fn bridge_helper_candidates() -> (r: Vec<String>)
    ensures
        r.deep_view() == bridge_helper_paths(),
{
    let r = vec![
        String::from_str("/usr/lib/qemu/qemu-bridge-helper"),
        String::from_str("/usr/libexec/qemu-bridge-helper"),
        String::from_str("/usr/libexec/qemu/qemu-bridge-helper"),
    ];
    assert(r.deep_view() =~= bridge_helper_paths());
    r
}

/// The names of `names` whose flag is set, in order.
fn select_flagged(names: &Vec<String>, flags: &[bool]) -> (r: Vec<String>)
    ensures
        r.deep_view() == flagged(names.deep_view(), flags@),
{
    let mut r: Vec<String> = Vec::new();
    let mut i: usize = 0;
    while i < names.len()
        invariant
            i <= names.len(),
            r.deep_view() == flagged(names.deep_view().take(i as int), flags@),
        decreases names.len() - i,
    {
        assert(names.deep_view().take(i + 1).drop_last() =~= names.deep_view().take(i as int));
        if i < flags.len() && flags[i] {
            let ghost old_r = r.deep_view();
            r.push(names[i].clone());
            assert(r.deep_view() =~= old_r.push(names.deep_view()[i as int]));
        }
        i = i + 1;
    }
    assert(names.deep_view().take(i as int) =~= names.deep_view());
    r
}

/// List the QEMU emulators available on the system.
///
/// `available[i]` tells whether the `i`-th of `emulator_candidates()` was
/// found on the host; a missing entry counts as not found.
pub fn list_available_emulators(available: &[bool]) -> (r: Vec<String>)
    ensures
        r.deep_view() == flagged(emulator_names(), available@),
{
    let names = emulator_candidates();
    select_flagged(&names, available)
}

/// Find the `qemu-bridge-helper` binary: the first of
/// `bridge_helper_candidates()` that `exists` marks as present.
pub fn find_bridge_helper(exists: &[bool]) -> (r: Option<String>)
    ensures
        match r {
            Some(p) => exists|i: int|
                0 <= i < bridge_helper_paths().len() && i < exists@.len() && exists@[i] && p@
                    == bridge_helper_paths()[i] && forall|j: int|
                    0 <= j < i ==> !(j < exists@.len() && #[trigger] exists@[j]),
            None => forall|i: int|
                0 <= i < bridge_helper_paths().len() ==> !(i < exists@.len() && #[trigger] exists@[i]),
        },
{
    let paths = bridge_helper_candidates();
    let mut i: usize = 0;
    while i < paths.len()
        invariant
            i <= paths.len(),
            paths.deep_view() == bridge_helper_paths(),
            forall|j: int| 0 <= j < i ==> !(j < exists@.len() && #[trigger] exists@[j]),
        decreases paths.len() - i,
    {
        if i < exists.len() && exists[i] {
            let p = paths[i].clone();
            assert(p@ == paths.deep_view()[i as int]);
            return Some(p);
        }
        i = i + 1;
    }
    None
}

} // verus!

verus! {

/// The directive that admits a bridge in `bridge.conf`.
pub open spec fn allow_directive() -> Seq<char> {
    "allow "@
}

/// The bridge name that admits every bridge.
pub open spec fn allow_all() -> Seq<char> {
    "all"@
}

/// The bridges that the remaining `lines` of `bridge.conf` admit, given those
/// admitted so far (`acc`): each `allow NAME` line admits `NAME` once if the
/// host has it, and `allow all` admits every host bridge.
pub open spec fn allowed_from_lines(
    lines: Seq<Seq<char>>,
    system: Seq<Seq<char>>,
    acc: Seq<Seq<char>>,
) -> Seq<Seq<char>>
    decreases lines.len(),
{
    if lines.len() == 0 {
        acc
    } else {
        let t = trim_seq(lines[0]);
        if starts_with_seq(t, allow_directive()) {
            let b = trim_seq(t.skip(allow_directive().len() as int));
            if b == allow_all() {
                system
            } else if system.contains(b) && !acc.contains(b) {
                allowed_from_lines(lines.drop_first(), system, acc.push(b))
            } else {
                allowed_from_lines(lines.drop_first(), system, acc)
            }
        } else {
            allowed_from_lines(lines.drop_first(), system, acc)
        }
    }
}

/// The bridges that a `bridge.conf` text admits among the host's bridges.
pub open spec fn allowed_bridges(conf: Seq<char>, system: Seq<Seq<char>>) -> Seq<Seq<char>> {
    allowed_from_lines(lines_of(conf), system, Seq::empty())
}

/// No element occurs twice.
pub open spec fn no_duplicates(s: Seq<Seq<char>>) -> bool {
    forall|i: int, j: int| 0 <= i < j < s.len() ==> s[i] != s[j]
}

/// Every element of `a` is an element of `b`.
pub open spec fn all_within(a: Seq<Seq<char>>, b: Seq<Seq<char>>) -> bool {
    forall|i: int| 0 <= i < a.len() ==> b.contains(#[trigger] a[i])
}

fn contains_string(v: &Vec<String>, s: &String) -> (r: bool)
    ensures
        r == v.deep_view().contains(s@),
{
    let mut i: usize = 0;
    while i < v.len()
        invariant
            i <= v.len(),
            forall|j: int| 0 <= j < i ==> v.deep_view()[j] != s@,
        decreases v.len() - i,
    {
        if v[i] == *s {
            assert(v.deep_view()[i as int] == s@);
            return true;
        }
        i = i + 1;
    }
    false
}

fn slice_contains_string(v: &[String], s: &String) -> (r: bool)
    ensures
        r == v.deep_view().contains(s@),
{
    let mut i: usize = 0;
    while i < v.len()
        invariant
            i <= v.len(),
            forall|j: int| 0 <= j < i ==> v.deep_view()[j] != s@,
        decreases v.len() - i,
    {
        if v[i] == *s {
            assert(v.deep_view()[i as int] == s@);
            return true;
        }
        i = i + 1;
    }
    false
}

/// The bridges that `bridge.conf` allows QEMU to use, among `system_bridges`,
/// in the order of their `allow` lines.
pub fn parse_allowed_bridges(bridge_conf: &str, system_bridges: &[String]) -> (r: Vec<String>)
    ensures
        r.deep_view() == allowed_bridges(bridge_conf@, system_bridges.deep_view()),
{
    let text = chars_of(bridge_conf);
    let lines = split_lines(&text);
    let directive = chars_of("allow ");
    let all = chars_of("all");
    let ghost system = system_bridges.deep_view();
    let mut allowed: Vec<String> = Vec::new();
    let mut i: usize = 0;
    proof {
        assert(lines.deep_view().skip(0) =~= lines.deep_view());
        assert(allowed.deep_view() =~= Seq::<Seq<char>>::empty());
    }
    while i < lines.len()
        invariant
            i <= lines.len(),
            directive@ == allow_directive(),
            all@ == allow_all(),
            system == system_bridges.deep_view(),
            allowed_bridges(bridge_conf@, system) == allowed_from_lines(
                lines.deep_view().skip(i as int),
                system,
                allowed.deep_view(),
            ),
        decreases lines.len() - i,
    {
        let ghost rest = lines.deep_view().skip(i as int);
        assert(rest[0] == lines[i as int]@);
        assert(rest.drop_first() =~= lines.deep_view().skip(i + 1));
        let t = trim_chars(&lines[i]);
        if has_prefix(&t, &directive) {
            let tail = sub_chars(&t, directive.len(), t.len());
            assert(tail@ =~= t@.skip(allow_directive().len() as int));
            let b = trim_chars(&tail);
            if chars_eq(&b, &all) {
                return clone_strings(system_bridges);
            }
            let name = string_from_chars(&b);
            if slice_contains_string(system_bridges, &name) && !contains_string(&allowed, &name) {
                let ghost old_allowed = allowed.deep_view();
                allowed.push(name);
                assert(allowed.deep_view() =~= old_allowed.push(b@));
            }
        }
        i = i + 1;
    }
    proof {
        assert(lines.deep_view().skip(i as int) =~= Seq::<Seq<char>>::empty());
    }
    allowed
}

proof fn lemma_allowed_from_lines_within(
    lines: Seq<Seq<char>>,
    system: Seq<Seq<char>>,
    acc: Seq<Seq<char>>,
)
    requires
        all_within(acc, system),
        no_duplicates(system) ==> no_duplicates(acc),
    ensures
        all_within(allowed_from_lines(lines, system, acc), system),
        no_duplicates(system) ==> no_duplicates(allowed_from_lines(lines, system, acc)),
    decreases lines.len(),
{
    if lines.len() > 0 {
        let t = trim_seq(lines[0]);
        if starts_with_seq(t, allow_directive()) {
            let b = trim_seq(t.skip(allow_directive().len() as int));
            if b == allow_all() {
                assert(all_within(system, system)) by {
                    assert forall|i: int| 0 <= i < system.len() implies system.contains(
                        #[trigger] system[i],
                    ) by {}
                }
            } else if system.contains(b) && !acc.contains(b) {
                let acc2 = acc.push(b);
                assert(all_within(acc2, system)) by {
                    assert forall|i: int| 0 <= i < acc2.len() implies system.contains(
                        #[trigger] acc2[i],
                    ) by {
                        if i < acc.len() {
                            assert(acc2[i] == acc[i]);
                        }
                    }
                }
                assert(no_duplicates(acc) ==> no_duplicates(acc2)) by {
                    if no_duplicates(acc) {
                        assert forall|i: int, j: int| 0 <= i < j < acc2.len() implies acc2[i]
                            != acc2[j] by {
                            if j == acc.len() {
                                assert(acc2[i] == acc[i]);
                            }
                        }
                    }
                }
                lemma_allowed_from_lines_within(lines.drop_first(), system, acc2);
            } else {
                lemma_allowed_from_lines_within(lines.drop_first(), system, acc);
            }
        } else {
            lemma_allowed_from_lines_within(lines.drop_first(), system, acc);
        }
    }
}

/// Every bridge that `bridge.conf` admits is one of the host's bridges, and
/// none is admitted twice unless the host lists it twice.
pub proof fn law_allowed_bridges_are_system_bridges(conf: Seq<char>, system: Seq<Seq<char>>)
    ensures
        all_within(allowed_bridges(conf, system), system),
        no_duplicates(system) ==> no_duplicates(allowed_bridges(conf, system)),
{
    lemma_allowed_from_lines_within(lines_of(conf), system, Seq::empty());
}

} // verus!

verus! {

/// Stops at a colon.
pub open spec fn colon_stop() -> spec_fn(char) -> bool {
    |c: char| c == ':'
}

/// What `line.split(':').nth(1)` gives: the text between the first and the
/// second colon (or the end), if the line has a colon.
pub open spec fn second_colon_field(line: Seq<char>) -> Option<Seq<char>> {
    let p = scan_until(line, 0, colon_stop());
    if p >= line.len() {
        None
    } else {
        let rest = line.skip(p + 1);
        Some(rest.take(scan_until(rest, 0, colon_stop())))
    }
}

/// The bridge names that `ip -o link show type bridge` lists, one per line
/// in the form `N: NAME: <FLAGS> ...`.
pub open spec fn system_bridges_from(lines: Seq<Seq<char>>) -> Seq<Seq<char>>
    decreases lines.len(),
{
    if lines.len() == 0 {
        Seq::empty()
    } else {
        let rest = system_bridges_from(lines.drop_last());
        match second_colon_field(lines.last()) {
            Some(f) => if trim_seq(f).len() > 0 {
                rest.push(trim_seq(f))
            } else {
                rest
            },
            None => rest,
        }
    }
}

fn scan_to_colon(v: &Vec<char>, k: usize) -> (r: usize)
    requires
        k <= v.len(),
    ensures
        r as int == scan_until(v@, k as int, colon_stop()),
{
    let mut i = k;
    while i < v.len() && v[i] != ':'
        invariant
            k <= i <= v.len(),
            scan_until(v@, k as int, colon_stop()) == scan_until(v@, i as int, colon_stop()),
        decreases v.len() - i,
    {
        i = i + 1;
    }
    i
}

fn second_colon_field_chars(line: &Vec<char>) -> (r: Option<Vec<char>>)
    ensures
        match r {
            Some(f) => second_colon_field(line@) == Some(f@),
            None => second_colon_field(line@) is None,
        },
{
    let p = scan_to_colon(line, 0);
    if p >= line.len() {
        return None;
    }
    let rest = sub_chars(line, p + 1, line.len());
    assert(rest@ =~= line@.skip(p + 1));
    let q = scan_to_colon(&rest, 0);
    proof {
        lemma_scan_until_range(rest@, 0, colon_stop());
    }
    let f = sub_chars(&rest, 0, q);
    assert(f@ =~= rest@.take(q as int));
    Some(f)
}

/// List the bridges present on the host, from the output of
/// `ip -o link show type bridge`.
pub fn list_system_bridges(ip_link_output: &str) -> (r: Vec<String>)
    ensures
        r.deep_view() == system_bridges_from(lines_of(ip_link_output@)),
{
    let text = chars_of(ip_link_output);
    let lines = split_lines(&text);
    let mut bridges: Vec<String> = Vec::new();
    let mut i: usize = 0;
    proof {
        assert(lines.deep_view().take(0) =~= Seq::<Seq<char>>::empty());
        assert(bridges.deep_view() =~= Seq::<Seq<char>>::empty());
    }
    while i < lines.len()
        invariant
            i <= lines.len(),
            bridges.deep_view() == system_bridges_from(lines.deep_view().take(i as int)),
        decreases lines.len() - i,
    {
        assert(lines.deep_view().take(i + 1).drop_last() =~= lines.deep_view().take(i as int));
        assert(lines.deep_view().take(i + 1).last() == lines[i as int]@);
        match second_colon_field_chars(&lines[i]) {
            Some(f) => {
                let name = trim_chars(&f);
                if name.len() > 0 {
                    let ghost old_b = bridges.deep_view();
                    bridges.push(string_from_chars(&name));
                    assert(bridges.deep_view() =~= old_b.push(name@));
                }
            },
            None => {},
        }
        i = i + 1;
    }
    assert(lines.deep_view().take(i as int) =~= lines.deep_view());
    bridges
}

/// The header word of QEMU's `-display help` listing.
pub open spec fn available_header() -> Seq<char> {
    "Available"@
}

/// The display backends that the remaining `lines` of `-display help` name:
/// the first word of every non-empty trimmed line that is neither a header
/// (`Available ...`) nor holds a colon.
pub open spec fn displays_from(lines: Seq<Seq<char>>) -> Seq<Seq<char>>
    decreases lines.len(),
{
    if lines.len() == 0 {
        Seq::empty()
    } else {
        let rest = displays_from(lines.drop_last());
        let t = trim_seq(lines.last());
        if t.len() == 0 || starts_with_seq(t, available_header()) || contains_seq(t, ":"@) {
            rest
        } else if leading_word(t).len() > 0 {
            rest.push(leading_word(t))
        } else {
            rest
        }
    }
}

/// QEMU prints its display backends to stdout, or sometimes to stderr.
pub open spec fn display_help_text(stdout: Seq<char>, stderr: Seq<char>) -> Seq<char> {
    if stdout.len() == 0 {
        stderr
    } else {
        stdout
    }
}

/// Get the supported display backends (e.g. gtk, sdl, spice-app, vnc) from
/// what `<emulator> -display help` printed on stdout and stderr.
pub fn get_supported_displays(stdout: &str, stderr: &str) -> (r: Vec<String>)
    ensures
        r.deep_view() == displays_from(lines_of(display_help_text(stdout@, stderr@))),
{
    let text = if stdout.is_empty() {
        chars_of(stderr)
    } else {
        chars_of(stdout)
    };
    let lines = split_lines(&text);
    let header = chars_of("Available");
    let colon = chars_of(":");
    let mut displays: Vec<String> = Vec::new();
    let mut i: usize = 0;
    proof {
        assert(lines.deep_view().take(0) =~= Seq::<Seq<char>>::empty());
        assert(displays.deep_view() =~= Seq::<Seq<char>>::empty());
    }
    while i < lines.len()
        invariant
            i <= lines.len(),
            header@ == available_header(),
            colon@ == ":"@,
            displays.deep_view() == displays_from(lines.deep_view().take(i as int)),
        decreases lines.len() - i,
    {
        assert(lines.deep_view().take(i + 1).drop_last() =~= lines.deep_view().take(i as int));
        assert(lines.deep_view().take(i + 1).last() == lines[i as int]@);
        let t = trim_chars(&lines[i]);
        if !(t.len() == 0 || has_prefix(&t, &header) || contains_chars(&t, &colon)) {
            let backend = leading_word_chars(&t);
            if backend.len() > 0 {
                let ghost old_d = displays.deep_view();
                displays.push(string_from_chars(&backend));
                assert(displays.deep_view() =~= old_d.push(backend@));
            }
        }
        i = i + 1;
    }
    assert(lines.deep_view().take(i as int) =~= lines.deep_view());
    displays
}

/// The KVM module that the remaining `lsmod` lines name: the first word of the
/// first line that starts with `kvm_intel` or `kvm_amd`, else `kvm`.
pub open spec fn kvm_module_from(lines: Seq<Seq<char>>) -> Seq<char>
    decreases lines.len(),
{
    if lines.len() == 0 {
        "kvm"@
    } else if starts_with_seq(lines[0], "kvm_intel"@) || starts_with_seq(lines[0], "kvm_amd"@) {
        leading_word(lines[0])
    } else {
        kvm_module_from(lines.drop_first())
    }
}

/// Get KVM module info: nothing when KVM is unavailable or `lsmod` could not
/// be run, else the vendor module that `lsmod` lists, or plain `kvm`.
pub fn get_kvm_info(kvm_available: bool, lsmod_output: Option<&str>) -> (r: Option<String>)
    ensures
        match r {
            Some(m) => kvm_available && lsmod_output is Some && m@ == kvm_module_from(
                lines_of(lsmod_output.unwrap()@),
            ),
            None => !kvm_available || lsmod_output is None,
        },
{
    if !kvm_available {
        return None;
    }
    let out = match lsmod_output {
        Some(o) => o,
        None => return None,
    };
    let lines = split_lines(&chars_of(out));
    let intel = chars_of("kvm_intel");
    let amd = chars_of("kvm_amd");
    let mut i: usize = 0;
    proof {
        assert(lines.deep_view().skip(0) =~= lines.deep_view());
    }
    while i < lines.len()
        invariant
            i <= lines.len(),
            intel@ == "kvm_intel"@,
            amd@ == "kvm_amd"@,
            kvm_available,
            lsmod_output == Some(out),
            kvm_module_from(lines_of(out@)) == kvm_module_from(lines.deep_view().skip(i as int)),
        decreases lines.len() - i,
    {
        let ghost rest = lines.deep_view().skip(i as int);
        assert(rest[0] == lines[i as int]@);
        assert(rest.drop_first() =~= lines.deep_view().skip(i + 1));
        if has_prefix(&lines[i], &intel) || has_prefix(&lines[i], &amd) {
            let w = leading_word_chars(&lines[i]);
            assert(starts_with_seq(rest[0], "kvm_intel"@) || starts_with_seq(rest[0], "kvm_amd"@));
            assert(kvm_module_from(rest) == leading_word(rest[0]));
            assert(w@ == kvm_module_from(lines_of(out@)));
            return Some(string_from_chars(&w));
        }
        i = i + 1;
    }
    assert(lines.deep_view().skip(i as int) =~= Seq::<Seq<char>>::empty());
    Some(String::from_str("kvm"))
}

/// The first line of `--version` output, or `Unknown` when there is none.
pub open spec fn version_line(output: Seq<char>) -> Seq<char> {
    if lines_of(output).len() > 0 {
        lines_of(output)[0]
    } else {
        "Unknown"@
    }
}

/// The QEMU version that `<emulator> --version` printed: its first line.
pub fn qemu_version_from_output(stdout: &str) -> (r: String)
    ensures
        r@ == version_line(stdout@),
{
    let lines = split_lines(&chars_of(stdout));
    if lines.len() > 0 {
        assert(lines.deep_view()[0] == lines[0]@);
        string_from_chars(&lines[0])
    } else {
        String::from_str("Unknown")
    }
}

/// The capability that lets `qemu-bridge-helper` create taps.
pub open spec fn net_admin_capability() -> Seq<char> {
    "cap_net_admin"@
}

/// Whether the bridge helper can do its job: its mode has the setuid bit, or
/// `getcap` reports `cap_net_admin` on it. `mode` is absent when the file
/// could not be examined, `getcap_output` when `getcap` could not be run.
pub fn is_bridge_helper_configured(mode: Option<u32>, getcap_output: Option<&str>) -> (r: bool)
    ensures
        r == ((mode is Some && mode.unwrap() & 0o4000u32 != 0) || (getcap_output is Some
            && contains_seq(getcap_output.unwrap()@, net_admin_capability()))),
{
    if let Some(m) = mode {
        if m & 0o4000u32 != 0 {
            return true;
        }
    }
    if let Some(out) = getcap_output {
        if contains_chars(&chars_of(out), &chars_of("cap_net_admin")) {
            return true;
        }
    }
    false
}

/// Information about available network backends.
#[derive(Debug, Clone)]
pub struct NetworkCapabilities {
    pub passt_available: bool,
    pub bridge_helper_path: Option<String>,
    pub bridge_helper_configured: bool,
    pub system_bridges: Vec<String>,
    pub allowed_bridges: Vec<String>,
}

/// Put together what is known of the host's networking: whether `passt`
/// runs, where the bridge helper is and whether it is configured, the host's
/// bridges (from `ip -o link show type bridge`), and those that
/// `/etc/qemu/bridge.conf` allows (only looked at when the helper is
/// configured; `None` when the file could not be read).
pub fn detect_network_capabilities(
    passt_available: bool,
    bridge_helper_path: Option<String>,
    helper_configured: bool,
    ip_link_output: &str,
    bridge_conf: Option<&str>,
) -> (r: NetworkCapabilities)
    ensures
        r.passt_available == passt_available,
        r.bridge_helper_path == bridge_helper_path,
        r.bridge_helper_configured == (bridge_helper_path is Some && helper_configured),
        r.system_bridges.deep_view() == system_bridges_from(lines_of(ip_link_output@)),
        r.allowed_bridges.deep_view() == (if r.bridge_helper_configured && bridge_conf is Some {
            allowed_bridges(bridge_conf.unwrap()@, r.system_bridges.deep_view())
        } else {
            Seq::empty()
        }),
{
    let configured = bridge_helper_path.is_some() && helper_configured;
    let system_bridges = list_system_bridges(ip_link_output);
    let allowed = if configured {
        match bridge_conf {
            Some(conf) => parse_allowed_bridges(conf, system_bridges.as_slice()),
            None => Vec::new(),
        }
    } else {
        Vec::new()
    };
    assert(allowed.deep_view() =~= (if configured && bridge_conf is Some {
        allowed_bridges(bridge_conf.unwrap()@, system_bridges.deep_view())
    } else {
        Seq::empty()
    }));
    NetworkCapabilities {
        passt_available,
        bridge_helper_path,
        bridge_helper_configured: configured,
        system_bridges,
        allowed_bridges: allowed,
    }
}

/// Only bridges that exist on the host are ever offered as allowed, and none
/// is offered unless the bridge helper is configured.
pub proof fn law_allowed_within_system(caps: NetworkCapabilities, conf: Option<Seq<char>>)
    requires
        caps.allowed_bridges.deep_view() == (if caps.bridge_helper_configured && conf is Some {
            allowed_bridges(conf.unwrap(), caps.system_bridges.deep_view())
        } else {
            Seq::empty()
        }),
    ensures
        all_within(caps.allowed_bridges.deep_view(), caps.system_bridges.deep_view()),
        !caps.bridge_helper_configured ==> caps.allowed_bridges.deep_view().len() == 0,
{
    if caps.bridge_helper_configured && conf is Some {
        law_allowed_bridges_are_system_bridges(conf.unwrap(), caps.system_bridges.deep_view());
    }
}

} // verus!

verus! {

/// A bridge is a lab-friendly default exactly when it is classified as a
/// private libvirt bridge.
pub proof fn law_lab_friendly_iff_private(name: Seq<char>)
    ensures
        lab_friendly(name) <==> bridge_class(name) == "private/libvirt bridge"@,
{
    reveal_strlit("private/libvirt bridge");
    reveal_strlit("container/custom bridge");
    reveal_strlit("host/LAN bridge");
    if !lab_friendly(name) {
        assert(bridge_class(name)[0] != "private/libvirt bridge"@[0]);
    }
}

/// The lab-friendly selection keeps only lab-friendly bridges, each taken
/// from the given list, and never more than were given.
pub proof fn law_lab_friendly_selection(bridges: Seq<Seq<char>>)
    ensures
        forall|i: int| 0 <= i < lab_friendly_seq(bridges).len() ==> lab_friendly(
            #[trigger] lab_friendly_seq(bridges)[i],
        ) && bridges.contains(lab_friendly_seq(bridges)[i]),
        lab_friendly_seq(bridges).len() <= bridges.len(),
    decreases bridges.len(),
{
    if bridges.len() > 0 {
        let rest = bridges.drop_last();
        law_lab_friendly_selection(rest);
        let r = lab_friendly_seq(bridges);
        assert forall|i: int| 0 <= i < r.len() implies lab_friendly(#[trigger] r[i])
            && bridges.contains(r[i]) by {
            if i < lab_friendly_seq(rest).len() {
                assert(r[i] == lab_friendly_seq(rest)[i]);
                let j = choose|j: int| 0 <= j < rest.len() && rest[j] == r[i];
                assert(bridges[j] == r[i]);
            } else {
                assert(r[i] == bridges.last());
                assert(bridges[bridges.len() - 1] == r[i]);
            }
        }
    }
}

} // verus!

verus! {

/// A `bridge.conf` line (before trimming) is `allow all`.
pub open spec fn is_allow_all_line(l: Seq<char>) -> bool {
    let t = trim_seq(l);
    starts_with_seq(t, "allow "@) && trim_seq(t.skip("allow "@.len() as int)) == "all"@
}

proof fn lemma_allowed_keeps(lines: Seq<Seq<char>>, system: Seq<Seq<char>>, acc: Seq<Seq<char>>, x: Seq<char>)
    requires
        acc.contains(x),
        system.contains(x),
    ensures
        allowed_from_lines(lines, system, acc).contains(x),
    decreases lines.len(),
{
    if lines.len() > 0 {
        let t = trim_seq(lines[0]);
        if starts_with_seq(t, allow_directive()) {
            let b = trim_seq(t.skip(allow_directive().len() as int));
            if b == allow_all() {
            } else if system.contains(b) && !acc.contains(b) {
                let i = choose|i: int| 0 <= i < acc.len() && acc[i] == x;
                assert(acc.push(b)[i] == x);
                lemma_allowed_keeps(lines.drop_first(), system, acc.push(b), x);
            } else {
                lemma_allowed_keeps(lines.drop_first(), system, acc, x);
            }
        } else {
            lemma_allowed_keeps(lines.drop_first(), system, acc, x);
        }
    }
}

proof fn lemma_allowed_line_admits(
    lines: Seq<Seq<char>>,
    system: Seq<Seq<char>>,
    acc: Seq<Seq<char>>,
    k: int,
    name: Seq<char>,
)
    requires
        0 <= k < lines.len(),
        starts_with_seq(trim_seq(lines[k]), "allow "@),
        name == trim_seq(trim_seq(lines[k]).skip("allow "@.len() as int)),
        name != "all"@,
        system.contains(name),
        forall|j: int| 0 <= j < k ==> !is_allow_all_line(#[trigger] lines[j]),
    ensures
        allowed_from_lines(lines, system, acc).contains(name),
    decreases k,
{
    let t = trim_seq(lines[0]);
    if k == 0 {
        if acc.contains(name) {
            lemma_allowed_keeps(lines.drop_first(), system, acc, name);
        } else {
            assert(acc.push(name)[acc.len() as int] == name);
            lemma_allowed_keeps(lines.drop_first(), system, acc.push(name), name);
        }
    } else {
        assert(!is_allow_all_line(lines[0]));
        assert forall|j: int| 0 <= j < k - 1 implies !is_allow_all_line(#[trigger] lines.drop_first()[j]) by {
            assert(lines.drop_first()[j] == lines[j + 1]);
        }
        assert(lines.drop_first()[k - 1] == lines[k]);
        if starts_with_seq(t, allow_directive()) {
            let b = trim_seq(t.skip(allow_directive().len() as int));
            if system.contains(b) && !acc.contains(b) {
                lemma_allowed_line_admits(lines.drop_first(), system, acc.push(b), k - 1, name);
            } else {
                lemma_allowed_line_admits(lines.drop_first(), system, acc, k - 1, name);
            }
        } else {
            lemma_allowed_line_admits(lines.drop_first(), system, acc, k - 1, name);
        }
    }
}

/// Every `allow NAME` line whose bridge the host has admits that bridge,
/// whatever lines come before it (allow lines for missing bridges, comments,
/// repeats), unless an `allow all` line comes first, which admits every host
/// bridge anyway.
pub proof fn law_allow_line_admits_host_bridge(conf: Seq<char>, system: Seq<Seq<char>>, k: int)
    requires
        0 <= k < lines_of(conf).len(),
        starts_with_seq(trim_seq(lines_of(conf)[k]), "allow "@),
        system.contains(trim_seq(trim_seq(lines_of(conf)[k]).skip("allow "@.len() as int))),
    ensures
        allowed_bridges(conf, system).contains(
            trim_seq(trim_seq(lines_of(conf)[k]).skip("allow "@.len() as int)),
        ),
{
    let lines = lines_of(conf);
    let name = trim_seq(trim_seq(lines[k]).skip("allow "@.len() as int));
    if exists|j: int| 0 <= j < k && is_allow_all_line(#[trigger] lines[j]) {
        let j = choose|j: int| 0 <= j < k && is_allow_all_line(#[trigger] lines[j]);
        lemma_allow_all_gives_system(lines, system, Seq::empty(), j);
    } else if name == "all"@ {
        lemma_allow_all_gives_system(lines, system, Seq::empty(), k);
    } else {
        lemma_allowed_line_admits(lines, system, Seq::empty(), k, name);
    }
}

proof fn lemma_allow_all_gives_system(lines: Seq<Seq<char>>, system: Seq<Seq<char>>, acc: Seq<Seq<char>>, j: int)
    requires
        0 <= j < lines.len(),
        is_allow_all_line(lines[j]),
    ensures
        allowed_from_lines(lines, system, acc) == system,
    decreases j,
{
    if !is_allow_all_line(lines[0]) {
        let t = trim_seq(lines[0]);
        assert(lines.drop_first()[j - 1] == lines[j]);
        if starts_with_seq(t, allow_directive()) {
            let b = trim_seq(t.skip(allow_directive().len() as int));
            if system.contains(b) && !acc.contains(b) {
                lemma_allow_all_gives_system(lines.drop_first(), system, acc.push(b), j - 1);
            } else {
                lemma_allow_all_gives_system(lines.drop_first(), system, acc, j - 1);
            }
        } else {
            lemma_allow_all_gives_system(lines.drop_first(), system, acc, j - 1);
        }
    }
}

} // verus!

verus! {

/// An `lsmod` line names a vendor KVM module.
pub open spec fn is_vendor_kvm_line(l: Seq<char>) -> bool {
    starts_with_seq(l, "kvm_intel"@) || starts_with_seq(l, "kvm_amd"@)
}

/// The reported module is the first word of the first `lsmod` line that
/// starts with `kvm_intel` or `kvm_amd`; plain `kvm` when no line does.
pub proof fn law_kvm_module_is_first_vendor_line(lines: Seq<Seq<char>>)
    ensures
        forall|k: int|
            0 <= k < lines.len() && is_vendor_kvm_line(#[trigger] lines[k]) && (forall|j: int|
                0 <= j < k ==> !is_vendor_kvm_line(#[trigger] lines[j])) ==> kvm_module_from(lines)
                == leading_word(lines[k]),
        (forall|j: int| 0 <= j < lines.len() ==> !is_vendor_kvm_line(#[trigger] lines[j]))
            ==> kvm_module_from(lines) == "kvm"@,
    decreases lines.len(),
{
    if lines.len() > 0 {
        let rest = lines.drop_first();
        law_kvm_module_is_first_vendor_line(rest);
        assert forall|k: int|
            0 <= k < lines.len() && is_vendor_kvm_line(#[trigger] lines[k]) && (forall|j: int|
                0 <= j < k ==> !is_vendor_kvm_line(#[trigger] lines[j])) implies kvm_module_from(lines)
                == leading_word(lines[k]) by {
            if k > 0 {
                assert(!is_vendor_kvm_line(lines[0]));
                assert(rest[k - 1] == lines[k]);
                assert forall|j: int| 0 <= j < k - 1 implies !is_vendor_kvm_line(#[trigger] rest[j]) by {
                    assert(rest[j] == lines[j + 1]);
                }
            }
        }
        if forall|j: int| 0 <= j < lines.len() ==> !is_vendor_kvm_line(#[trigger] lines[j]) {
            assert(!is_vendor_kvm_line(lines[0]));
            assert forall|j: int| 0 <= j < rest.len() implies !is_vendor_kvm_line(#[trigger] rest[j]) by {
                assert(rest[j] == lines[j + 1]);
            }
        }
    }
}

/// The lab-friendly selection is exactly the input's `virbr*` bridges, in
/// their order: nothing else is kept and none of them is dropped.
pub proof fn law_lab_friendly_is_virbr_filter(bridges: Seq<Seq<char>>)
    ensures
        lab_friendly_seq(bridges) == bridges.filter(|b: Seq<char>| starts_with_seq(b, "virbr"@)),
        forall|i: int|
            0 <= i < bridges.len() && starts_with_seq(#[trigger] bridges[i], "virbr"@)
                ==> lab_friendly_seq(bridges).contains(bridges[i]),
    decreases bridges.len(),
{
    reveal_with_fuel(Seq::filter, 1);
    if bridges.len() > 0 {
        let rest = bridges.drop_last();
        law_lab_friendly_is_virbr_filter(rest);
        let r = lab_friendly_seq(bridges);
        assert forall|i: int|
            0 <= i < bridges.len() && starts_with_seq(#[trigger] bridges[i], "virbr"@)
                implies r.contains(bridges[i]) by {
            if i < bridges.len() - 1 {
                assert(rest[i] == bridges[i]);
                let m = choose|m: int| 0 <= m < lab_friendly_seq(rest).len() && lab_friendly_seq(rest)[m] == rest[i];
                assert(r[m] == lab_friendly_seq(rest)[m]);
            } else {
                assert(r[r.len() - 1] == bridges[i]);
            }
        }
    }
}

} // verus!
