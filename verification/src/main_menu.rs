//! The main screen's title bar: how many VMs there are and run, and where
//! the library lives, fitted to the width of the terminal.

use vstd::prelude::*;
use crate::layout::sat_sub;
use crate::text::{chars_of, decimal, push_chars, push_decimal, push_str, string_from_chars, sub_chars};

verus! {

/// How many terminal columns `unicode-width` gives a text.
pub uninterp spec fn str_width(s: Seq<char>) -> nat;

/// `unicode_width::UnicodeWidthStr::width`: the columns the text takes on a
/// terminal. Its rules are summarised by `str_width`; what is stated beyond
/// the name is that printable ASCII characters (space to tilde) take one
/// column each.
#[verifier::external_body]
fn display_width(s: &str) -> (w: usize)
    ensures
        w as nat == str_width(s@),
        (forall|i: int| 0 <= i < s@.len() ==> ' ' <= #[trigger] s@[i] && s@[i] <= '~') ==> w
            == s@.len(),
{
    unicode_width::UnicodeWidthStr::width(s)
}

/// `n` dots.
pub open spec fn dots(n: nat) -> Seq<char> {
    Seq::new(n, |i: int| '.')
}

/// The ellipsis that starts a shortened text.
pub open spec fn three_dots() -> Seq<char> {
    "..."@
}

/// The first cut at or after `k` whose ellipsized rest fits in `max` columns.
pub open spec fn first_fit_from(text: Seq<char>, max: nat, k: int) -> Option<int>
    decreases text.len() - k,
{
    if k < 0 || k >= text.len() {
        None
    } else if str_width(three_dots() + text.skip(k)) <= max {
        Some(k)
    } else {
        first_fit_from(text, max, k + 1)
    }
}

/// `text` shortened from the left to fit in `max` columns: unchanged when it
/// fits; only dots when there is no room for more; else `...` and the longest
/// tail of `text` that fits with it, or just `...`.
pub open spec fn ellipsized(text: Seq<char>, max: nat) -> Seq<char> {
    if str_width(text) <= max {
        text
    } else if max <= 3 {
        dots(max)
    } else {
        match first_fit_from(text, max, 0) {
            Some(k) => three_dots() + text.skip(k),
            None => three_dots(),
        }
    }
}

/// Every character is printable ASCII (space to tilde).
pub open spec fn printable_ascii(s: Seq<char>) -> bool {
    forall|i: int| 0 <= i < s.len() ==> ' ' <= #[trigger] s[i] && s[i] <= '~'
}

/// Shorten `text` from the left so that it fits in `max_width` columns. The
/// result always fits, and printable ASCII text takes one column per character.
pub fn ellipsize_left(text: &str, max_width: usize) -> (r: String)
    ensures
        r@ == ellipsized(text@, max_width as nat),
        str_width(r@) <= max_width,
        printable_ascii(text@) ==> str_width(text@) == text@.len(),
{
    if display_width(text) <= max_width {
        return string_from_chars(&chars_of(text));
    }
    if max_width <= 3 {
        let mut d: Vec<char> = Vec::new();
        let mut i: usize = 0;
        while i < max_width
            invariant
                i <= max_width,
                d@ == dots(i as nat),
            decreases max_width - i,
        {
            d.push('.');
            i = i + 1;
            assert(d@ =~= dots(i as nat));
        }
        let shown = string_from_chars(&d);
        let w = display_width(shown.as_str());
        assert(printable_ascii(shown@));
        assert(w == max_width);
        return shown;
    }
    let chars = chars_of(text);
    let mut start: usize = 0;
    while start < chars.len()
        invariant
            start <= chars.len(),
            chars@ == text@,
            str_width(text@) > max_width,
            printable_ascii(text@) ==> str_width(text@) == text@.len(),
            max_width > 3,
            first_fit_from(text@, max_width as nat, 0) == first_fit_from(
                text@,
                max_width as nat,
                start as int,
            ),
        decreases chars.len() - start,
    {
        let mut candidate = chars_of("...");
        push_chars(&mut candidate, &sub_chars(&chars, start, chars.len()));
        assert(candidate@ =~= three_dots() + text@.skip(start as int));
        let rendered = string_from_chars(&candidate);
        if display_width(rendered.as_str()) <= max_width {
            return rendered;
        }
        start = start + 1;
    }
    let shown = string_from_chars(&chars_of("..."));
    let w = display_width(shown.as_str());
    proof {
        reveal_strlit("...");
        assert(printable_ascii(shown@));
    }
    shown
}

/// The application's name as the title bar shows it.
pub open spec fn title_text() -> Seq<char> {
    " VM Foundry "@
}

pub open spec fn max_int(a: int, b: int) -> int {
    if a >= b {
        a
    } else {
        b
    }
}

/// The status texts of the title bar, from the most to the least detailed.
pub open spec fn status_candidates(
    vms: nat,
    running: nat,
    path: Seq<char>,
    available: int,
    used: int,
) -> Seq<Seq<char>> {
    let v = decimal(vms);
    let r = decimal(running);
    let path_budget = max_int(sat_sub(available, used + 24), 12);
    let medium_budget = max_int(sat_sub(available, used + 14), 8);
    seq![
        v + " VMs | "@ + r + " running | Desktop QEMU Lab Manager | "@ + path,
        v + " VMs | "@ + r + " running | "@ + ellipsized(path, path_budget as nat),
        v + " | "@ + r + " | "@ + ellipsized(path, medium_budget as nat),
        v + " | "@ + r,
    ]
}

/// The first of `candidates` at or after `k` that fits beside the title.
pub open spec fn first_fitting_status(
    candidates: Seq<Seq<char>>,
    available: int,
    used: int,
    k: int,
) -> Option<Seq<char>>
    decreases candidates.len() - k,
{
    if k < 0 || k >= candidates.len() {
        None
    } else if used + 1 + str_width(candidates[k]) <= available {
        Some(candidates[k])
    } else {
        first_fitting_status(candidates, available, used, k + 1)
    }
}

/// The status part of the title bar for a bar `area_width` columns wide: the
/// most detailed status that fits beside the title, padded with a space on
/// each side, and the number of spaces that push it to the right edge.
pub open spec fn title_status_spec(vms: nat, running: nat, path: Seq<char>, area_width: nat) -> Option<(Seq<char>, int)> {
    let available = sat_sub(area_width as int, 4);
    let used = str_width(title_text()) as int;
    match first_fitting_status(status_candidates(vms, running, path, available, used), available, used, 0) {
        Some(s) => {
            let text = " "@ + s + " "@;
            Some((text, max_int(sat_sub(available, used + str_width(text)), 1)))
        },
        None => None,
    }
}

proof fn lemma_title_width_is_its_length()
    ensures
        title_text().len() == 12,
        forall|i: int| 0 <= i < title_text().len() ==> ' ' <= #[trigger] title_text()[i] && title_text()[i] <= '~',
{
    reveal_strlit(" VM Foundry ");
}

/// Lay out the status of the title bar (see `title_status_spec`): `vm_count`
/// VMs in the library, `running_count` running, the library at
/// `display_path`, on a bar `area_width` columns wide.
pub fn title_status(vm_count: usize, running_count: usize, display_path: &str, area_width: u16) -> (r: Option<(String, usize)>)
    ensures
        str_width(title_text()) == 12,
        match r {
            Some((s, pad)) => title_status_spec(vm_count as nat, running_count as nat, display_path@, area_width as nat) == Some((s@, pad as int)),
            None => title_status_spec(vm_count as nat, running_count as nat, display_path@, area_width as nat) is None,
        },
{
    let available = area_width.saturating_sub(4) as usize;
    let title = " VM Foundry ";
    proof {
        lemma_title_width_is_its_length();
    }
    let used = display_width(title);
    assert(used == 12);
    let path_budget = {
        let b = available.saturating_sub(used + 24);
        if b >= 12 { b } else { 12 }
    };
    let medium_budget = {
        let b = available.saturating_sub(used + 14);
        if b >= 8 { b } else { 8 }
    };
    let mut counts: Vec<char> = Vec::new();
    push_decimal(&mut counts, vm_count as u64);
    let mut running: Vec<char> = Vec::new();
    push_decimal(&mut running, running_count as u64);
    let path = chars_of(display_path);

    let mut c0 = counts.clone();
    push_str(&mut c0, " VMs | ");
    push_chars(&mut c0, &running);
    push_str(&mut c0, " running | Desktop QEMU Lab Manager | ");
    push_chars(&mut c0, &path);

    let mut c1 = counts.clone();
    push_str(&mut c1, " VMs | ");
    push_chars(&mut c1, &running);
    push_str(&mut c1, " running | ");
    let e1 = ellipsize_left(display_path, path_budget);
    push_chars(&mut c1, &chars_of(e1.as_str()));

    let mut c2 = counts.clone();
    push_str(&mut c2, " | ");
    push_chars(&mut c2, &running);
    push_str(&mut c2, " | ");
    let e2 = ellipsize_left(display_path, medium_budget);
    push_chars(&mut c2, &chars_of(e2.as_str()));

    let mut c3 = counts.clone();
    push_str(&mut c3, " | ");
    push_chars(&mut c3, &running);

    let ghost cands = status_candidates(vm_count as nat, running_count as nat, display_path@, available as int, used as int);
    let candidates = vec![c0, c1, c2, c3];
    assert(candidates@.len() == 4);
    assert(forall|i: int| 0 <= i < 4 ==> (#[trigger] candidates@[i])@ == cands[i]);
    let mut k: usize = 0;
    while k < candidates.len()
        invariant
            k <= candidates.len() == 4,
            cands.len() == 4,
            cands == status_candidates(vm_count as nat, running_count as nat, display_path@, available as int, used as int),
            available as int == sat_sub(area_width as int, 4),
            used == 12,
            used as int == str_width(title_text()),
            forall|i: int| 0 <= i < 4 ==> (#[trigger] candidates@[i])@ == cands[i],
            first_fitting_status(cands, available as int, used as int, 0) == first_fitting_status(cands, available as int, used as int, k as int),
        decreases candidates.len() - k,
    {
        let s = string_from_chars(&candidates[k]);
        let w = display_width(s.as_str());
        if available >= used + 1 && w <= available - used - 1 {
            let mut t = chars_of(" ");
            push_chars(&mut t, &candidates[k]);
            push_str(&mut t, " ");
            let text = string_from_chars(&t);
            let tw = display_width(text.as_str());
            let pad = {
                let p = available.saturating_sub(used).saturating_sub(tw);
                if p >= 1 { p } else { 1 }
            };
            return Some((text, pad));
        }
        k = k + 1;
    }
    None
}

} // verus!

verus! {

/// What `Path::strip_prefix` leaves of `path` after the leading components
/// `base` (rendered as text), if `base` leads it.
pub uninterp spec fn path_strip_prefix(path: Seq<char>, base: Seq<char>) -> Option<Seq<char>>;

/// `std::path::Path::strip_prefix` on `path` and `base`, its result rendered
/// with `Path::display`. The result is named by `path_strip_prefix`; its
/// component-wise rules are not written out here.
#[verifier::external_body]
fn strip_path_prefix(path: &str, base: &str) -> (r: Option<String>)
    ensures
        r.deep_view() == path_strip_prefix(path@, base@),
{
    std::path::Path::new(path).strip_prefix(base).ok().map(|p| p.display().to_string())
}

/// The library path as the title shows it: under the home directory it is
/// written from `~/`.
pub open spec fn shown_library_path(library_path: Seq<char>, home: Option<Seq<char>>) -> Seq<char> {
    match home {
        Some(h) => match path_strip_prefix(library_path, h) {
            Some(rest) => "~/"@ + rest,
            None => library_path,
        },
        None => library_path,
    }
}

/// Shorten the library path to `~/...` when it lies in the home directory
/// `home` (absent when the home directory is unknown).
pub fn display_library_path(library_path: &str, home: Option<&str>) -> (r: String)
    ensures
        r@ == shown_library_path(library_path@, match home {
            Some(h) => Some(h@),
            None => None,
        }),
{
    match home {
        Some(h) => match strip_path_prefix(library_path, h) {
            Some(rest) => {
                let mut t = chars_of("~/");
                push_chars(&mut t, &chars_of(rest.as_str()));
                string_from_chars(&t)
            },
            None => string_from_chars(&chars_of(library_path)),
        },
        None => string_from_chars(&chars_of(library_path)),
    }
}

} // verus!
