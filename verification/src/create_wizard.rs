//! Logic of the VM creation wizard: reading sizes typed with an optional
//! unit suffix, and the default for launching the VM once it is created.

use vstd::prelude::*;
use crate::text::{
    all_digits, chars_of, decimal, digit_value, digits_value, is_digit, is_ws,
    lemma_decimal_digits, lemma_scan_until_exact, lemma_scan_until_range, lemma_trim_noop,
    scan_until, sub_chars, trim_chars, trim_seq,
};

verus! {

/// The power of 1024 (KB = 1, MB = 2, GB = 3) that a unit name stands for,
/// ignoring ASCII case.
pub open spec fn unit_exponent(u: Seq<char>) -> Option<nat> {
    if u.len() == 2 && (u[1] == 'b' || u[1] == 'B') {
        if u[0] == 'k' || u[0] == 'K' {
            Some(1)
        } else if u[0] == 'm' || u[0] == 'M' {
            Some(2)
        } else if u[0] == 'g' || u[0] == 'G' {
            Some(3)
        } else {
            None
        }
    } else {
        None
    }
}

pub open spec fn pow1024(k: nat) -> nat
    decreases k,
{
    if k == 0 {
        1
    } else {
        1024 * pow1024((k - 1) as nat)
    }
}

/// Stops at the first character that is not a decimal digit.
pub open spec fn non_digit_stop() -> spec_fn(char) -> bool {
    |c: char| !is_digit(c)
}

/// `value` given in units of exponent `from`, expressed in units of exponent
/// `to` (rounded down when the target unit is larger).
pub open spec fn convert_units(value: nat, from: nat, to: nat) -> nat {
    if from >= to {
        value * pow1024((from - to) as nat)
    } else {
        value / pow1024((to - from) as nat)
    }
}

/// The size that `input` denotes in `target_unit`: after trimming, a run of
/// decimal digits, then optionally (after more whitespace) a unit KB, MB or GB
/// in any case; a bare number is taken to be in the target unit. There is no
/// size when the input has no digits, has anything else, names an unknown
/// unit, or the number or the result does not fit in 64 bits.
pub open spec fn parsed_size(input: Seq<char>, target_unit: Seq<char>) -> Option<nat> {
    let t = trim_seq(input);
    let n = scan_until(t, 0, non_digit_stop());
    let value = digits_value(t.take(n));
    let suffix = trim_seq(t.skip(n));
    let from = if suffix.len() == 0 {
        unit_exponent(target_unit)
    } else {
        unit_exponent(suffix)
    };
    if n == 0 || from is None || unit_exponent(target_unit) is None || value > u64::MAX {
        None
    } else {
        let r = convert_units(value, from.unwrap(), unit_exponent(target_unit).unwrap());
        if r > u64::MAX {
            None
        } else {
            Some(r)
        }
    }
}

fn unit_exponent_of(u: &Vec<char>) -> (r: Option<u64>)
    ensures
        match r {
            Some(e) => unit_exponent(u@) == Some(e as nat),
            None => unit_exponent(u@) is None,
        },
{
    if u.len() == 2 && (u[1] == 'b' || u[1] == 'B') {
        if u[0] == 'k' || u[0] == 'K' {
            Some(1)
        } else if u[0] == 'm' || u[0] == 'M' {
            Some(2)
        } else if u[0] == 'g' || u[0] == 'G' {
            Some(3)
        } else {
            None
        }
    } else {
        None
    }
}

proof fn lemma_digits_value_grows(s: Seq<char>, j: int, k: int)
    requires
        0 <= j <= k <= s.len(),
    ensures
        digits_value(s.take(j)) <= digits_value(s.take(k)),
    decreases k - j,
{
    if j < k {
        lemma_digits_value_grows(s, j, k - 1);
        assert(s.take(k).drop_last() =~= s.take(k - 1));
    }
}

fn pow1024_of(k: u64) -> (r: u64)
    requires
        k <= 2,
    ensures
        r == pow1024(k as nat),
        r >= 1,
{
    reveal_with_fuel(pow1024, 3);
    if k == 0 {
        1
    } else if k == 1 {
        1024
    } else {
        1048576
    }
}

/// Parse a size typed with an optional unit suffix into `target_unit`
/// (e.g. `"8GB"` into `"MB"` gives 8192, `"500"` into `"GB"` gives 500).
pub fn parse_size_with_suffix(input: &str, target_unit: &str) -> (r: Option<u64>)
    ensures
        match r {
            Some(v) => parsed_size(input@, target_unit@) == Some(v as nat),
            None => parsed_size(input@, target_unit@) is None,
        },
{
    let t = trim_chars(&chars_of(input));
    let mut n: usize = 0;
    let mut value: u64 = 0;
    while n < t.len() && '0' <= t[n] && t[n] <= '9'
        invariant
            n <= t.len(),
            t@ == trim_seq(input@),
            scan_until(t@, 0, non_digit_stop()) == scan_until(t@, n as int, non_digit_stop()),
            value as nat == digits_value(t@.take(n as int)),
            all_digits(t@.take(n as int)),
        decreases t.len() - n,
    {
        let d = (t[n] as u32 - '0' as u32) as u64;
        assert(d == digit_value(t@[n as int]));
        assert(t@.take(n + 1).drop_last() =~= t@.take(n as int));
        assert(t@.take(n + 1).last() == t@[n as int]);
        if value > (u64::MAX - d) / 10 {
            proof {
                assert(value * 10 + d > u64::MAX) by (nonlinear_arith)
                    requires
                        value > (u64::MAX - d) / 10,
                        d <= 9,
                ;
                assert(digits_value(t@.take(n + 1)) == value * 10 + d);
                lemma_scan_until_range(t@, n as int, non_digit_stop());
                assert(!non_digit_stop()(t@[n as int]));
                assert(scan_until(t@, 0, non_digit_stop()) >= n + 1);
                lemma_digits_value_grows(t@, n + 1, scan_until(t@, 0, non_digit_stop()));
            }
            return None;
        }
        assert(value * 10 + d <= u64::MAX) by (nonlinear_arith)
            requires
                value <= (u64::MAX - d) / 10,
                d <= 9,
        ;
        value = value * 10 + d;
        n = n + 1;
        assert(all_digits(t@.take(n as int))) by {
            assert forall|i: int| 0 <= i < n implies is_digit(#[trigger] t@.take(n as int)[i]) by {
                if i < n - 1 {
                    assert(t@.take(n as int)[i] == t@.take(n - 1)[i]);
                }
            }
        }
    }
    assert(scan_until(t@, n as int, non_digit_stop()) == n);
    if n == 0 {
        return None;
    }
    let rest = sub_chars(&t, n, t.len());
    assert(rest@ =~= t@.skip(n as int));
    let suffix = trim_chars(&rest);
    let target = unit_exponent_of(&chars_of(target_unit));
    let from = if suffix.len() == 0 {
        target
    } else {
        unit_exponent_of(&suffix)
    };
    match (from, target) {
        (Some(f), Some(g)) => {
            if f >= g {
                let k = pow1024_of(f - g);
                if k > 1 && value > u64::MAX / k {
                    assert(value * k > u64::MAX) by (nonlinear_arith)
                        requires
                            value > u64::MAX / k,
                            k > 1,
                    ;
                    None
                } else {
                    assert(value * k <= u64::MAX) by (nonlinear_arith)
                        requires
                            k <= 1 ==> k == 1,
                            k > 1 ==> value <= u64::MAX / k,
                    ;
                    Some(value * k)
                }
            } else {
                let k = pow1024_of(g - f);
                assert(k > 0) by {
                    reveal_with_fuel(pow1024, 3);
                }
                assert(value / k <= value) by (nonlinear_arith)
                    requires
                        k > 0,
                ;
                Some(value / k)
            }
        },
        _ => None,
    }
}

} // verus!

verus! {

/// A plain number is read as a size in the target unit, unchanged.
pub proof fn law_plain_number_is_in_target_unit(n: nat, target_unit: Seq<char>)
    requires
        n <= u64::MAX,
        unit_exponent(target_unit) is Some,
    ensures
        parsed_size(decimal(n), target_unit) == Some(n),
{
    let d = decimal(n);
    lemma_decimal_digits(n);
    assert(!is_ws(d[0]) && !is_ws(d.last())) by {
        assert(is_digit(d[0]));
        assert(is_digit(d[d.len() - 1]));
    }
    lemma_trim_noop(d);
    lemma_scan_until_exact(d, 0, d.len() as int, non_digit_stop());
    assert(d.take(d.len() as int) =~= d);
    assert(d.skip(d.len() as int) =~= Seq::<char>::empty());
    lemma_trim_noop(Seq::<char>::empty());
    assert(pow1024(0) == 1);
    let e = unit_exponent(target_unit).unwrap();
    assert(((e - e) as nat) == 0nat);
    assert(n * pow1024(0) == n);
    assert(convert_units(n, e, e) == n);
    assert(scan_until(trim_seq(d), 0, non_digit_stop()) == d.len());
    assert(digits_value(trim_seq(d).take(d.len() as int)) == n);
}

/// A number followed by a unit is converted from that unit into the target
/// unit: multiplied by 1024 per step down, divided (rounding down) per step up.
pub proof fn law_suffix_converts_units(n: nat, unit: Seq<char>, target_unit: Seq<char>)
    requires
        n <= u64::MAX,
        unit_exponent(unit) is Some,
        unit_exponent(target_unit) is Some,
    ensures
        parsed_size(decimal(n) + unit, target_unit) == ({
            let r = convert_units(n, unit_exponent(unit).unwrap(), unit_exponent(target_unit).unwrap());
            if r <= u64::MAX { Some(r) } else { None }
        }),
{
    let d = decimal(n);
    let s = d + unit;
    lemma_decimal_digits(n);
    assert(s[0] == d[0]);
    assert(s.last() == unit[1]);
    assert(!is_ws(s[0]) && !is_ws(s.last())) by {
        assert(is_digit(d[0]));
    }
    lemma_trim_noop(s);
    assert forall|j: int| 0 <= j < d.len() implies !non_digit_stop()(#[trigger] s[j]) by {
        assert(s[j] == d[j]);
    }
    assert(s[d.len() as int] == unit[0]);
    lemma_scan_until_exact(s, 0, d.len() as int, non_digit_stop());
    assert(s.take(d.len() as int) =~= d);
    assert(s.skip(d.len() as int) =~= unit);
    lemma_trim_noop(unit);
}

} // verus!

verus! {

/// The part of the creation wizard's state that decides whether the new VM
/// is launched once it has been created.
pub struct CreateWizardState {
    /// An existing disk image is used instead of a blank new disk.
    pub use_existing_disk: bool,
    /// Installation media to boot from, if any.
    pub iso_path: Option<String>,
    /// Launch the VM after creating it.
    pub auto_launch: bool,
    /// The user chose `auto_launch` by hand; defaults no longer apply.
    pub auto_launch_overridden: bool,
}

/// Launching by default is right when there is something to boot: an
/// existing disk or installation media.
pub open spec fn default_auto_launch(use_existing_disk: bool, has_iso: bool) -> bool {
    use_existing_disk || has_iso
}

/// The state after the default for `auto_launch` has been applied.
pub open spec fn synced(s: CreateWizardState) -> CreateWizardState {
    if s.auto_launch_overridden {
        s
    } else {
        CreateWizardState {
            auto_launch: default_auto_launch(s.use_existing_disk, s.iso_path is Some),
            ..s
        }
    }
}

/// The state after the user flipped `auto_launch` by hand.
pub open spec fn toggled(s: CreateWizardState) -> CreateWizardState {
    CreateWizardState { auto_launch: !s.auto_launch, auto_launch_overridden: true, ..s }
}

impl Default for CreateWizardState {
    fn default() -> (s: Self)
        ensures
            !s.use_existing_disk,
            s.iso_path is None,
            !s.auto_launch,
            !s.auto_launch_overridden,
    {
        CreateWizardState {
            use_existing_disk: false,
            iso_path: None,
            auto_launch: false,
            auto_launch_overridden: false,
        }
    }
}

impl CreateWizardState {
    /// Apply the media-dependent default for `auto_launch`, unless the user
    /// has chosen by hand.
    pub fn sync_auto_launch_default(&mut self)
        ensures
            *final(self) == synced(*old(self)),
    {
        if !self.auto_launch_overridden {
            self.auto_launch = self.use_existing_disk || self.iso_path.is_some();
        }
    }

    /// Flip `auto_launch` by hand; from now on defaults leave it alone.
    pub fn toggle_auto_launch(&mut self)
        ensures
            *final(self) == toggled(*old(self)),
    {
        self.auto_launch = !self.auto_launch;
        self.auto_launch_overridden = true;
    }
}

/// A manual choice survives later changes of disk source or media: after a
/// toggle, applying defaults leaves `auto_launch` as the user set it.
pub proof fn law_manual_override_persists(
    s: CreateWizardState,
    use_existing_disk: bool,
    iso_path: Option<String>,
)
    ensures
        ({
            let t = toggled(s);
            let changed = CreateWizardState { use_existing_disk, iso_path, ..t };
            synced(changed).auto_launch == t.auto_launch && synced(changed).auto_launch_overridden
        }),
{
}

/// Without a manual choice, the default follows the media source.
pub proof fn law_default_follows_media(s: CreateWizardState)
    requires
        !s.auto_launch_overridden,
    ensures
        synced(s).auto_launch == (s.use_existing_disk || s.iso_path is Some),
{
}

} // verus!
