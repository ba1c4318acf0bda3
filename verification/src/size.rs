//! Size accounting: summing the raw byte sizes of the considered directories
//! and rendering byte counts in the four-tier human-readable scheme.

use vstd::prelude::*;
use vstd::arithmetic::div_mod::lemma_fundamental_div_mod;
use vstd::arithmetic::div_mod::lemma_mod_division_less_than_divisor;
use crate::entries::Entry;

verus! {

/// Unit tier of a human-readable size. The scheme stops at gigabytes.
#[derive(Clone, Copy, PartialEq, Eq, Structural, Debug)]
pub enum SizeUnit {
    Bytes,
    Kilobytes,
    Megabytes,
    Gigabytes,
}

/// A byte count rendered for humans: `whole` units, two decimal digits held
/// as hundredths in `cents`, and the unit tier.
#[derive(Clone, Copy, PartialEq, Eq, Structural, Debug)]
pub struct HumanSize {
    pub whole: u64,
    pub cents: u64,
    pub unit: SizeUnit,
}

pub const KIB: u64 = 1024;
pub const MIB: u64 = 1048576;
pub const GIB: u64 = 1073741824;
pub const TIB: u64 = 1099511627776;

/// How many raw bytes one whole unit of a tier stands for.
pub open spec fn unit_scale(u: SizeUnit) -> int {
    match u {
        SizeUnit::Bytes => 1,
        SizeUnit::Kilobytes => KIB as int,
        SizeUnit::Megabytes => MIB as int,
        SizeUnit::Gigabytes => GIB as int,
    }
}

/// The rendering of `n` bytes: the first tier whose whole count stays below
/// 1024, with the fraction truncated to hundredths. A count of a terabyte or
/// more exceeds the scheme and collapses to the degenerate `0.00 B`.
pub open spec fn spec_human_size(n: u64) -> HumanSize {
    if n < KIB {
        HumanSize { whole: n, cents: 0, unit: SizeUnit::Bytes }
    } else if n < MIB {
        HumanSize {
            whole: (n as int / KIB as int) as u64,
            cents: ((n as int % KIB as int) * 100 / KIB as int) as u64,
            unit: SizeUnit::Kilobytes,
        }
    } else if n < GIB {
        HumanSize {
            whole: (n as int / MIB as int) as u64,
            cents: ((n as int % MIB as int) * 100 / MIB as int) as u64,
            unit: SizeUnit::Megabytes,
        }
    } else if n < TIB {
        HumanSize {
            whole: (n as int / GIB as int) as u64,
            cents: ((n as int % GIB as int) * 100 / GIB as int) as u64,
            unit: SizeUnit::Gigabytes,
        }
    } else {
        HumanSize { whole: 0, cents: 0, unit: SizeUnit::Bytes }
    }
}

/// Render a raw byte count in the four-tier unit scheme.
pub fn get_human_readable_size(size: u64) -> (r: HumanSize)
    ensures
        r == spec_human_size(size),
{
    if size < KIB {
        HumanSize { whole: size, cents: 0, unit: SizeUnit::Bytes }
    } else if size < MIB {
        HumanSize {
            whole: size / KIB,
            cents: (size % KIB) * 100 / KIB,
            unit: SizeUnit::Kilobytes,
        }
    } else if size < GIB {
        HumanSize {
            whole: size / MIB,
            cents: (size % MIB) * 100 / MIB,
            unit: SizeUnit::Megabytes,
        }
    } else if size < TIB {
        HumanSize {
            whole: size / GIB,
            cents: (size % GIB) * 100 / GIB,
            unit: SizeUnit::Gigabytes,
        }
    } else {
        HumanSize { whole: 0, cents: 0, unit: SizeUnit::Bytes }
    }
}

/// The printed label of a unit tier.
pub fn unit_label(u: SizeUnit) -> (r: &'static str)
    ensures
        r@ == spec_unit_label(u),
{
    match u {
        SizeUnit::Bytes => "B",
        SizeUnit::Kilobytes => "KB",
        SizeUnit::Megabytes => "MB",
        SizeUnit::Gigabytes => "GB",
    }
}

pub open spec fn spec_unit_label(u: SizeUnit) -> Seq<char> {
    match u {
        SizeUnit::Bytes => "B"@,
        SizeUnit::Kilobytes => "KB"@,
        SizeUnit::Megabytes => "MB"@,
        SizeUnit::Gigabytes => "GB"@,
    }
}

/// The raw byte sum of a sequence of entries.
pub open spec fn spec_size_sum(entries: Seq<Entry>) -> int
    decreases entries.len(),
{
    if entries.len() == 0 {
        0
    } else {
        spec_size_sum(entries.drop_last()) + entries.last().size
    }
}

proof fn lemma_size_sum_prefix_le(entries: Seq<Entry>, i: int, j: int)
    requires
        0 <= i <= j <= entries.len(),
    ensures
        spec_size_sum(entries.subrange(0, i)) <= spec_size_sum(entries.subrange(0, j)),
    decreases j - i,
{
    if i < j {
        lemma_size_sum_prefix_le(entries, i, j - 1);
        assert(entries.subrange(0, j).drop_last() =~= entries.subrange(0, j - 1));
    }
}

/// The aggregate figure to be freed: the raw sizes are summed first and the
/// total is converted once, so the per-directory renderings and the aggregate
/// report the same underlying bytes. `None` exactly when the raw sum does not
/// fit in 64 bits.
pub fn get_freeable_size(directories: &Vec<Entry>) -> (r: Option<(u64, HumanSize)>)
    ensures
        match r {
            Some(t) => t.0 == spec_size_sum(directories@) && t.1 == spec_human_size(t.0),
            None => spec_size_sum(directories@) > u64::MAX,
        },
{
    let mut total: u64 = 0;
    let n = directories.len();
    let mut i: usize = 0;
    while i < n
        invariant
            i <= n,
            n == directories@.len(),
            total == spec_size_sum(directories@.subrange(0, i as int)),
        decreases n - i,
    {
        let s = directories[i].size;
        proof {
            assert(directories@.subrange(0, i + 1 as int).drop_last() =~= directories@.subrange(
                0,
                i as int,
            ));
            assert(directories@.subrange(0, i + 1 as int).last() == directories@[i as int]);
        }
        match total.checked_add(s) {
            Some(t) => {
                total = t;
            },
            None => {
                proof {
                    lemma_size_sum_prefix_le(directories@, i + 1 as int, n as int);
                    assert(directories@.subrange(0, n as int) =~= directories@);
                }
                return None;
            },
        }
        i += 1;
    }
    proof {
        assert(directories@.subrange(0, n as int) =~= directories@);
    }
    Some((total, get_human_readable_size(total)))
}

/// Exact unit boundaries render as one whole unit of their own tier, never
/// as 1024 of the tier below.
pub proof fn lemma_unit_boundary()
    ensures
        spec_human_size(1) == (HumanSize { whole: 1, cents: 0, unit: SizeUnit::Bytes }),
        spec_human_size(KIB) == (HumanSize { whole: 1, cents: 0, unit: SizeUnit::Kilobytes }),
        spec_human_size(MIB) == (HumanSize { whole: 1, cents: 0, unit: SizeUnit::Megabytes }),
        spec_human_size(GIB) == (HumanSize { whole: 1, cents: 0, unit: SizeUnit::Gigabytes }),
{
}

proof fn lemma_scaled_div_brackets(n: int, b: int)
    requires
        0 <= n,
        1 <= b,
    ensures
        ({
            let q = n / b;
            let c = (n % b) * 100 / b;
            (q * 100 + c) * b <= n * 100 < (q * 100 + c + 1) * b
        }),
{
    let q = n / b;
    let m = n % b;
    let c = m * 100 / b;
    lemma_fundamental_div_mod(n, b);
    lemma_mod_division_less_than_divisor(n, b);
    lemma_fundamental_div_mod(m * 100, b);
    lemma_mod_division_less_than_divisor(m * 100, b);
    assert(c * b <= m * 100 < (c + 1) * b) by (nonlinear_arith)
        requires
            m * 100 == b * c + (m * 100) % b,
            0 <= (m * 100) % b < b,
    ;
    assert((q * 100 + c) * b <= n * 100 < (q * 100 + c + 1) * b) by (nonlinear_arith)
        requires
            n == b * q + m,
            c * b <= m * 100 < (c + 1) * b,
    ;
}

/// Rendering loses nothing beyond the two decimal digits: scaling the
/// rendered figure back to raw bytes brackets the original count within one
/// hundredth of a unit. Byte counts of a terabyte or more fall outside the
/// scheme and are excluded.
pub proof fn lemma_human_size_faithful(n: u64)
    requires
        n < TIB,
    ensures
        ({
            let r = spec_human_size(n);
            let s = unit_scale(r.unit);
            (r.whole * 100 + r.cents) * s <= n * 100 < (r.whole * 100 + r.cents + 1) * s
        }),
{
    if n < KIB {
        lemma_scaled_div_brackets(n as int, 1);
    } else if n < MIB {
        lemma_scaled_div_brackets(n as int, KIB as int);
    } else if n < GIB {
        lemma_scaled_div_brackets(n as int, MIB as int);
    } else {
        lemma_scaled_div_brackets(n as int, GIB as int);
    }
}

} // verus!
