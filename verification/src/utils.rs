//! Shared helpers: decimal rendering of counters and durations, and the
//! small trusted boundary to the clock, the id generator and the
//! process's random source.

use vstd::prelude::*;

verus! {

/// Character for one decimal digit.
pub open spec fn digit_char(d: nat) -> char {
    if d == 0 {
        '0'
    } else if d == 1 {
        '1'
    } else if d == 2 {
        '2'
    } else if d == 3 {
        '3'
    } else if d == 4 {
        '4'
    } else if d == 5 {
        '5'
    } else if d == 6 {
        '6'
    } else if d == 7 {
        '7'
    } else if d == 8 {
        '8'
    } else {
        '9'
    }
}

/// Decimal rendering of a natural number, most significant digit first.
pub open spec fn dec_digits(n: nat) -> Seq<char>
    decreases n,
{
    if n < 10 {
        seq![digit_char(n)]
    } else {
        dec_digits(n / 10) + seq![digit_char(n % 10)]
    }
}

fn digit_str(d: u64) -> (r: &'static str)
    requires
        d < 10,
    ensures
        r@ == seq![digit_char(d as nat)],
{
    proof {
        reveal_strlit("0");
        reveal_strlit("1");
        reveal_strlit("2");
        reveal_strlit("3");
        reveal_strlit("4");
        reveal_strlit("5");
        reveal_strlit("6");
        reveal_strlit("7");
        reveal_strlit("8");
        reveal_strlit("9");
    }
    let r: &'static str = match d {
        0 => "0",
        1 => "1",
        2 => "2",
        3 => "3",
        4 => "4",
        5 => "5",
        6 => "6",
        7 => "7",
        8 => "8",
        _ => "9",
    };
    proof {
        assert(r@ =~= seq![digit_char(d as nat)]);
    }
    r
}

/// Render an unsigned counter in decimal.
pub fn u64_to_string(n: u64) -> (r: String)
    ensures
        r@ == dec_digits(n as nat),
    decreases n,
{
    if n < 10 {
        String::from_str(digit_str(n))
    } else {
        let mut s = u64_to_string(n / 10);
        s.append(digit_str(n % 10));
        proof {
            assert(s@ =~= dec_digits(n as nat));
        }
        s
    }
}

/// What `format_duration` renders: days, hours and minutes appear only
/// while the leading component is positive, exactly as a truncating
/// division produces them.
pub open spec fn duration_view(seconds: int) -> Seq<char> {
    if seconds >= 0 {
        let days = seconds / 86400;
        let hours = (seconds % 86400) / 3600;
        let minutes = (seconds % 3600) / 60;
        let secs = seconds % 60;
        if days > 0 {
            dec_digits(days as nat) + "d "@ + dec_digits(hours as nat) + "h "@ + dec_digits(
                minutes as nat,
            ) + "m"@
        } else if hours > 0 {
            dec_digits(hours as nat) + "h "@ + dec_digits(minutes as nat) + "m"@
        } else if minutes > 0 {
            dec_digits(minutes as nat) + "m "@ + dec_digits(secs as nat) + "s"@
        } else {
            dec_digits(secs as nat) + "s"@
        }
    } else {
        let m = (-seconds) % 60;
        if m == 0 {
            "0s"@
        } else {
            seq!['-'] + dec_digits(m as nat) + "s"@
        }
    }
}

/// Format a duration in human-readable form.
pub fn format_duration(seconds: i64) -> (r: String)
    ensures
        r@ == duration_view(seconds as int),
{
    if seconds >= 0 {
        let s = seconds as u64;
        let days: u64 = s / 86400;
        let hours: u64 = (s % 86400) / 3600;
        let minutes: u64 = (s % 3600) / 60;
        let secs: u64 = s % 60;
        if days > 0 {
            let mut out = u64_to_string(days);
            out.append("d ");
            out.append(u64_to_string(hours).as_str());
            out.append("h ");
            out.append(u64_to_string(minutes).as_str());
            out.append("m");
            proof {
                assert(out@ =~= duration_view(seconds as int));
            }
            out
        } else if hours > 0 {
            let mut out = u64_to_string(hours);
            out.append("h ");
            out.append(u64_to_string(minutes).as_str());
            out.append("m");
            proof {
                assert(out@ =~= duration_view(seconds as int));
            }
            out
        } else if minutes > 0 {
            let mut out = u64_to_string(minutes);
            out.append("m ");
            out.append(u64_to_string(secs).as_str());
            out.append("s");
            proof {
                assert(out@ =~= duration_view(seconds as int));
            }
            out
        } else {
            let mut out = u64_to_string(secs);
            out.append("s");
            proof {
                assert(out@ =~= duration_view(seconds as int));
            }
            out
        }
    } else {
        let mag: u64 = (-(seconds as i128)) as u64;
        let m: u64 = mag % 60;
        if m == 0 {
            let out = String::from_str("0s");
            proof {
                assert(out@ =~= duration_view(seconds as int));
            }
            out
        } else {
            let mut out = String::from_str("-");
            proof {
                reveal_strlit("-");
                assert("-"@ =~= seq!['-']);
            }
            out.append(u64_to_string(m).as_str());
            out.append("s");
            proof {
                assert(out@ =~= duration_view(seconds as int));
            }
            out
        }
    }
}

/// Unit suffix for a byte-size class.
pub open spec fn byte_unit_view(k: nat) -> Seq<char> {
    if k == 0 {
        "B"@
    } else if k == 1 {
        "KB"@
    } else if k == 2 {
        "MB"@
    } else if k == 3 {
        "GB"@
    } else {
        "TB"@
    }
}

/// Size class of a byte count: the largest power of 1024 (up to four)
/// that does not exceed it.
pub open spec fn byte_class(bytes: nat) -> nat {
    if bytes < 1024 {
        0
    } else if bytes < 1048576 {
        1
    } else if bytes < 1073741824 {
        2
    } else if bytes < 1099511627776 {
        3
    } else {
        4
    }
}

/// Divisor belonging to a size class.
pub open spec fn byte_divisor(k: nat) -> nat {
    if k == 0 {
        1
    } else if k == 1 {
        1024
    } else if k == 2 {
        1048576
    } else if k == 3 {
        1073741824
    } else {
        1099511627776
    }
}

/// What `format_bytes` renders: the scaled value with two decimals,
/// truncated, then the unit.
pub open spec fn bytes_view(bytes: nat) -> Seq<char> {
    let k = byte_class(bytes);
    let h = bytes * 100 / byte_divisor(k);
    dec_digits(h / 100) + "."@ + seq![digit_char(h % 100 / 10), digit_char(h % 10)] + " "@
        + byte_unit_view(k)
}

/// Format a byte count in human-readable form.
pub fn format_bytes(bytes: u64) -> (r: String)
    ensures
        r@ == bytes_view(bytes as nat),
{
    let divisor: u64 = if bytes < 1024 {
        1
    } else if bytes < 1048576 {
        1024
    } else if bytes < 1073741824 {
        1048576
    } else if bytes < 1099511627776 {
        1073741824
    } else {
        1099511627776
    };
    let unit: &'static str = if bytes < 1024 {
        "B"
    } else if bytes < 1048576 {
        "KB"
    } else if bytes < 1073741824 {
        "MB"
    } else if bytes < 1099511627776 {
        "GB"
    } else {
        "TB"
    };
    let h128: u128 = (bytes as u128) * 100 / (divisor as u128);
    proof {
        assert(divisor as nat == byte_divisor(byte_class(bytes as nat)));
        assert(h128 < 0x1_0000_0000_0000_0000) by (nonlinear_arith)
            requires
                h128 == (bytes as int) * 100 / (divisor as int),
                bytes < 1024 || divisor >= 1024,
                bytes <= u64::MAX,
                divisor >= 1,
        ;
    }
    let h: u64 = h128 as u64;
    proof {
        assert(h as nat == (bytes as nat) * 100 / byte_divisor(byte_class(bytes as nat)));
    }
    let mut out = u64_to_string(h / 100);
    out.append(".");
    out.append(digit_str(h % 100 / 10));
    out.append(digit_str(h % 10));
    out.append(" ");
    out.append(unit);
    proof {
        assert(out@ =~= bytes_view(bytes as nat));
    }
    out
}

/// Ranking order on (key, position) pairs: larger keys first, equal
/// keys in their original order.
pub open spec fn pair_precedes(a: (u64, usize), b: (u64, usize)) -> bool {
    a.0 > b.0 || (a.0 == b.0 && a.1 <= b.1)
}

/// A pair sequence in ranking order.
pub open spec fn pairs_sorted(s: Seq<(u64, usize)>) -> bool {
    forall|i: int, j: int|
        0 <= i < j < s.len() ==> pair_precedes(#[trigger] s[i], #[trigger] s[j])
}

/// Sort (key, position) pairs into ranking order: descending by key,
/// ties in their original order. The result holds exactly the given
/// pairs.
pub fn sort_pairs_desc(v: &mut Vec<(u64, usize)>)
    ensures
        final(v)@.len() == old(v)@.len(),
        pairs_sorted(final(v)@),
        final(v)@.to_multiset() == old(v)@.to_multiset(),
{
    broadcast use vstd::seq_lib::group_to_multiset_ensures;

    let n = v.len();
    if n <= 1 {
        return ;
    }
    let mut i: usize = 1;
    while i < n
        invariant
            1 <= i <= n,
            v@.len() == n,
            v@.to_multiset() == old(v)@.to_multiset(),
            forall|a: int, b: int|
                0 <= a < b < i ==> pair_precedes(#[trigger] v@[a], #[trigger] v@[b]),
        decreases n - i,
    {
        let mut j: usize = i;
        while j > 0 && !pair_comes_first(v[j - 1], v[j])
            invariant
                0 <= j <= i < n,
                v@.len() == n,
                v@.to_multiset() == old(v)@.to_multiset(),
                forall|a: int, b: int|
                    0 <= a < b <= i && a != j && b != j ==> pair_precedes(
                        #[trigger] v@[a],
                        #[trigger] v@[b],
                    ),
                forall|b: int| j < b <= i ==> pair_precedes(v@[j as int], #[trigger] v@[b]),
            decreases j,
        {
            let a = v[j - 1];
            let b = v[j];
            let ghost before = v@;
            v.set(j - 1, b);
            v.set(j, a);
            proof {
                lemma_swap_preserves_multiset(before, j - 1, j as int);
                assert(v@ =~= before.update(j - 1, before[j as int]).update(
                    j as int,
                    before[j - 1],
                ));
            }
            j = j - 1;
        }
        i = i + 1;
    }
}

/// Swapping two positions of a sequence keeps its multiset.
proof fn lemma_swap_preserves_multiset(s: Seq<(u64, usize)>, i: int, j: int)
    requires
        0 <= i < s.len(),
        0 <= j < s.len(),
        i != j,
    ensures
        s.update(i, s[j]).update(j, s[i]).to_multiset() == s.to_multiset(),
{
    broadcast use vstd::seq_lib::group_to_multiset_ensures;

    let a = s[i];
    let b = s[j];
    let s1 = s.update(i, b);
    let s2 = s1.update(j, a);
    assert(s1.to_multiset() == s.to_multiset().remove(a).insert(b));
    assert(s1[j] == b);
    assert(s2.to_multiset() == s1.to_multiset().remove(b).insert(a));
    assert(s.contains(a));
    assert(s.to_multiset().contains(a));
    assert(s2.to_multiset() =~= s.to_multiset());
}

fn pair_comes_first(a: (u64, usize), b: (u64, usize)) -> (r: bool)
    ensures
        r == pair_precedes(a, b),
{
    a.0 > b.0 || (a.0 == b.0 && a.1 <= b.1)
}

/// Pairs drawn from a keyed sequence keep valid positions and their
/// keys through any reordering.
pub proof fn lemma_sorted_pairs_valid(
    orig: Seq<(u64, usize)>,
    sorted: Seq<(u64, usize)>,
    keyf: spec_fn(int) -> u64,
)
    requires
        orig.len() <= usize::MAX,
        sorted.to_multiset() == orig.to_multiset(),
        forall|i: int| 0 <= i < orig.len() ==> #[trigger] orig[i] == (keyf(i), i as usize),
    ensures
        sorted.len() == orig.len(),
        forall|i: int|
            0 <= i < sorted.len() ==> (#[trigger] sorted[i]).1 < orig.len() && sorted[i].0 == keyf(
                sorted[i].1 as int,
            ),
{
    broadcast use vstd::seq_lib::group_to_multiset_ensures;

    assert(sorted.len() == orig.len()) by {
        assert(sorted.to_multiset().len() == sorted.len());
        assert(orig.to_multiset().len() == orig.len());
    }
    assert forall|i: int|
        0 <= i < sorted.len() implies (#[trigger] sorted[i]).1 < orig.len() && sorted[i].0 == keyf(
        sorted[i].1 as int,
    ) by {
        assert(sorted.contains(sorted[i]));
        assert(sorted.to_multiset().contains(sorted[i]));
        assert(orig.to_multiset().contains(sorted[i]));
        assert(orig.contains(sorted[i]));
        let k = choose|k: int| 0 <= k < orig.len() && orig[k] == sorted[i];
        assert(orig[k] == (keyf(k), k as usize));
        assert(sorted[i].1 == k as usize);
    }
}

/// Integer square root: the greatest value whose square does not
/// exceed the argument.
pub fn isqrt_u128(n: u128) -> (r: u128)
    ensures
        r * r <= n,
        n < (r + 1) * (r + 1),
{
    if n == 0 {
        return 0;
    }
    let mut lo: u128 = 0;
    let mut hi: u128 = 0x1_0000_0000_0000_0000;
    while lo + 1 < hi
        invariant
            lo < hi,
            hi <= 0x1_0000_0000_0000_0000,
            lo * lo <= n,
            (hi as int) * (hi as int) > n,
        decreases hi - lo,
    {
        let mid: u128 = lo + (hi - lo) / 2;
        proof {
            assert((mid as int) * (mid as int) <= u128::MAX) by (nonlinear_arith)
                requires
                    mid <= 0xffff_ffff_ffff_ffffu128,
            ;
        }
        if mid * mid <= n {
            lo = mid;
        } else {
            hi = mid;
        }
    }
    proof {
        assert(((lo + 1) as int) * ((lo + 1) as int) >= (hi as int) * (hi as int))
            by (nonlinear_arith)
            requires
                lo + 1 >= hi,
                hi >= 1,
        ;
    }
    lo
}

/// Relies on `time::OffsetDateTime::now_utc`: the wall clock read as whole
/// seconds since the Unix epoch. Nothing is promised of the value; callers
/// treat any reading as possible.
#[verifier::external_body]
pub fn now_seconds() -> i64 {
    time::OffsetDateTime::now_utc().unix_timestamp()
}

/// Relies on `uuid::Uuid::new_v4`: a freshly generated random identifier,
/// rendered in its hyphenated text form. The value is random, so nothing
/// is promised of it.
#[verifier::external_body]
pub fn generate_id() -> String {
    uuid::Uuid::new_v4().to_string()
}

/// Relies on `num_cpus::get`, which always reports at least one CPU.
#[verifier::external_body]
pub fn worker_count() -> (r: usize)
    ensures
        1 <= r,
{
    num_cpus::get()
}

/// Relies on `rand::random`: sixteen uniformly drawn bits used as
/// forecast jitter. The value is random, so nothing is promised.
#[verifier::external_body]
pub fn random_u16() -> u16 {
    rand::random::<u16>()
}

/// Relies on `str`'s equality, which compares the character content.
#[verifier::external_body]
pub fn str_equal(a: &str, b: &str) -> (r: bool)
    ensures
        r == (a@ == b@),
{
    a == b
}

} // verus!
