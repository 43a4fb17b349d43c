use vstd::prelude::*;

verus! {

pub open spec fn digit_char(d: nat) -> char {
    seq!['0', '1', '2', '3', '4', '5', '6', '7', '8', '9'][d as int]
}

/// Decimal digits of `n`, most significant first, with no leading zeros.
pub open spec fn decimal(n: nat) -> Seq<char>
    decreases n,
{
    if n < 10 {
        seq![digit_char(n)]
    } else {
        decimal(n / 10).push(digit_char(n % 10))
    }
}

/// Exactly three decimal digits of `n < 1000`, zero-padded.
pub open spec fn three_digits(n: nat) -> Seq<char> {
    seq![digit_char(n / 100), digit_char((n / 10) % 10), digit_char(n % 10)]
}

/// Decimal digits of `n` in groups of three, separated by commas.
pub open spec fn grouped(n: nat) -> Seq<char>
    decreases n,
{
    if n < 1000 {
        decimal(n)
    } else {
        grouped(n / 1000) + seq![','] + three_digits(n % 1000)
    }
}

/// A duration of `s` seconds in its two largest units.
pub open spec fn duration_text(s: nat) -> Seq<char> {
    if s < 60 {
        decimal(s) + seq!['s']
    } else if s < 3600 {
        decimal(s / 60) + seq!['m'] + decimal(s % 60) + seq!['s']
    } else if s < 86400 {
        decimal(s / 3600) + seq!['h'] + decimal((s % 3600) / 60) + seq!['m']
    } else {
        decimal(s / 86400) + seq!['d'] + decimal((s % 86400) / 3600) + seq!['h']
    }
}

pub open spec fn repeated(c: char, n: nat) -> Seq<char> {
    Seq::new(n, |i: int| c)
}

/// Number of cells of a bar of `width` cells that `done` out of `total` fills.
pub open spec fn filled_cells(done: nat, total: nat, width: nat) -> nat {
    if done >= total {
        width
    } else {
        done * width / total
    }
}

pub open spec fn bar_text(done: nat, total: nat, width: nat) -> Seq<char> {
    let f = filled_cells(done, total, width);
    seq!['['] + repeated('=', f) + repeated(' ', (width - f) as nat) + seq![']']
}

fn digit_str(d: u64) -> (r: &'static str)
    requires
        d < 10,
    ensures
        r@ == seq![digit_char(d as nat)],
{
    let digits = "0123456789";
    proof {
        reveal_strlit("0123456789");
    }
    let r = digits.substring_char(d as usize, (d + 1) as usize);
    assert(r@ =~= seq![digit_char(d as nat)]);
    r
}

/// The decimal text of `n`.
pub fn decimal_text(n: u64) -> (r: String)
    ensures
        r@ == decimal(n as nat),
    decreases n,
{
    if n < 10 {
        let r = String::from_str(digit_str(n));
        r
    } else {
        let mut r = decimal_text(n / 10);
        r.append(digit_str(n % 10));
        r
    }
}

fn three_digit_text(n: u64) -> (r: String)
    requires
        n < 1000,
    ensures
        r@ == three_digits(n as nat),
{
    let mut r = String::from_str(digit_str(n / 100));
    r.append(digit_str((n / 10) % 10));
    r.append(digit_str(n % 10));
    assert(r@ =~= three_digits(n as nat));
    r
}

/// `n` in decimal with a comma between groups of three digits.
pub fn fmt_num(n: u64) -> (r: String)
    ensures
        r@ == grouped(n as nat),
    decreases n,
{
    if n < 1000 {
        decimal_text(n)
    } else {
        let mut r = fmt_num(n / 1000);
        r.append(",");
        proof {
            reveal_strlit(",");
        }
        let tail = three_digit_text(n % 1000);
        r.append(tail.as_str());
        assert(r@ =~= grouped(n as nat));
        r
    }
}

fn unit_text(num: u64, unit: &str, r: &mut String)
    ensures
        final(r)@ == old(r)@ + decimal(num as nat) + unit@,
{
    let d = decimal_text(num);
    r.append(d.as_str());
    r.append(unit);
}

/// A duration of `s` seconds: seconds below a minute, then minutes and
/// seconds, hours and minutes, days and hours.
pub fn fmt_time(s: u64) -> (r: String)
    ensures
        r@ == duration_text(s as nat),
{
    proof {
        reveal_strlit("s");
        reveal_strlit("m");
        reveal_strlit("h");
        reveal_strlit("d");
    }
    let mut r = String::new();
    if s < 60 {
        unit_text(s, "s", &mut r);
    } else if s < 3600 {
        unit_text(s / 60, "m", &mut r);
        unit_text(s % 60, "s", &mut r);
    } else if s < 86400 {
        unit_text(s / 3600, "h", &mut r);
        unit_text((s % 3600) / 60, "m", &mut r);
    } else {
        unit_text(s / 86400, "d", &mut r);
        unit_text((s % 86400) / 3600, "h", &mut r);
    }
    assert(r@ =~= duration_text(s as nat));
    r
}

fn push_repeated(r: &mut String, cell: &str, n: usize)
    requires
        cell@.len() == 1,
    ensures
        final(r)@ == old(r)@ + repeated(cell@[0], n as nat),
{
    let ghost start = r@;
    let mut i: usize = 0;
    while i < n
        invariant
            i <= n,
            cell@.len() == 1,
            r@ == start + repeated(cell@[0], i as nat),
        decreases n - i,
    {
        r.append(cell);
        i = i + 1;
        assert(r@ =~= start + repeated(cell@[0], i as nat));
    }
}

/// A text progress bar of `width` cells, filled in proportion to `done`
/// out of `total` and full once `done` reaches `total`.
pub fn progress_bar(done: u64, total: u64, width: usize) -> (r: String)
    requires
        total > 0,
    ensures
        r@ == bar_text(done as nat, total as nat, width as nat),
{
    let filled: usize = if done >= total {
        width
    } else {
        proof {
            let (d, w) = (done as int, width as int);
            assert(d * w <= 0xffff_ffff_ffff_ffff * 0xffff_ffff_ffff_ffff) by (nonlinear_arith)
                requires
                    0 <= d <= 0xffff_ffff_ffff_ffff,
                    0 <= w <= 0xffff_ffff_ffff_ffff,
            ;
        }
        let f = (done as u128) * (width as u128) / (total as u128);
        proof {
            let (d, w, t) = (done as int, width as int, total as int);
            assert(d * w <= t * w) by (nonlinear_arith)
                requires
                    0 <= d < t,
                    0 <= w,
            ;
            assert(d * w / t <= w) by (nonlinear_arith)
                requires
                    d * w <= t * w,
                    t > 0,
                    0 <= d,
                    0 <= w,
            ;
        }
        f as usize
    };
    proof {
        reveal_strlit("[");
        reveal_strlit("]");
        reveal_strlit("=");
        reveal_strlit(" ");
    }
    let mut r = String::from_str("[");
    push_repeated(&mut r, "=", filled);
    push_repeated(&mut r, " ", width - filled);
    r.append("]");
    assert(r@ =~= bar_text(done as nat, total as nat, width as nat));
    r
}

} // verus!
