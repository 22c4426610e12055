//! The widths of the columns of a table: fixed, by percentage, or shared.

use vstd::prelude::*;
use crate::deep_print_schema::{TableColumn, TableColumnWidth};
use crate::text::chars_of;
use crate::units::{clamp, sat_add, sat_sub, scale, scaled};

verus! {

/// The largest percentage that is told apart, in thousandths of a percent.
pub const PERCENT_CAP: u32 = 1000000000;

/// The end of `s` once the percent signs at its end are taken away.
pub open spec fn percent_body_end(s: Seq<char>, j: int) -> int
    decreases j,
{
    if 0 < j <= s.len() && s[j - 1] == '%' {
        percent_body_end(s, j - 1)
    } else {
        j
    }
}

/// The first position from `i` on, before `end`, that holds a dot; `end` if none does.
pub open spec fn dot_position(s: Seq<char>, i: int, end: int) -> int
    decreases end - i,
{
    if 0 <= i < end <= s.len() && s[i] != '.' {
        dot_position(s, i + 1, end)
    } else if i < end {
        i
    } else {
        end
    }
}

pub open spec fn is_digit(c: char) -> bool {
    '0' <= c && c <= '9'
}

pub open spec fn all_digits(s: Seq<char>) -> bool {
    forall|i: int| 0 <= i < s.len() ==> is_digit(#[trigger] s[i])
}

/// The number that the decimal digits `s` write.
pub open spec fn digits_value(s: Seq<char>) -> int
    decreases s.len(),
{
    if s.len() == 0 {
        0
    } else {
        digits_value(s.drop_last()) * 10 + (s.last() as int - '0' as int)
    }
}

/// The digit of `s` at position `i`, zero where `s` ends before it.
pub open spec fn digit_or_zero(s: Seq<char>, i: int) -> int {
    if 0 <= i < s.len() {
        s[i] as int - '0' as int
    } else {
        0
    }
}

/// The thousandths that the digits after a decimal point write; digits
/// after the third are dropped.
pub open spec fn thousandths(frac: Seq<char>) -> int {
    digit_or_zero(frac, 0) * 100 + digit_or_zero(frac, 1) * 10 + digit_or_zero(frac, 2)
}

/// The percentage that `s` writes, in thousandths of a percent and no more
/// than `PERCENT_CAP`. `s` is a decimal number, with or without a fraction,
/// followed by any number of percent signs; every other text counts as zero.
pub open spec fn percent_spec(s: Seq<char>) -> int {
    let end = percent_body_end(s, s.len() as int);
    let dot = dot_position(s, 0, end);
    let whole = s.subrange(0, dot);
    let frac = if dot < end {
        s.subrange(dot + 1, end)
    } else {
        Seq::empty()
    };
    if all_digits(whole) && all_digits(frac) && whole.len() + frac.len() > 0 {
        let v = digits_value(whole) * 1000 + thousandths(frac);
        if v > PERCENT_CAP {
            PERCENT_CAP as int
        } else {
            v
        }
    } else {
        0
    }
}

fn digit(c: char) -> (r: Option<u32>)
    ensures
        match r {
            Some(d) => is_digit(c) && d == c as int - '0' as int && d <= 9,
            None => !is_digit(c),
        },
{
    if '0' <= c && c <= '9' {
        Some(c as u32 - '0' as u32)
    } else {
        None
    }
}

proof fn lemma_digits_value_nonneg(s: Seq<char>)
    requires
        all_digits(s),
    ensures
        digits_value(s) >= 0,
    decreases s.len(),
{
    if s.len() > 0 {
        assert(all_digits(s.drop_last())) by {
            assert forall|i: int| 0 <= i < s.drop_last().len() implies is_digit(
                #[trigger] s.drop_last()[i],
            ) by {
                assert(s.drop_last()[i] == s[i]);
            }
        }
        lemma_digits_value_nonneg(s.drop_last());
        assert(is_digit(s[s.len() - 1]));
    }
}

/// Reads a percentage such as "20%" or "12.5%".
pub fn parse_percent(s: &str) -> (r: u32)
    ensures
        r == percent_spec(s@),
{
    let cs = chars_of(s);
    let mut end: usize = cs.len();
    while end > 0 && cs[end - 1] == '%'
        invariant
            cs@ == s@,
            end <= cs.len(),
            percent_body_end(s@, s@.len() as int) == percent_body_end(s@, end as int),
        decreases end,
    {
        end -= 1;
    }
    // The whole part: digits up to the dot or the end.
    let mut whole: u32 = 0;
    let mut i: usize = 0;
    let mut ok = true;
    while i < end && cs[i] != '.'
        invariant
            cs@ == s@,
            i <= end <= cs.len(),
            dot_position(s@, 0, end as int) == dot_position(s@, i as int, end as int),
            ok == all_digits(s@.subrange(0, i as int)),
            ok ==> whole <= PERCENT_CAP,
            ok ==> whole == if digits_value(s@.subrange(0, i as int)) > PERCENT_CAP {
                PERCENT_CAP as int
            } else {
                digits_value(s@.subrange(0, i as int))
            },
        decreases end - i,
    {
        let ghost before = s@.subrange(0, i as int);
        let ghost now = s@.subrange(0, i + 1);
        assert(now.drop_last() =~= before);
        assert(now.last() == cs@[i as int]);
        match digit(cs[i]) {
            Some(d) => {
                if ok {
                    proof {
                        lemma_digits_value_nonneg(before);
                        assert(all_digits(now)) by {
                            assert forall|j: int| 0 <= j < now.len() implies is_digit(
                                #[trigger] now[j],
                            ) by {
                                if j < i {
                                    assert(now[j] == before[j]);
                                }
                            }
                        }
                    }
                    let next: u64 = (whole as u64) * 10 + (d as u64);
                    whole = if next > PERCENT_CAP as u64 {
                        PERCENT_CAP
                    } else {
                        next as u32
                    };
                } else {
                    proof {
                        if all_digits(now) {
                            assert forall|j: int| 0 <= j < before.len() implies is_digit(
                                #[trigger] before[j],
                            ) by {
                                assert(before[j] == now[j]);
                            }
                        }
                    }
                }
            },
            None => {
                proof {
                    if all_digits(now) {
                        assert(is_digit(now[i as int]));
                    }
                }
                ok = false;
            },
        }
        i += 1;
    }
    let dot = i;
    let ghost whole_part = s@.subrange(0, dot as int);
    let ghost frac_part = if dot < end {
        s@.subrange(dot + 1, end as int)
    } else {
        Seq::<char>::empty()
    };
    // The fraction: every character after the dot is a digit; three count.
    let mut frac: u32 = 0;
    let mut frac_ok = true;
    let mut frac_len: usize = 0;
    if dot < end {
        let mut j: usize = dot + 1;
        frac_len = end - j;
        let d0 = if j < end {
            digit(cs[j])
        } else {
            Some(0)
        };
        let d1 = if frac_len > 1 {
            digit(cs[j + 1])
        } else {
            Some(0)
        };
        let d2 = if frac_len > 2 {
            digit(cs[j + 2])
        } else {
            Some(0)
        };
        while j < end
            invariant
                cs@ == s@,
                dot < j <= end <= cs.len(),
                frac_ok == all_digits(s@.subrange(dot + 1, j as int)),
            decreases end - j,
        {
            let ghost before = s@.subrange(dot + 1, j as int);
            let ghost now = s@.subrange(dot + 1, j + 1);
            match digit(cs[j]) {
                Some(_d) => {
                    proof {
                        if frac_ok {
                            assert forall|k: int| 0 <= k < now.len() implies is_digit(
                                #[trigger] now[k],
                            ) by {
                                if k < before.len() {
                                    assert(now[k] == before[k]);
                                }
                            }
                        } else {
                            if all_digits(now) {
                                assert forall|k: int| 0 <= k < before.len() implies is_digit(
                                    #[trigger] before[k],
                                ) by {
                                    assert(before[k] == now[k]);
                                }
                            }
                        }
                    }
                },
                None => {
                    proof {
                        if all_digits(now) {
                            assert(is_digit(now[j - dot - 1]));
                        }
                    }
                    frac_ok = false;
                },
            }
            j += 1;
        }
        match (d0, d1, d2) {
            (Some(a), Some(b), Some(c)) => {
                frac = a * 100 + b * 10 + c;
                assert(frac == thousandths(frac_part));
            },
            _ => {
                proof {
                    if all_digits(frac_part) {
                        if dot + 1 < end {
                            assert(is_digit(frac_part[0]));
                        }
                        if dot + 2 < end {
                            assert(is_digit(frac_part[1]));
                        }
                        if dot + 3 < end {
                            assert(is_digit(frac_part[2]));
                        }
                    }
                }
                assert(!frac_ok);
            },
        }
    } else {
        assert(all_digits(frac_part));
    }
    if ok && frac_ok && (dot > 0 || frac_len > 0) {
        proof {
            lemma_digits_value_nonneg(whole_part);
        }
        let v: u64 = (whole as u64) * 1000 + (frac as u64);
        if v > PERCENT_CAP as u64 {
            PERCENT_CAP
        } else {
            v as u32
        }
    } else {
        0
    }
}

/// The fixed width of a column, zero for a column of another kind.
pub open spec fn fixed_part(col: TableColumn) -> int {
    match col.width {
        Some(TableColumnWidth::Fixed(w)) => w as int,
        _ => 0,
    }
}

/// The widths of the fixed columns among the first `k`, summed up.
pub open spec fn fixed_used(cols: Seq<TableColumn>, k: int) -> int
    decreases k,
{
    if k <= 0 {
        0
    } else {
        clamp(fixed_used(cols, k - 1) + fixed_part(cols[k - 1]))
    }
}

/// What the fixed columns leave of the table's width, never less than zero.
pub open spec fn remaining_width(cols: Seq<TableColumn>, total: int) -> int {
    let left = clamp(total - fixed_used(cols, cols.len() as int));
    if left < 0 {
        0
    } else {
        left
    }
}

/// The width of a percentage column, zero for a column of another kind:
/// its share of what the fixed columns leave.
pub open spec fn percent_part(col: TableColumn, remaining: int) -> int {
    match col.width {
        Some(TableColumnWidth::Percentage(p)) => clamp(scaled(remaining, percent_spec(p@), 100000)),
        _ => 0,
    }
}

/// The widths of the percentage columns among the first `k`, summed up.
pub open spec fn percent_used(cols: Seq<TableColumn>, remaining: int, k: int) -> int
    decreases k,
{
    if k <= 0 {
        0
    } else {
        clamp(percent_used(cols, remaining, k - 1) + percent_part(cols[k - 1], remaining))
    }
}

/// The number of columns without a width among the first `k`.
pub open spec fn auto_count(cols: Seq<TableColumn>, k: int) -> int
    decreases k,
{
    if k <= 0 {
        0
    } else {
        auto_count(cols, k - 1) + if cols[k - 1].width is None {
            1int
        } else {
            0int
        }
    }
}

/// The width of each column without a width of its own: an equal share of
/// what the fixed and the percentage columns leave, zero if they leave nothing.
pub open spec fn auto_width(cols: Seq<TableColumn>, total: int) -> int {
    let remaining = remaining_width(cols, total);
    let left = remaining - percent_used(cols, remaining, cols.len() as int);
    let n = auto_count(cols, cols.len() as int);
    if left <= 0 || n <= 0 {
        0
    } else {
        left / n
    }
}

/// The width of column `i` of a table that is `total` wide. A fixed column
/// has its own width; a percentage column has its share of what the fixed
/// columns leave; the others share equally what is left after both.
pub open spec fn column_width(cols: Seq<TableColumn>, total: int, i: int) -> int {
    match cols[i].width {
        Some(TableColumnWidth::Fixed(w)) => w as int,
        Some(TableColumnWidth::Percentage(_)) => percent_part(
            cols[i],
            remaining_width(cols, total),
        ),
        None => auto_width(cols, total),
    }
}

/// The widths of all columns.
pub open spec fn column_widths_spec(cols: Seq<TableColumn>, total: int) -> Seq<i64> {
    Seq::new(cols.len(), |i: int| column_width(cols, total, i) as i64)
}

proof fn lemma_percent_used_nonneg(cols: Seq<TableColumn>, remaining: int, k: int)
    requires
        remaining >= 0,
    ensures
        percent_used(cols, remaining, k) >= 0,
    decreases k,
{
    if k > 0 {
        lemma_percent_used_nonneg(cols, remaining, k - 1);
        lemma_percent_part_nonneg(cols[k - 1], remaining);
    }
}

proof fn lemma_percent_part_nonneg(col: TableColumn, remaining: int)
    requires
        remaining >= 0,
    ensures
        percent_part(col, remaining) >= 0,
{
    match col.width {
        Some(TableColumnWidth::Percentage(p)) => {
            let q = percent_spec(p@);
            assert(q >= 0) by {
                let end = percent_body_end(p@, p@.len() as int);
                let dot = dot_position(p@, 0, end);
                let whole = p@.subrange(0, dot);
                if all_digits(whole) {
                    lemma_digits_value_nonneg(whole);
                }
            }
            assert(remaining * q >= 0) by (nonlinear_arith)
                requires
                    remaining >= 0,
                    q >= 0,
            ;
            assert((remaining * q) / 100000 >= 0);
        },
        _ => {},
    }
}

/// Resolves the widths of the columns of a table that is `total` wide.
pub fn column_widths(columns: &Vec<TableColumn>, total: i64) -> (widths: Vec<i64>)
    ensures
        widths@ == column_widths_spec(columns@, total as int),
{
    let n = columns.len();
    let mut fixed: i64 = 0;
    let mut autos: usize = 0;
    let mut k: usize = 0;
    while k < n
        invariant
            n == columns.len(),
            k <= n,
            fixed == fixed_used(columns@, k as int),
            autos == auto_count(columns@, k as int),
            autos <= k,
        decreases n - k,
    {
        match &columns[k].width {
            Some(TableColumnWidth::Fixed(w)) => {
                fixed = sat_add(fixed, *w);
            },
            Some(TableColumnWidth::Percentage(_)) => {},
            None => {
                autos = autos + 1;
            },
        }
        k += 1;
    }
    let left = sat_sub(total, fixed);
    let remaining: i64 = if left < 0 {
        0
    } else {
        left
    };
    let mut used: i64 = 0;
    let mut widths: Vec<i64> = Vec::new();
    k = 0;
    while k < n
        invariant
            n == columns.len(),
            k <= n,
            remaining == remaining_width(columns@, total as int),
            remaining >= 0,
            used == percent_used(columns@, remaining as int, k as int),
            widths@.len() == k,
            forall|i: int|
                0 <= i < k ==> (columns@[i].width is Some ==> #[trigger] widths@[i] == column_width(
                    columns@,
                    total as int,
                    i,
                )),
        decreases n - k,
    {
        match &columns[k].width {
            Some(TableColumnWidth::Fixed(w)) => {
                widths.push(*w);
            },
            Some(TableColumnWidth::Percentage(p)) => {
                let share = scale(remaining, parse_percent(p.as_str()), 100000);
                widths.push(share);
                used = sat_add(used, share);
            },
            None => {
                widths.push(0);
            },
        }
        k += 1;
    }
    proof {
        lemma_percent_used_nonneg(columns@, remaining as int, n as int);
    }
    let spare = remaining - used;
    let share: i64 = if spare <= 0 || autos == 0 {
        0
    } else {
        ((spare as i128) / (autos as i128)) as i64
    };
    assert(share == auto_width(columns@, total as int));
    k = 0;
    while k < n
        invariant
            n == columns.len(),
            k <= n,
            widths@.len() == n,
            share == auto_width(columns@, total as int),
            forall|i: int|
                0 <= i < n ==> (columns@[i].width is Some ==> #[trigger] widths@[i] == column_width(
                    columns@,
                    total as int,
                    i,
                )),
            forall|i: int|
                0 <= i < k ==> (columns@[i].width is None ==> #[trigger] widths@[i] == column_width(
                    columns@,
                    total as int,
                    i,
                )),
        decreases n - k,
    {
        if columns[k].width.is_none() {
            widths.set(k, share);
        }
        k += 1;
    }
    assert(widths@ =~= column_widths_spec(columns@, total as int));
    widths
}

} // verus!
