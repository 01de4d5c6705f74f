use vstd::prelude::*;
use vstd::string::StringSliceAdditionalSpecFns;
use crate::condition::ConfigError;
use crate::rule::{range_valid, schedule_valid};
use crate::trigger::{CronField, CronRange, Schedule};

verus! {

/// The pieces of `s` between the bytes `sep` (adjacent separators leave empty
/// pieces).
pub open spec fn split_on(s: Seq<u8>, sep: u8) -> Seq<Seq<u8>>
    decreases s.len(),
{
    if s.len() == 0 {
        seq![Seq::empty()]
    } else {
        let r = split_on(s.drop_last(), sep);
        if s.last() == sep {
            r.push(Seq::empty())
        } else {
            r.update(r.len() - 1, r.last().push(s.last()))
        }
    }
}

pub open spec fn is_digit(b: u8) -> bool {
    48 <= b <= 57
}

pub open spec fn all_digits(t: Seq<u8>) -> bool {
    forall|i: int| 0 <= i < t.len() ==> is_digit(#[trigger] t[i])
}

/// The decimal value of a run of digits.
pub open spec fn digits_value(t: Seq<u8>) -> int
    decreases t.len(),
{
    if t.len() == 0 {
        0
    } else {
        digits_value(t.drop_last()) * 10 + (t.last() - 48)
    }
}

/// A number of one to three digits, at most 255.
pub open spec fn small_number(t: Seq<u8>) -> bool {
    1 <= t.len() <= 3 && all_digits(t) && digits_value(t) <= 255
}

/// The bounds of `*`, `n` (only without a step) or `a-b`.
pub open spec fn read_bounds(base: Seq<u8>, stepped: bool, lo: int, hi: int) -> Option<(int, int)> {
    let ends = split_on(base, 45u8);
    if base == seq![42u8] {
        Some((lo, hi))
    } else if ends.len() == 1 && !stepped && small_number(base) {
        Some((digits_value(base), digits_value(base)))
    } else if ends.len() == 2 && small_number(ends[0]) && small_number(ends[1]) {
        Some((digits_value(ends[0]), digits_value(ends[1])))
    } else {
        None
    }
}

/// One item of a field: `*`, `n`, `a-b`, `*/s` or `a-b/s`, inside `lo..=hi`
/// with a step of at least 1.
pub open spec fn read_range(t: Seq<u8>, lo: int, hi: int) -> Option<CronRange> {
    let parts = split_on(t, 47u8);
    let stepped = parts.len() == 2;
    if parts.len() > 2 || (stepped && !small_number(parts[1])) {
        None
    } else {
        let step = if stepped {
            digits_value(parts[1])
        } else {
            1
        };
        match read_bounds(parts[0], stepped, lo, hi) {
            Some(ab) => if 1 <= step && lo <= ab.0 && ab.0 <= ab.1 && ab.1 <= hi {
                Some(CronRange { start: ab.0 as u8, end: ab.1 as u8, step: step as u8 })
            } else {
                None
            },
            None => None,
        }
    }
}

/// A field: items separated by commas, each one readable.
pub open spec fn read_field(t: Seq<u8>, lo: int, hi: int) -> Option<Seq<CronRange>> {
    let items = split_on(t, 44u8);
    if forall|i: int| 0 <= i < items.len() ==> (#[trigger] read_range(items[i], lo, hi)) is Some {
        Some(items.map_values(|x: Seq<u8>| read_range(x, lo, hi)->Some_0))
    } else {
        None
    }
}

/// Field `k` of a five-field cron text.
pub open spec fn field_text(text: Seq<u8>, k: int) -> Seq<u8> {
    split_on(text, 32u8)[k]
}

/// Whether `text` is five fields separated by single spaces, each readable:
/// minute 0-59, hour 0-23, day of month 1-31, month 1-12, day of week 0-6.
pub open spec fn schedule_text_ok(text: Seq<u8>) -> bool {
    &&& split_on(text, 32u8).len() == 5
    &&& read_field(field_text(text, 0), 0, 59) is Some
    &&& read_field(field_text(text, 1), 0, 23) is Some
    &&& read_field(field_text(text, 2), 1, 31) is Some
    &&& read_field(field_text(text, 3), 1, 12) is Some
    &&& read_field(field_text(text, 4), 0, 6) is Some
}

pub open spec fn spans(b: Seq<u8>, s: Seq<(usize, usize)>) -> Seq<Seq<u8>> {
    s.map_values(|p: (usize, usize)| b.subrange(p.0 as int, p.1 as int))
}

/// Value of the digits `b[start..end]`, or `None` when they are not a small number.
fn read_number(b: &[u8], start: usize, end: usize) -> (r: Option<u8>)
    requires
        start <= end <= b@.len(),
    ensures
        r is Some <==> small_number(b@.subrange(start as int, end as int)),
        r matches Some(v) ==> v as int == digits_value(b@.subrange(start as int, end as int)),
{
    if end - start < 1 || end - start > 3 {
        return None;
    }
    let mut v: u32 = 0;
    let mut i: usize = start;
    while i < end
        invariant
            start <= i <= end <= b@.len(),
            end - start <= 3,
            all_digits(b@.subrange(start as int, i as int)),
            v as int == digits_value(b@.subrange(start as int, i as int)),
            v < 1000,
            (i - start == 0 ==> v == 0),
            (i - start == 1 ==> v < 10),
            (i - start == 2 ==> v < 100),
        decreases end - i,
    {
        let c = b[i];
        let ghost prev = b@.subrange(start as int, i as int);
        let ghost next = b@.subrange(start as int, i as int + 1);
        assert(next.drop_last() =~= prev);
        if c < 48 || c > 57 {
            assert(!is_digit(b@.subrange(start as int, end as int)[i - start]));
            return None;
        }
        v = v * 10 + (c - 48) as u32;
        i = i + 1;
    }
    if v > 255 {
        None
    } else {
        Some(v as u8)
    }
}

fn is_star(b: &[u8], start: usize, end: usize) -> (r: bool)
    requires
        start <= end <= b@.len(),
    ensures
        r == (b@.subrange(start as int, end as int) == seq![42u8]),
{
    let r = end - start == 1 && b[start] == 42;
    if r {
        assert(b@.subrange(start as int, end as int) =~= seq![42u8]);
    } else {
        assert(b@.subrange(start as int, end as int) != seq![42u8]) by {
            if b@.subrange(start as int, end as int) == seq![42u8] {
                assert(seq![42u8].len() == 1 && seq![42u8][0] == 42u8);
                assert(b@.subrange(start as int, end as int)[0] == b@[start as int]);
            }
        }
    }
    r
}

/// The pieces of `b[start..end]` between bytes `sep`, as positions in `b`.
fn split_spans(b: &[u8], start: usize, end: usize, sep: u8) -> (r: Vec<(usize, usize)>)
    requires
        start <= end <= b@.len(),
    ensures
        spans(b@, r@) == split_on(b@.subrange(start as int, end as int), sep),
        forall|k: int| 0 <= k < r@.len() ==> start <= (#[trigger] r@[k]).0 <= r@[k].1 <= end,
        r@.len() >= 1,
{
    let mut pieces: Vec<(usize, usize)> = Vec::new();
    let mut from: usize = start;
    let mut i: usize = start;
    assert(b@.subrange(start as int, start as int) =~= Seq::<u8>::empty());
    assert(spans(b@, pieces@) =~= Seq::<Seq<u8>>::empty());
    assert(split_on(Seq::<u8>::empty(), sep) == seq![Seq::<u8>::empty()]);
    assert(spans(b@, pieces@).push(Seq::<u8>::empty()) =~= seq![Seq::<u8>::empty()]);
    while i < end
        invariant
            start <= from <= i <= end <= b@.len(),
            forall|k: int| 0 <= k < pieces@.len() ==> start <= (#[trigger] pieces@[k]).0 <= pieces@[k].1 <= from,
            split_on(b@.subrange(start as int, i as int), sep) == spans(b@, pieces@).push(
                b@.subrange(from as int, i as int),
            ),
        decreases end - i,
    {
        let ghost prefix = b@.subrange(start as int, i as int);
        let ghost next = b@.subrange(start as int, i as int + 1);
        assert(next.drop_last() =~= prefix);
        assert(next.last() == b@[i as int]);
        if b[i] == sep {
            pieces.push((from, i));
            from = i + 1;
            assert(spans(b@, pieces@) =~= spans(b@, pieces@.drop_last()).push(
                b@.subrange(pieces@.last().0 as int, i as int),
            ));
            assert(b@.subrange(from as int, i as int + 1) =~= Seq::<u8>::empty());
        } else {
            assert(b@.subrange(from as int, i as int + 1) =~= b@.subrange(from as int, i as int).push(
                b[i as int],
            ));
            assert(split_on(next, sep) =~= spans(b@, pieces@).push(
                b@.subrange(from as int, i as int + 1),
            ));
        }
        i = i + 1;
    }
    pieces.push((from, end));
    assert(spans(b@, pieces@) =~= spans(b@, pieces@.drop_last()).push(
        b@.subrange(from as int, end as int),
    ));
    pieces
}

fn read_range_at(b: &[u8], start: usize, end: usize, lo: u8, hi: u8) -> (r: Option<CronRange>)
    requires
        start <= end <= b@.len(),
    ensures
        r == read_range(b@.subrange(start as int, end as int), lo as int, hi as int),
{
    let ghost t = b@.subrange(start as int, end as int);
    let parts = split_spans(b, start, end, 47);
    if parts.len() > 2 {
        return None;
    }
    let stepped = parts.len() == 2;
    assert(split_on(t, 47u8)[0] == b@.subrange(parts@[0].0 as int, parts@[0].1 as int));
    let step: u8 = if stepped {
        assert(split_on(t, 47u8)[1] == b@.subrange(parts@[1].0 as int, parts@[1].1 as int));
        match read_number(b, parts[1].0, parts[1].1) {
            Some(s) => s,
            None => return None,
        }
    } else {
        1
    };
    let (bs, be) = parts[0];
    let ghost base = b@.subrange(bs as int, be as int);
    let bounds: Option<(u8, u8)> = if is_star(b, bs, be) {
        Some((lo, hi))
    } else {
        let ends = split_spans(b, bs, be, 45);
        if ends.len() == 1 && !stepped {
            assert(split_on(base, 45u8)[0] == b@.subrange(ends@[0].0 as int, ends@[0].1 as int));
            assert(ends@[0].0 == bs && ends@[0].1 == be) by {
                assert(split_on(base, 45u8).len() == 1);
                lemma_single_piece(base, 45u8);
            }
            match read_number(b, bs, be) {
                Some(n) => Some((n, n)),
                None => None,
            }
        } else if ends.len() == 2 {
            assert(split_on(base, 45u8)[0] == b@.subrange(ends@[0].0 as int, ends@[0].1 as int));
            assert(split_on(base, 45u8)[1] == b@.subrange(ends@[1].0 as int, ends@[1].1 as int));
            match (read_number(b, ends[0].0, ends[0].1), read_number(b, ends[1].0, ends[1].1)) {
                (Some(x), Some(y)) => Some((x, y)),
                _ => None,
            }
        } else {
            None
        }
    };
    match bounds {
        Some((a, z)) => {
            if 1 <= step && lo <= a && a <= z && z <= hi {
                Some(CronRange { start: a, end: z, step })
            } else {
                None
            }
        },
        None => None,
    }
}

proof fn lemma_single_piece(s: Seq<u8>, sep: u8)
    requires
        split_on(s, sep).len() == 1,
    ensures
        split_on(s, sep)[0] == s,
    decreases s.len(),
{
    if s.len() > 0 {
        let r = split_on(s.drop_last(), sep);
        lemma_split_nonempty(s.drop_last(), sep);
        if s.last() != sep {
            lemma_single_piece(s.drop_last(), sep);
            assert(s.drop_last().push(s.last()) =~= s);
        }
    }
}

proof fn lemma_split_nonempty(s: Seq<u8>, sep: u8)
    ensures
        split_on(s, sep).len() >= 1,
    decreases s.len(),
{
    if s.len() > 0 {
        lemma_split_nonempty(s.drop_last(), sep);
    }
}

fn read_field_at(b: &[u8], start: usize, end: usize, lo: u8, hi: u8) -> (r: Option<CronField>)
    requires
        start <= end <= b@.len(),
    ensures
        match read_field(b@.subrange(start as int, end as int), lo as int, hi as int) {
            Some(rs) => r matches Some(f) && f.ranges@ == rs,
            None => r is None,
        },
{
    let ghost items = split_on(b@.subrange(start as int, end as int), 44u8);
    let pieces = split_spans(b, start, end, 44);
    let mut ranges: Vec<CronRange> = Vec::new();
    let mut k: usize = 0;
    while k < pieces.len()
        invariant
            k <= pieces@.len(),
            items == spans(b@, pieces@),
            start <= end,
            items == split_on(b@.subrange(start as int, end as int), 44u8),
            forall|j: int| 0 <= j < pieces@.len() ==> start <= (#[trigger] pieces@[j]).0 <= pieces@[j].1 <= end,
            end <= b@.len(),
            forall|j: int| 0 <= j < k ==> (#[trigger] read_range(items[j], lo as int, hi as int)) is Some,
            ranges@ == items.subrange(0, k as int).map_values(
                |x: Seq<u8>| read_range(x, lo as int, hi as int)->Some_0,
            ),
        decreases pieces.len() - k,
    {
        let (s, e) = pieces[k];
        assert(items[k as int] == b@.subrange(s as int, e as int));
        match read_range_at(b, s, e, lo, hi) {
            Some(rg) => {
                ranges.push(rg);
                assert(ranges@ =~= items.subrange(0, k as int + 1).map_values(
                    |x: Seq<u8>| read_range(x, lo as int, hi as int)->Some_0,
                ));
            },
            None => {
                assert(items.len() == pieces@.len());
                assert(!(read_range(items[k as int], lo as int, hi as int) is Some));
                assert(!(forall|i: int|
                    0 <= i < items.len() ==> (#[trigger] read_range(items[i], lo as int, hi as int)) is Some));
                assert(items == split_on(b@.subrange(start as int, end as int), 44u8));
                return None;
            },
        }
        k = k + 1;
    }
    assert(items.subrange(0, k as int) =~= items);
    Some(CronField { ranges })
}

proof fn lemma_read_field_valid(t: Seq<u8>, lo: int, hi: int)
    requires
        read_field(t, lo, hi) is Some,
        0 <= lo <= hi <= 255,
    ensures
        read_field(t, lo, hi)->Some_0.len() > 0,
        forall|i: int|
            0 <= i < read_field(t, lo, hi)->Some_0.len() ==> range_valid(
                #[trigger] read_field(t, lo, hi)->Some_0[i],
                lo,
                hi,
            ),
{
    let items = split_on(t, 44u8);
    lemma_split_nonempty(t, 44u8);
    assert forall|i: int| 0 <= i < read_field(t, lo, hi)->Some_0.len() implies range_valid(
        #[trigger] read_field(t, lo, hi)->Some_0[i],
        lo,
        hi,
    ) by {
        assert(read_range(items[i], lo, hi) is Some);
    }
}

/// Reads a five-field cron expression `minute hour day-of-month month
/// day-of-week`, fields separated by single spaces. Each field is a
/// comma-separated list of `*`, `n`, `a-b`, `*/s` or `a-b/s`; anything else,
/// a value out of range, or a step of zero is `InvalidSchedule`.
pub fn parse_schedule(expr: &str) -> (r: Result<Schedule, ConfigError>)
    ensures
        !schedule_text_ok(expr.spec_bytes()) ==> r == Err::<Schedule, ConfigError>(
            ConfigError::InvalidSchedule,
        ),
        schedule_text_ok(expr.spec_bytes()) ==> (r matches Ok(s) && {
            let t = expr.spec_bytes();
            &&& s.minute.ranges@ == read_field(field_text(t, 0), 0, 59)->Some_0
            &&& s.hour.ranges@ == read_field(field_text(t, 1), 0, 23)->Some_0
            &&& s.day_of_month.ranges@ == read_field(field_text(t, 2), 1, 31)->Some_0
            &&& s.month.ranges@ == read_field(field_text(t, 3), 1, 12)->Some_0
            &&& s.day_of_week.ranges@ == read_field(field_text(t, 4), 0, 6)->Some_0
        }),
        r matches Ok(s) ==> schedule_valid(s),
{
    let b = expr.as_bytes();
    let ghost t = b@;
    let pieces = split_spans(b, 0, b.len(), 32);
    assert(b@.subrange(0, b@.len() as int) =~= b@);
    if pieces.len() != 5 {
        return Err(ConfigError::InvalidSchedule);
    }
    assert(field_text(t, 0) == b@.subrange(pieces@[0].0 as int, pieces@[0].1 as int));
    assert(field_text(t, 1) == b@.subrange(pieces@[1].0 as int, pieces@[1].1 as int));
    assert(field_text(t, 2) == b@.subrange(pieces@[2].0 as int, pieces@[2].1 as int));
    assert(field_text(t, 3) == b@.subrange(pieces@[3].0 as int, pieces@[3].1 as int));
    assert(field_text(t, 4) == b@.subrange(pieces@[4].0 as int, pieces@[4].1 as int));
    let minute = read_field_at(b, pieces[0].0, pieces[0].1, 0, 59);
    let hour = read_field_at(b, pieces[1].0, pieces[1].1, 0, 23);
    let day_of_month = read_field_at(b, pieces[2].0, pieces[2].1, 1, 31);
    let month = read_field_at(b, pieces[3].0, pieces[3].1, 1, 12);
    let day_of_week = read_field_at(b, pieces[4].0, pieces[4].1, 0, 6);
    match (minute, hour, day_of_month, month, day_of_week) {
        (Some(minute), Some(hour), Some(day_of_month), Some(month), Some(day_of_week)) => {
            proof {
                lemma_read_field_valid(field_text(t, 0), 0, 59);
                lemma_read_field_valid(field_text(t, 1), 0, 23);
                lemma_read_field_valid(field_text(t, 2), 1, 31);
                lemma_read_field_valid(field_text(t, 3), 1, 12);
                lemma_read_field_valid(field_text(t, 4), 0, 6);
            }
            Ok(Schedule { minute, hour, day_of_month, month, day_of_week })
        },
        _ => Err(ConfigError::InvalidSchedule),
    }
}

} // verus!
