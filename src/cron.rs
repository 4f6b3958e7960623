//! Cron schedules: a six- or seven-field text (second, minute, hour, day of
//! month, month, day of week, and optionally year), each field a comma list of
//! `*`, `n` or `a-b`, each optionally followed by `/step`.
use vstd::prelude::*;
use vstd::string::StringSliceAdditionalSpecFns;

use crate::address::seqs_of;

verus! {

/// The values `lo, lo + step, ...` up to `hi`.
#[derive(Clone, Copy, Debug)]
pub struct FieldRange {
    pub lo: u32,
    pub hi: u32,
    pub step: u32,
}

/// A parsed schedule: one list of ranges per field.
#[derive(Clone, Debug)]
pub struct CronSchedule {
    pub fields: Vec<Vec<FieldRange>>,
}

/// A moment broken into the fields that a schedule matches against.
#[derive(Clone, Copy, Debug)]
pub struct CalendarTime {
    pub second: u32,
    pub minute: u32,
    pub hour: u32,
    pub day: u32,
    pub month: u32,
    pub weekday: u32,
    pub year: u64,
}

pub const SPACE: u8 = 32;

pub const COMMA: u8 = 44;

pub const DASH: u8 = 45;

pub const SLASH: u8 = 47;

pub const STAR: u8 = 42;

/// Numbers above this are outside every field's range.
pub const NUMBER_CAP: u32 = 9999;

// ---------------------------------------------------------------------------
// Text structure
// ---------------------------------------------------------------------------

/// Splitting on `sep`, as (pieces finished so far, piece in progress).
pub open spec fn split_state(s: Seq<u8>, sep: u8) -> (Seq<Seq<u8>>, Seq<u8>)
    decreases s.len(),
{
    if s.len() == 0 {
        (Seq::empty(), Seq::empty())
    } else {
        let (done, cur) = split_state(s.drop_last(), sep);
        if s.last() == sep {
            (done.push(cur), Seq::empty())
        } else {
            (done, cur.push(s.last()))
        }
    }
}

/// The pieces of `s` between occurrences of `sep` (empty pieces kept).
pub open spec fn split(s: Seq<u8>, sep: u8) -> Seq<Seq<u8>> {
    let (done, cur) = split_state(s, sep);
    done.push(cur)
}

/// Splitting on runs of spaces, as (words finished so far, word in progress).
pub open spec fn words_state(s: Seq<u8>) -> (Seq<Seq<u8>>, Seq<u8>)
    decreases s.len(),
{
    if s.len() == 0 {
        (Seq::empty(), Seq::empty())
    } else {
        let (done, cur) = words_state(s.drop_last());
        if s.last() == SPACE {
            if cur.len() > 0 {
                (done.push(cur), Seq::empty())
            } else {
                (done, cur)
            }
        } else {
            (done, cur.push(s.last()))
        }
    }
}

/// The nonempty space-separated words of `s`.
pub open spec fn words(s: Seq<u8>) -> Seq<Seq<u8>> {
    let (done, cur) = words_state(s);
    if cur.len() > 0 {
        done.push(cur)
    } else {
        done
    }
}

pub open spec fn is_digit(b: u8) -> bool {
    48 <= b <= 57
}

/// The decimal value of a string of digits.
pub open spec fn digits_value(s: Seq<u8>) -> nat
    decreases s.len(),
{
    if s.len() == 0 {
        0
    } else {
        digits_value(s.drop_last()) * 10 + (s.last() - 48) as nat
    }
}

/// A decimal number of at most `NUMBER_CAP`.
pub open spec fn number(s: Seq<u8>) -> Option<nat> {
    if s.len() > 0 && (forall|i: int| 0 <= i < s.len() ==> is_digit(#[trigger] s[i]))
        && digits_value(s) <= NUMBER_CAP {
        Some(digits_value(s))
    } else {
        None
    }
}

// ---------------------------------------------------------------------------
// Fields and their meaning
// ---------------------------------------------------------------------------

/// Lowest value of each field.
pub open spec fn field_min(k: int) -> nat {
    if k == 3 || k == 4 {
        1
    } else if k == 6 {
        1970
    } else {
        0
    }
}

/// Highest value of each field.
pub open spec fn field_max(k: int) -> nat {
    if k == 0 || k == 1 {
        59
    } else if k == 2 {
        23
    } else if k == 3 {
        31
    } else if k == 4 {
        12
    } else if k == 5 {
        6
    } else {
        2099
    }
}

/// The range that an item's part before any `/` denotes, with step `step`.
pub open spec fn base_range(base: Seq<u8>, step: nat, has_step: bool, k: int) -> Option<FieldRange> {
    let parts = split(base, DASH);
    if base == seq![STAR] {
        Some(FieldRange { lo: field_min(k) as u32, hi: field_max(k) as u32, step: step as u32 })
    } else if parts.len() == 1 {
        match number(base) {
            Some(n) => if field_min(k) <= n <= field_max(k) {
                if has_step {
                    Some(FieldRange { lo: n as u32, hi: field_max(k) as u32, step: step as u32 })
                } else {
                    Some(FieldRange { lo: n as u32, hi: n as u32, step: step as u32 })
                }
            } else {
                None
            },
            None => None,
        }
    } else if parts.len() == 2 {
        match (number(parts[0]), number(parts[1])) {
            (Some(a), Some(b)) => if field_min(k) <= a <= b <= field_max(k) {
                Some(FieldRange { lo: a as u32, hi: b as u32, step: step as u32 })
            } else {
                None
            },
            _ => None,
        }
    } else {
        None
    }
}

/// One comma-separated item of field `k`.
pub open spec fn item_range(item: Seq<u8>, k: int) -> Option<FieldRange> {
    let parts = split(item, SLASH);
    if parts.len() == 1 {
        base_range(item, 1, false, k)
    } else if parts.len() == 2 {
        match number(parts[1]) {
            Some(s) => if s > 0 {
                base_range(parts[0], s, true, k)
            } else {
                None
            },
            None => None,
        }
    } else {
        None
    }
}

/// Field `k` as a list of ranges, if every item of it is well formed.
pub open spec fn field_ranges(text: Seq<u8>, k: int) -> Option<Seq<FieldRange>> {
    let items = split(text, COMMA);
    if forall|i: int| 0 <= i < items.len() ==> (#[trigger] item_range(items[i], k)) is Some {
        Some(Seq::new(items.len(), |i: int| item_range(items[i], k)->0))
    } else {
        None
    }
}

/// What a schedule text denotes: one list of ranges per field, if it is well formed.
pub open spec fn parse_schedule(s: Seq<u8>) -> Option<Seq<Seq<FieldRange>>> {
    let ws = words(s);
    if (ws.len() == 6 || ws.len() == 7) && forall|k: int|
        0 <= k < ws.len() ==> (#[trigger] field_ranges(ws[k], k)) is Some {
        Some(Seq::new(ws.len(), |k: int| field_ranges(ws[k], k)->0))
    } else {
        None
    }
}

pub open spec fn range_holds(r: FieldRange, v: int) -> bool {
    r.step > 0 && r.lo <= v <= r.hi && (v - r.lo) % (r.step as int) == 0
}

pub open spec fn field_holds(f: Seq<FieldRange>, v: int) -> bool {
    exists|j: int| 0 <= j < f.len() && range_holds(#[trigger] f[j], v)
}

/// The value of field `k` at moment `c`.
pub open spec fn field_value(c: CalendarTime, k: int) -> int {
    if k == 0 {
        c.second as int
    } else if k == 1 {
        c.minute as int
    } else if k == 2 {
        c.hour as int
    } else if k == 3 {
        c.day as int
    } else if k == 4 {
        c.month as int
    } else if k == 5 {
        c.weekday as int
    } else {
        c.year as int
    }
}

/// Whether parsed fields accept moment `c`.
pub open spec fn fields_hold(fields: Seq<Seq<FieldRange>>, c: CalendarTime) -> bool {
    forall|k: int| 0 <= k < fields.len() ==> field_holds(#[trigger] fields[k], field_value(c, k))
}

// ---------------------------------------------------------------------------
// Calendar
// ---------------------------------------------------------------------------

pub open spec fn is_leap(y: int) -> bool {
    (y % 4 == 0 && y % 100 != 0) || y % 400 == 0
}

pub open spec fn year_days(y: int) -> nat {
    if is_leap(y) {
        366
    } else {
        365
    }
}

pub open spec fn month_days(y: int, m: int) -> nat {
    if m == 2 {
        if is_leap(y) {
            29
        } else {
            28
        }
    } else if m == 4 || m == 6 || m == 9 || m == 11 {
        30
    } else {
        31
    }
}

/// Day `days` (counted from 0) of year `y`, from month `m` on, as (month, day).
pub open spec fn month_and_day(days: nat, y: int, m: int) -> (int, int)
    decreases 12 - m,
{
    if m < 12 && days >= month_days(y, m) {
        month_and_day((days - month_days(y, m)) as nat, y, m + 1)
    } else {
        (m, days as int + 1)
    }
}

/// Day `days` (counted from 0) from 1 January of year `y`, as (year, month, day).
pub open spec fn civil_from(days: nat, y: int) -> (int, int, int)
    decreases days,
{
    if days >= year_days(y) {
        civil_from((days - year_days(y)) as nat, y + 1)
    } else {
        let (m, d) = month_and_day(days, y, 1);
        (y, m, d)
    }
}

/// The calendar fields (UTC) of a Unix timestamp.
pub open spec fn calendar_of(t: nat) -> CalendarTime {
    let days = t / 86400;
    let (y, m, d) = civil_from(days, 1970);
    CalendarTime {
        second: (t % 60) as u32,
        minute: ((t / 60) % 60) as u32,
        hour: ((t / 3600) % 24) as u32,
        day: d as u32,
        month: m as u32,
        weekday: ((days + 4) % 7) as u32,
        year: y as u64,
    }
}

/// Whether schedule text `s` is well formed and accepts Unix time `t`.
pub open spec fn schedule_matches(s: Seq<u8>, t: int) -> bool {
    t >= 0 && match parse_schedule(s) {
        Some(fields) => fields_hold(fields, calendar_of(t as nat)),
        None => false,
    }
}


// ---------------------------------------------------------------------------
// Executable side
// ---------------------------------------------------------------------------

impl View for CronSchedule {
    type V = Seq<Seq<FieldRange>>;

    open spec fn view(&self) -> Seq<Seq<FieldRange>> {
        Seq::new(self.fields@.len(), |k: int| self.fields@[k]@)
    }
}

/// The pieces of `s` between occurrences of `sep`.
fn split_bytes(s: &[u8], sep: u8) -> (r: Vec<Vec<u8>>)
    ensures
        seqs_of(r@) == split(s@, sep),
{
    let mut done: Vec<Vec<u8>> = Vec::new();
    let mut cur: Vec<u8> = Vec::new();
    let mut i: usize = 0;
    while i < s.len()
        invariant
            0 <= i <= s@.len(),
            split_state(s@.take(i as int), sep) == (seqs_of(done@), cur@),
        decreases s@.len() - i,
    {
        assert(s@.take(i as int + 1).drop_last() =~= s@.take(i as int));
        let b = s[i];
        if b == sep {
            let piece = cur;
            cur = Vec::new();
            done.push(piece);
        } else {
            cur.push(b);
        }
        assert(seqs_of(done@) =~= split_state(s@.take(i as int + 1), sep).0);
        assert(cur@ =~= split_state(s@.take(i as int + 1), sep).1);
        i = i + 1;
    }
    assert(s@.take(s@.len() as int) =~= s@);
    done.push(cur);
    assert(seqs_of(done@) =~= split(s@, sep));
    done
}

/// The nonempty space-separated words of `s`.
fn word_list(s: &[u8]) -> (r: Vec<Vec<u8>>)
    ensures
        seqs_of(r@) == words(s@),
{
    let mut done: Vec<Vec<u8>> = Vec::new();
    let mut cur: Vec<u8> = Vec::new();
    let mut i: usize = 0;
    while i < s.len()
        invariant
            0 <= i <= s@.len(),
            words_state(s@.take(i as int)) == (seqs_of(done@), cur@),
        decreases s@.len() - i,
    {
        assert(s@.take(i as int + 1).drop_last() =~= s@.take(i as int));
        let b = s[i];
        if b == SPACE {
            if cur.len() > 0 {
                let piece = cur;
                cur = Vec::new();
                done.push(piece);
            }
        } else {
            cur.push(b);
        }
        assert(seqs_of(done@) =~= words_state(s@.take(i as int + 1)).0);
        assert(cur@ =~= words_state(s@.take(i as int + 1)).1);
        i = i + 1;
    }
    assert(s@.take(s@.len() as int) =~= s@);
    if cur.len() > 0 {
        done.push(cur);
    }
    assert(seqs_of(done@) =~= words(s@));
    done
}

proof fn lemma_digits_value_grows(s: Seq<u8>, i: int)
    requires
        0 <= i <= s.len(),
    ensures
        digits_value(s.take(i)) <= digits_value(s),
    decreases s.len() - i,
{
    if i < s.len() {
        lemma_digits_value_grows(s, i + 1);
        assert(s.take(i + 1).drop_last() =~= s.take(i));
    } else {
        assert(s.take(i) =~= s);
    }
}

/// A decimal number of at most `NUMBER_CAP`.
fn parse_number(s: &[u8]) -> (r: Option<u32>)
    ensures
        r is Some ==> number(s@) == Some(r->0 as nat),
        r is None <==> number(s@) is None,
{
    if s.len() == 0 {
        return None;
    }
    let mut v: u32 = 0;
    let mut i: usize = 0;
    while i < s.len()
        invariant
            0 <= i <= s@.len(),
            v == digits_value(s@.take(i as int)),
            v <= NUMBER_CAP,
            forall|j: int| 0 <= j < i ==> is_digit(#[trigger] s@[j]),
        decreases s@.len() - i,
    {
        assert(s@.take(i as int + 1).drop_last() =~= s@.take(i as int));
        let b = s[i];
        if b < 48 || b > 57 {
            return None;
        }
        let next: u32 = v * 10 + (b - 48) as u32;
        if next > NUMBER_CAP {
            proof {
                lemma_digits_value_grows(s@, i as int + 1);
            }
            return None;
        }
        v = next;
        i = i + 1;
    }
    assert(s@.take(s@.len() as int) =~= s@);
    Some(v)
}

/// The lowest value of field `k`.
fn min_of(k: usize) -> (r: u32)
    ensures
        r == field_min(k as int),
{
    if k == 3 || k == 4 {
        1
    } else if k == 6 {
        1970
    } else {
        0
    }
}

/// The highest value of field `k`.
fn max_of(k: usize) -> (r: u32)
    ensures
        r == field_max(k as int),
{
    if k == 0 || k == 1 {
        59
    } else if k == 2 {
        23
    } else if k == 3 {
        31
    } else if k == 4 {
        12
    } else if k == 5 {
        6
    } else {
        2099
    }
}

fn parse_base(base: &[u8], step: u32, has_step: bool, k: usize) -> (r: Option<FieldRange>)
    requires
        step <= NUMBER_CAP,
    ensures
        r == base_range(base@, step as nat, has_step, k as int),
{
    let lo_k = min_of(k);
    let hi_k = max_of(k);
    if base.len() == 1 && base[0] == STAR {
        assert(base@ =~= seq![STAR]);
        return Some(FieldRange { lo: lo_k, hi: hi_k, step });
    }
    assert(base@ != seq![STAR]);
    let parts = split_bytes(base, DASH);
    if parts.len() == 1 {
        match parse_number(base) {
            Some(n) => {
                if lo_k <= n && n <= hi_k {
                    if has_step {
                        Some(FieldRange { lo: n, hi: hi_k, step })
                    } else {
                        Some(FieldRange { lo: n, hi: n, step })
                    }
                } else {
                    None
                }
            },
            None => None,
        }
    } else if parts.len() == 2 {
        assert(parts@[0]@ == split(base@, DASH)[0]);
        assert(parts@[1]@ == split(base@, DASH)[1]);
        let a = parse_number(parts[0].as_slice());
        let b = parse_number(parts[1].as_slice());
        match (a, b) {
            (Some(a), Some(b)) => {
                if lo_k <= a && a <= b && b <= hi_k {
                    Some(FieldRange { lo: a, hi: b, step })
                } else {
                    None
                }
            },
            _ => None,
        }
    } else {
        None
    }
}

fn parse_item(item: &[u8], k: usize) -> (r: Option<FieldRange>)
    ensures
        r == item_range(item@, k as int),
{
    let parts = split_bytes(item, SLASH);
    if parts.len() == 1 {
        parse_base(item, 1, false, k)
    } else if parts.len() == 2 {
        assert(parts@[0]@ == split(item@, SLASH)[0]);
        assert(parts@[1]@ == split(item@, SLASH)[1]);
        match parse_number(parts[1].as_slice()) {
            Some(s) => {
                if s > 0 {
                    parse_base(parts[0].as_slice(), s, true, k)
                } else {
                    None
                }
            },
            None => None,
        }
    } else {
        None
    }
}

fn parse_field(text: &[u8], k: usize) -> (r: Option<Vec<FieldRange>>)
    ensures
        r is Some ==> field_ranges(text@, k as int) == Some(r->0@),
        r is None <==> field_ranges(text@, k as int) is None,
{
    let items = split_bytes(text, COMMA);
    let ghost spec_items = split(text@, COMMA);
    let mut out: Vec<FieldRange> = Vec::new();
    let mut i: usize = 0;
    while i < items.len()
        invariant
            0 <= i <= items@.len(),
            seqs_of(items@) == spec_items,
            spec_items == split(text@, COMMA),
            out@.len() == i,
            forall|j: int| 0 <= j < i ==> item_range(#[trigger] spec_items[j], k as int) == Some(out@[j]),
        decreases items@.len() - i,
    {
        assert(items@[i as int]@ == spec_items[i as int]);
        match parse_item(items[i].as_slice(), k) {
            Some(r) => {
                out.push(r);
            },
            None => {
                assert(item_range(spec_items[i as int], k as int) is None);
                return None;
            },
        }
        i = i + 1;
    }
    assert(out@ =~= Seq::new(spec_items.len(), |j: int| item_range(spec_items[j], k as int)->0));
    Some(out)
}

impl CronSchedule {
    /// Parses a schedule text; `None` when it is not well formed.
    pub fn parse(text: &str) -> (r: Option<CronSchedule>)
        ensures
            r is Some ==> parse_schedule(text.spec_bytes()) == Some(r->0@),
            r is None <==> parse_schedule(text.spec_bytes()) is None,
    {
        let bytes = text.as_bytes();
        let ws = word_list(bytes);
        let ghost spec_ws = words(bytes@);
        if ws.len() != 6 && ws.len() != 7 {
            return None;
        }
        let mut fields: Vec<Vec<FieldRange>> = Vec::new();
        let mut k: usize = 0;
        while k < ws.len()
            invariant
                0 <= k <= ws@.len(),
                seqs_of(ws@) == spec_ws,
                spec_ws == words(bytes@),
                bytes@ == text.spec_bytes(),
                ws@.len() == 6 || ws@.len() == 7,
                fields@.len() == k,
                forall|j: int| 0 <= j < k ==> field_ranges(#[trigger] spec_ws[j], j) == Some(fields@[j]@),
            decreases ws@.len() - k,
        {
            assert(ws@[k as int]@ == spec_ws[k as int]);
            match parse_field(ws[k].as_slice(), k) {
                Some(f) => {
                    fields.push(f);
                },
                None => {
                    assert(field_ranges(spec_ws[k as int], k as int) is None);
                    assert(spec_ws == words(text.spec_bytes()));
                    assert(!(forall|j: int| 0 <= j < spec_ws.len() ==> (#[trigger] field_ranges(spec_ws[j], j)) is Some));
                    return None;
                },
            }
            k = k + 1;
        }
        let r = CronSchedule { fields };
        assert(r@ =~= Seq::new(spec_ws.len(), |j: int| field_ranges(spec_ws[j], j)->0));
        Some(r)
    }

    /// Whether the schedule accepts moment `c`.
    pub fn accepts(&self, c: &CalendarTime) -> (r: bool)
        ensures
            r == fields_hold(self@, *c),
    {
        let mut k: usize = 0;
        while k < self.fields.len()
            invariant
                0 <= k <= self.fields@.len(),
                forall|j: int| 0 <= j < k ==> field_holds(#[trigger] self@[j], field_value(*c, j)),
            decreases self.fields@.len() - k,
        {
            let v: u64 = if k == 0 {
                c.second as u64
            } else if k == 1 {
                c.minute as u64
            } else if k == 2 {
                c.hour as u64
            } else if k == 3 {
                c.day as u64
            } else if k == 4 {
                c.month as u64
            } else if k == 5 {
                c.weekday as u64
            } else {
                c.year
            };
            let f = &self.fields[k];
            let mut found = false;
            let mut j: usize = 0;
            while j < f.len()
                invariant
                    0 <= j <= f@.len(),
                    k < self.fields@.len(),
                    *f == self.fields@[k as int],
                    v == field_value(*c, k as int),
                    found ==> field_holds(f@, v as int),
                    !found ==> forall|i: int| 0 <= i < j ==> !range_holds(#[trigger] f@[i], v as int),
                decreases f@.len() - j,
            {
                let r = f[j];
                if r.step > 0 && r.lo as u64 <= v && v <= r.hi as u64 && (v - r.lo as u64) % (r.step as u64) == 0 {
                    found = true;
                    assert(range_holds(f@[j as int], v as int));
                }
                j = j + 1;
            }
            assert(self@[k as int] == f@);
            if !found {
                assert(!field_holds(f@, v as int)) by {
                    assert(forall|i: int| 0 <= i < f@.len() ==> !range_holds(#[trigger] f@[i], v as int));
                }
                return false;
            }
            k = k + 1;
        }
        true
    }
}


fn leap(y: u64) -> (r: bool)
    ensures
        r == is_leap(y as int),
{
    (y % 4 == 0 && y % 100 != 0) || y % 400 == 0
}

fn days_in_month(y: u64, m: u64) -> (r: u64)
    ensures
        r == month_days(y as int, m as int),
{
    if m == 2 {
        if leap(y) {
            29
        } else {
            28
        }
    } else if m == 4 || m == 6 || m == 9 || m == 11 {
        30
    } else {
        31
    }
}

proof fn lemma_month_and_day_bounds(days: nat, y: int, m: int)
    requires
        1 <= m <= 12,
        days < year_days(y),
    ensures
        1 <= month_and_day(days, y, m).0 <= 12,
        1 <= month_and_day(days, y, m).1 <= 366,
    decreases 12 - m,
{
    if m < 12 && days >= month_days(y, m) {
        lemma_month_and_day_bounds((days - month_days(y, m)) as nat, y, m + 1);
    }
}

/// The calendar fields (UTC) of Unix time `t`.
pub fn calendar(t: u64) -> (r: CalendarTime)
    ensures
        r == calendar_of(t as nat),
{
    let total_days: u64 = t / 86400;
    let mut days: u64 = total_days;
    let mut y: u64 = 1970;
    loop
        invariant
            1970 <= y <= 1970 + total_days - days,
            days <= total_days,
            total_days == t / 86400,
            civil_from(days as nat, y as int) == civil_from(total_days as nat, 1970),
        ensures
            days < year_days(y as int),
            total_days == t / 86400,
            civil_from(days as nat, y as int) == civil_from(total_days as nat, 1970),
        decreases days,
    {
        let len: u64 = if leap(y) {
            366
        } else {
            365
        };
        if days < len {
            break;
        }
        days = days - len;
        y = y + 1;
    }
    let mut m: u64 = 1;
    loop
        invariant
            1 <= m <= 12,
            days < year_days(y as int),
            month_and_day(days as nat, y as int, m as int) == (civil_from(total_days as nat, 1970).1, civil_from(total_days as nat, 1970).2),
            civil_from(total_days as nat, 1970).0 == y,
            total_days == t / 86400,
        ensures
            1 <= m <= 12,
            days < year_days(y as int),
            month_and_day(days as nat, y as int, m as int) == (m as int, days as int + 1),
            month_and_day(days as nat, y as int, m as int) == (civil_from(total_days as nat, 1970).1, civil_from(total_days as nat, 1970).2),
            civil_from(total_days as nat, 1970).0 == y,
            total_days == t / 86400,
        decreases 12 - m,
    {
        let len = days_in_month(y, m);
        if m == 12 || days < len {
            break;
        }
        days = days - len;
        m = m + 1;
    }
    proof {
        lemma_month_and_day_bounds(days as nat, y as int, m as int);
    }
    CalendarTime {
        second: (t % 60) as u32,
        minute: ((t / 60) % 60) as u32,
        hour: ((t / 3600) % 24) as u32,
        day: (days + 1) as u32,
        month: m as u32,
        weekday: ((total_days + 4) % 7) as u32,
        year: y,
    }
}

/// Whether schedule text `schedule` is well formed and accepts Unix time `t`.
pub fn matches_at(schedule: &str, t: i64) -> (r: bool)
    ensures
        r == schedule_matches(schedule.spec_bytes(), t as int),
{
    if t < 0 {
        return false;
    }
    match CronSchedule::parse(schedule) {
        Some(s) => {
            let c = calendar(t as u64);
            s.accepts(&c)
        },
        None => false,
    }
}

} // verus!
