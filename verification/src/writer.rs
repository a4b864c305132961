//! The renderer: the layout of a report and its text, one header line and
//! one line for each bucket.

use crate::histogram::{Bucket, Histogram, HistogramView};
use crate::paint::{decorate, is_painted, Decor, Tint};
use crate::text::{
    decimal, decimal_len, digits, format_count, format_decimal, pad_left, pow10, push_repeated,
    repeated,
};
use vstd::prelude::*;
use vstd::string::*;

verus! {

/// The glyph a bar is drawn with.
pub open spec fn glyph() -> char {
    '\u{220e}'
}

/// The number of columns taken by the brackets, blanks and dots of a line.
pub const EXTRA_CHARS: usize = 10;

/// The bar length used where the target width leaves no room for bars.
pub const FALLBACK_BAR_LEN: usize = 75;

/// The target width used where none is given.
pub const DEFAULT_WIDTH: usize = 110;

/// The width of a range bound: the longer of the three-decimal texts of the
/// lower and the upper bound of the histogram.
pub open spec fn range_width(h: HistogramView) -> int {
    let a = decimal(h.min).len() as int;
    let b = decimal(h.max).len() as int;
    if a >= b {
        a
    } else {
        b
    }
}

/// The logarithm of `n` to the base ten, rounded up: the least `k` with
/// `10^k >= n`, and zero for `n` zero.
pub open spec fn ceil_log10(n: nat) -> nat
    decreases n,
{
    if n <= 1 {
        0
    } else {
        1 + ceil_log10(((n - 1) / 10 + 1) as nat)
    }
}

/// The width of a count label: `ceil_log10(top)`, and one at least.
pub open spec fn count_width(top: nat) -> int {
    if ceil_log10(top) < 1 {
        1
    } else {
        ceil_log10(top) as int
    }
}

/// The longest bar that fits a line of `width` columns of which
/// `fixed_width` are taken by the labels.
pub open spec fn max_bar_len(width: int, fixed_width: int) -> int {
    if width < fixed_width + EXTRA_CHARS {
        FALLBACK_BAR_LEN as int
    } else {
        width - fixed_width - EXTRA_CHARS
    }
}

/// The bar length that the divisor is derived from: `max_bar_len`, or the
/// fallback where that leaves no column at all.
pub open spec fn bar_room(width: int, fixed_width: int) -> int {
    if max_bar_len(width, fixed_width) == 0 {
        FALLBACK_BAR_LEN as int
    } else {
        max_bar_len(width, fixed_width)
    }
}

/// The number of samples that one glyph stands for.
pub open spec fn divisor(h: HistogramView, width: int) -> int {
    let q = h.top as int / bar_room(width, range_width(h) + count_width(h.top));
    if q < 1 {
        1
    } else {
        q
    }
}

/// The range label of a bucket: both bounds with three decimals, each
/// right-justified in `width` columns.
pub open spec fn range_label(b: Bucket, width: int) -> Seq<char> {
    pad_left(decimal(b.start as int), width) + " .. "@ + pad_left(decimal(b.end as int), width)
}

/// The count label of a bucket, right-justified in `width` columns.
pub open spec fn count_label(b: Bucket, width: int) -> Seq<char> {
    pad_left(digits(b.count as nat), width)
}

/// The bar of a bucket: one glyph for every full `divisor` samples.
pub open spec fn bar(b: Bucket, divisor: int) -> Seq<char> {
    repeated(glyph(), (b.count as int / divisor) as nat)
}

/// The header line, made of its two decorated pieces.
pub open spec fn header_of(mark: Seq<char>, number: Seq<char>) -> Seq<char> {
    "each "@ + mark + " represents a count of "@ + number + "\n"@
}

/// A bucket line, made of its three decorated pieces.
pub open spec fn line_of(range: Seq<char>, count: Seq<char>, bar: Seq<char>) -> Seq<char> {
    "["@ + range + "] ["@ + count + "] "@ + bar + "\n"@
}

/// The undecorated header line.
pub open spec fn plain_header(divisor: int) -> Seq<char> {
    header_of("\u{220e}"@, digits(divisor as nat))
}

/// The undecorated line of a bucket.
pub open spec fn plain_line(b: Bucket, width: int, width_count: int, divisor: int) -> Seq<char> {
    line_of(range_label(b, width), count_label(b, width_count), bar(b, divisor))
}

/// `out` is the header line with each piece painted or left plain.
pub open spec fn is_header(out: Seq<char>, divisor: int) -> bool {
    exists|mark: Seq<char>, number: Seq<char>|
        {
            &&& #[trigger] is_painted(Tint::Red, "\u{220e}"@, mark)
            &&& #[trigger] is_painted(Tint::Blue, digits(divisor as nat), number)
            &&& out == header_of(mark, number)
        }
}

/// `out` is the line of `b` with each piece painted or left plain.
pub open spec fn is_line(
    out: Seq<char>,
    b: Bucket,
    width: int,
    width_count: int,
    divisor: int,
) -> bool {
    exists|r: Seq<char>, c: Seq<char>, g: Seq<char>|
        {
            &&& #[trigger] is_painted(Tint::Blue, range_label(b, width), r)
            &&& #[trigger] is_painted(Tint::Green, count_label(b, width_count), c)
            &&& #[trigger] is_painted(Tint::Red, bar(b, divisor), g)
            &&& out == line_of(r, c, g)
        }
}

/// All of `lines`, one after the other.
pub open spec fn joined(lines: Seq<Seq<char>>) -> Seq<char>
    decreases lines.len(),
{
    if lines.len() == 0 {
        Seq::<char>::empty()
    } else {
        joined(lines.drop_last()) + lines.last()
    }
}

/// The undecorated lines of all buckets of `h`, in order.
pub open spec fn plain_lines(h: HistogramView, width: int) -> Seq<Seq<char>> {
    Seq::new(
        h.buckets.len(),
        |i: int|
            plain_line(h.buckets[i], range_width(h), count_width(h.top), divisor(h, width)),
    )
}

/// The undecorated report of `h` for a target of `width` columns.
pub open spec fn plain_report(h: HistogramView, width: int) -> Seq<char> {
    plain_header(divisor(h, width)) + joined(plain_lines(h, width))
}

/// `out` is a report of `h` for a target of `width` columns: the header and
/// then the line of each bucket in order, each piece painted or left plain.
pub open spec fn is_report(out: Seq<char>, h: HistogramView, width: int) -> bool {
    exists|head: Seq<char>, lines: Seq<Seq<char>>|
        {
            &&& is_header(head, divisor(h, width))
            &&& lines.len() == h.buckets.len()
            &&& forall|i: int|
                0 <= i < lines.len() ==> is_line(
                    #[trigger] lines[i],
                    h.buckets[i],
                    range_width(h),
                    count_width(h.top),
                    divisor(h, width),
                )
            &&& out == head + joined(lines)
        }
}

/// Rendering reads the histogram and the width and nothing else: two plain
/// reports of one histogram for one width are the same text.
pub proof fn plain_reports_agree(h: HistogramView, width: int, first: Seq<char>, second: Seq<char>)
    requires
        first == plain_report(h, width),
        second == plain_report(h, width),
    ensures
        first == second,
{
}

/// The bar length that the divisor is derived from is never zero, whatever
/// the target width.
pub proof fn bar_room_is_positive(width: int, fixed_width: int)
    ensures
        bar_room(width, fixed_width) >= 1,
{
}

/// A histogram that counted nothing has a divisor of one, count labels of
/// one column that read `0`, and empty bars.
pub proof fn nothing_counted_gives_empty_bars(h: HistogramView, width: int)
    requires
        h.wf(),
        h.top == 0,
    ensures
        divisor(h, width) == 1,
        count_width(h.top) == 1,
        forall|i: int|
            0 <= i < h.size() ==> {
                &&& #[trigger] bar(h.buckets[i], divisor(h, width)) == Seq::<char>::empty()
                &&& count_label(h.buckets[i], count_width(h.top)) == seq!['0']
            },
{
    let room = bar_room(width, range_width(h) + count_width(h.top));
    assert(0int / room == 0) by (nonlinear_arith)
        requires
            room >= 1,
    ;
    assert forall|i: int| 0 <= i < h.size() implies {
        &&& #[trigger] bar(h.buckets[i], divisor(h, width)) == Seq::<char>::empty()
        &&& count_label(h.buckets[i], count_width(h.top)) == seq!['0']
    } by {
        assert(h.buckets[i].count <= h.top);
        assert(bar(h.buckets[i], 1) =~= Seq::<char>::empty());
        assert(digits(0) =~= seq!['0']);
        assert(count_label(h.buckets[i], 1) =~= seq!['0']);
    }
}

/// `ceil_log10(n)` is the least exponent `k` with `10^k >= n`.
pub proof fn ceil_log10_is_least_exponent(n: nat)
    requires
        n >= 1,
    ensures
        pow10(ceil_log10(n)) >= n,
        ceil_log10(n) >= 1 ==> pow10((ceil_log10(n) - 1) as nat) < n,
    decreases n,
{
    if n > 1 {
        let m = ((n - 1) / 10 + 1) as nat;
        ceil_log10_is_least_exponent(m);
        let k = ceil_log10(m);
        assert(ceil_log10(n) == k + 1);
        assert(pow10(k + 1) == 10 * pow10(k));
        if k >= 1 {
            assert(pow10(k) == 10 * pow10((k - 1) as nat));
        }
    }
}

/// A number of at most `10^k` has a rounded-up logarithm of at most `k`.
pub proof fn ceil_log10_bound(n: nat, k: nat)
    requires
        n <= pow10(k),
    ensures
        ceil_log10(n) <= k,
    decreases n,
{
    if n > 1 {
        ceil_log10_bound(((n - 1) / 10 + 1) as nat, (k - 1) as nat);
    }
}

/// The width of the count label for a largest count of `top`.
pub fn get_width_count(top: usize) -> (r: usize)
    ensures
        r == count_width(top as nat),
        1 <= r <= 20,
{
    proof {
        reveal_with_fuel(pow10, 21);
        assert(pow10(20) == 100_000_000_000_000_000_000);
        ceil_log10_bound(top as nat, 20);
    }
    let mut n: usize = top;
    let mut k: usize = 0;
    while n > 1
        invariant
            ceil_log10(top as nat) == k + ceil_log10(n as nat),
            ceil_log10(top as nat) <= 20,
        decreases n,
    {
        n = (n - 1) / 10 + 1;
        k = k + 1;
    }
    if k < 1 {
        1
    } else {
        k
    }
}

/// The header line from its two decorated pieces.
pub fn header_text(mark: &str, number: &str) -> (r: String)
    ensures
        r@ == header_of(mark@, number@),
{
    let mut out = String::from_str("each ");
    out.append(mark);
    out.append(" represents a count of ");
    out.append(number);
    out.append("\n");
    out
}

/// A bucket line from its three decorated pieces.
pub fn line_text(range: &str, count: &str, bar: &str) -> (r: String)
    ensures
        r@ == line_of(range@, count@, bar@),
{
    let mut out = String::from_str("[");
    out.append(range);
    out.append("] [");
    out.append(count);
    out.append("] ");
    out.append(bar);
    out.append("\n");
    out
}

/// The range label of `bucket` for bounds of `width` columns.
pub fn range_text(bucket: &Bucket, width: usize) -> (r: String)
    ensures
        r@ == range_label(*bucket, width as int),
{
    let mut out = format_decimal(bucket.start, width);
    out.append(" .. ");
    out.append(format_decimal(bucket.end, width).as_str());
    out
}

/// The bar of `bucket` where one glyph stands for `divisor` samples.
pub fn bar_text(bucket: &Bucket, divisor: usize) -> (r: String)
    requires
        divisor > 0,
    ensures
        r@ == bar(*bucket, divisor as int),
{
    let mut out = String::new();
    push_repeated(&mut out, '\u{220e}', bucket.count / divisor);
    assert(out@ =~= bar(*bucket, divisor as int));
    out
}

/// Renders histograms for a target of `width` columns.
#[derive(Clone, Copy, Debug)]
pub struct HistWriter {
    pub width: usize,
}

impl HistWriter {
    /// The report of `hist`: the header line that names the divisor, then one
    /// line for each bucket in order. Under `Decor::Plain` it is the plain
    /// report; under `Decor::Ansi` each piece may come back painted.
    pub fn write(&self, hist: &Histogram, decor: Decor) -> (r: String)
        ensures
            is_report(r@, hist@, self.width as int),
            decor == Decor::Plain ==> r@ == plain_report(hist@, self.width as int),
    {
        let width_range: usize = Self::get_width(hist);
        let width_count: usize = get_width_count(hist.top());
        let divisor: usize = self.get_divisor(hist);
        let mark = decorate(decor, Tint::Red, "\u{220e}");
        let digits_text = format_count(divisor, 0);
        assert(digits_text@ == digits(divisor as nat));
        let number = decorate(decor, Tint::Blue, digits_text.as_str());
        proof {
            assert(is_painted(Tint::Red, "\u{220e}"@, mark@));
            let d = divisor as int;
            assert(is_painted(Tint::Blue, digits(d as nat), number@));
        }
        let mut out = header_text(mark.as_str(), number.as_str());
        let ghost head = out@;
        let ghost mut lines: Seq<Seq<char>> = Seq::empty();
        assert(is_header(head, divisor as int));
        assert(out@ =~= head + joined(lines));
        let size: usize = hist.size();
        let mut i: usize = 0;
        while i < size
            invariant
                0 <= i <= size,
                size == hist@.buckets.len(),
                divisor == self::divisor(hist@, self.width as int),
                width_range == range_width(hist@),
                width_count == count_width(hist@.top),
                lines.len() == i,
                forall|j: int|
                    0 <= j < i ==> is_line(
                        #[trigger] lines[j],
                        hist@.buckets[j],
                        width_range as int,
                        width_count as int,
                        divisor as int,
                    ),
                decor == Decor::Plain ==> lines =~= plain_lines(hist@, self.width as int).take(
                    i as int,
                ),
                out@ == head + joined(lines),
            decreases size - i,
        {
            let bucket = hist.bucket(i);
            let text = self.write_bucket(&bucket, divisor, width_range, width_count, decor);
            out.append(text.as_str());
            proof {
                let grown = lines.push(text@);
                assert(grown.drop_last() =~= lines);
                assert(out@ =~= head + joined(grown));
                lines = grown;
            }
            i = i + 1;
        }
        proof {
            let all = plain_lines(hist@, self.width as int);
            assert(all.take(all.len() as int) =~= all);
        }
        out
    }

    /// The line of one bucket. Under `Decor::Plain` it is the plain line;
    /// under `Decor::Ansi` each of its three pieces may come back painted.
    pub fn write_bucket(
        &self,
        bucket: &Bucket,
        divisor: usize,
        width: usize,
        width_count: usize,
        decor: Decor,
    ) -> (r: String)
        requires
            divisor > 0,
        ensures
            is_line(r@, *bucket, width as int, width_count as int, divisor as int),
            decor == Decor::Plain ==> r@ == plain_line(
                *bucket,
                width as int,
                width_count as int,
                divisor as int,
            ),
    {
        let glyphs = bar_text(bucket, divisor);
        let bounds = range_text(bucket, width);
        let count = format_count(bucket.count, width_count);
        let bar = decorate(decor, Tint::Red, glyphs.as_str());
        let range = decorate(decor, Tint::Blue, bounds.as_str());
        let count = decorate(decor, Tint::Green, count.as_str());
        proof {
            assert(is_painted(Tint::Blue, range_label(*bucket, width as int), range@));
            assert(is_painted(Tint::Green, count_label(*bucket, width_count as int), count@));
            assert(is_painted(Tint::Red, self::bar(*bucket, divisor as int), bar@));
        }
        line_text(range.as_str(), count.as_str(), bar.as_str())
    }

    /// The number of samples that one glyph stands for: the largest count
    /// divided by the longest bar, rounded down, and one at least.
    pub fn get_divisor(&self, hist: &Histogram) -> (r: usize)
        ensures
            r == divisor(hist@, self.width as int),
            r >= 1,
    {
        let width_range: usize = Self::get_width(hist);
        let width_count: usize = get_width_count(hist.top());
        let fitting: usize = self.get_max_bar_len(width_range + width_count);
        let room: usize = if fitting == 0 {
            FALLBACK_BAR_LEN
        } else {
            fitting
        };
        let quotient: usize = hist.top() / room;
        if quotient < 1 {
            1
        } else {
            quotient
        }
    }

    /// The width of a range bound of `hist`.
    pub fn get_width(hist: &Histogram) -> (r: usize)
        ensures
            r == range_width(hist@),
            5 <= r <= 25,
    {
        let a: usize = decimal_len(hist.min());
        let b: usize = decimal_len(hist.max());
        if a >= b {
            a
        } else {
            b
        }
    }

    /// The longest bar for labels of `fixed_width` columns: what the target
    /// width leaves after them and the ten columns of punctuation, or 75
    /// where the target is narrower than those together.
    pub fn get_max_bar_len(&self, fixed_width: usize) -> (r: usize)
        ensures
            r == max_bar_len(self.width as int, fixed_width as int),
    {
        if self.width < EXTRA_CHARS || self.width - EXTRA_CHARS < fixed_width {
            FALLBACK_BAR_LEN
        } else {
            self.width - EXTRA_CHARS - fixed_width
        }
    }
}

impl Histogram {
    /// The report of the histogram for a target of `width` columns, or of 110
    /// where none is given, decorated through `yansi`.
    pub fn fmt(&self, width: Option<usize>) -> (r: String)
        ensures
            is_report(
                r@,
                self@,
                match width {
                    Some(w) => w as int,
                    None => DEFAULT_WIDTH as int,
                },
            ),
    {
        let writer = HistWriter {
            width: match width {
                Some(w) => w,
                None => DEFAULT_WIDTH,
            },
        };
        writer.write(self, Decor::Ansi)
    }
}

} // verus!
