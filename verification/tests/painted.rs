use timehist::histogram::{Bucket, Histogram, Stats};
use timehist::paint::{decorate, Decor, Tint};
use timehist::writer::HistWriter;

#[test]
fn ansi_decoration_wraps_the_text_in_colour() {
    yansi::Paint::enable();
    assert_eq!(decorate(Decor::Ansi, Tint::Red, "abc"), "\x1b[31mabc\x1b[0m");
    assert_eq!(decorate(Decor::Ansi, Tint::Green, "12"), "\x1b[32m12\x1b[0m");
    assert_eq!(decorate(Decor::Ansi, Tint::Blue, ""), "\x1b[34m\x1b[0m");
    assert_eq!(decorate(Decor::Plain, Tint::Blue, "abc"), "abc");
}

#[test]
fn ansi_line_paints_each_piece() {
    yansi::Paint::enable();
    let bucket = Bucket { start: 500, end: 3000, count: 2 };
    let text = HistWriter { width: 110 }.write_bucket(&bucket, 1, 6, 1, Decor::Ansi);
    assert_eq!(
        text,
        "[\x1b[34m 0.500 ..  3.000\x1b[0m] [\x1b[32m2\x1b[0m] \x1b[31m∎∎\x1b[0m\n"
    );
}

#[test]
fn ansi_report_paints_the_header() {
    yansi::Paint::enable();
    let mut hist = Histogram::new(1, 1000, Stats { min: 0, max: 0 }).unwrap();
    hist.add(1);
    let text = hist.fmt(Some(80));
    assert_eq!(
        text,
        "each \x1b[31m∎\x1b[0m represents a count of \x1b[34m1\x1b[0m\n\
         [\x1b[34m0.000 .. 1.000\x1b[0m] [\x1b[32m1\x1b[0m] \x1b[31m∎\x1b[0m\n"
    );
}
