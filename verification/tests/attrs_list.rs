use kalamos::{Attrs, AttrsList, AttrsOwned, Color, Family, Weight};

fn bold() -> Attrs<'static> {
    Attrs::new().weight(Weight::bold())
}

fn red() -> Attrs<'static> {
    Attrs::new().color(Color::rgb(0xFF, 0, 0))
}

#[test]
fn get_span_reads_span_or_defaults() {
    let defaults = Attrs::new().family(Family::Serif);
    let mut list = AttrsList::new(&defaults);
    assert_eq!(list.defaults(), defaults);
    list.add_span(2..5, &bold());
    assert_eq!(list.get_span(1), defaults);
    assert_eq!(list.get_span(2), bold());
    assert_eq!(list.get_span(4), bold());
    assert_eq!(list.get_span(5), defaults);
}

#[test]
fn empty_span_is_ignored() {
    let mut list = AttrsList::new(&Attrs::new());
    list.add_span(3..3, &bold());
    #[allow(clippy::reversed_empty_ranges)]
    list.add_span(4..1, &bold());
    assert!(list.spans().is_empty());
    assert_eq!(list.get_span(3), Attrs::new());
}

#[test]
fn later_span_overrides_overlap() {
    let mut list = AttrsList::new(&Attrs::new());
    list.add_span(0..10, &bold());
    list.add_span(3..6, &red());
    let spans: Vec<_> = list
        .spans()
        .into_iter()
        .map(|(range, attrs)| (range.clone(), attrs.clone()))
        .collect();
    assert_eq!(
        spans,
        vec![
            (0..3, AttrsOwned::new(&bold())),
            (3..6, AttrsOwned::new(&red())),
            (6..10, AttrsOwned::new(&bold())),
        ]
    );
    assert_eq!(list.get_span(5), red());
    assert_eq!(list.get_span(6), bold());
}

#[test]
fn split_off_moves_the_tail_down() {
    let mut list = AttrsList::new(&Attrs::new());
    list.add_span(1..4, &bold());
    list.add_span(6..8, &red());
    let tail = list.split_off(3);
    // The kept part reads as before below the split and the defaults after it.
    assert_eq!(list.get_span(1), bold());
    assert_eq!(list.get_span(2), bold());
    assert_eq!(list.get_span(3), Attrs::new());
    assert_eq!(list.get_span(6), Attrs::new());
    // The split-off part reads at k what the whole list read at k + 3.
    assert_eq!(tail.get_span(0), bold());
    assert_eq!(tail.get_span(1), Attrs::new());
    assert_eq!(tail.get_span(3), red());
    assert_eq!(tail.get_span(4), red());
    assert_eq!(tail.get_span(5), Attrs::new());
    assert_eq!(tail.defaults(), Attrs::new());
    let tail_ranges: Vec<_> = tail.spans().into_iter().map(|(r, _)| r.clone()).collect();
    assert_eq!(tail_ranges, vec![0..1, 3..5]);
}

#[test]
fn split_off_at_zero_and_past_the_end() {
    let mut list = AttrsList::new(&Attrs::new());
    list.add_span(2..4, &bold());
    let whole = list.clone();
    let tail = list.split_off(0);
    assert!(list.spans().is_empty());
    assert_eq!(tail, whole);

    let mut list = whole.clone();
    let tail = list.split_off(100);
    assert_eq!(list, whole);
    assert!(tail.spans().is_empty());

    let mut list = whole.clone();
    let tail = list.split_off(usize::MAX);
    assert_eq!(list, whole);
    assert!(tail.spans().is_empty());
}

#[test]
fn clear_spans_keeps_defaults() {
    let defaults = Attrs::new().family(Family::Monospace);
    let mut list = AttrsList::new(&defaults);
    list.add_span(0..3, &bold());
    list.clear_spans();
    assert!(list.spans().is_empty());
    assert_eq!(list.get_span(1), defaults);
}

#[test]
fn adjacent_equal_spans_coalesce() {
    let mut list = AttrsList::new(&Attrs::new());
    list.add_span(0..2, &bold());
    list.add_span(2..4, &bold());
    let ranges: Vec<_> = list.spans().into_iter().map(|(r, _)| r.clone()).collect();
    assert_eq!(ranges, vec![0..4]);
}

#[test]
fn stored_letter_spacing_comes_back_unchanged() {
    let neg_zero = (-0.0f32).to_bits();
    let defaults = Attrs::new().letter_spacing(neg_zero);
    let mut list = AttrsList::new(&defaults);
    let spaced = Attrs::new().letter_spacing(neg_zero);
    list.add_span(2..4, &spaced);
    let read = |a: Attrs| a.letter_spacing_opt.map(|s| s.0);
    assert_eq!(read(list.defaults()), Some(neg_zero));
    assert_eq!(read(list.get_span(0)), Some(neg_zero));
    assert_eq!(read(list.get_span(3)), Some(neg_zero));
    let tail = list.split_off(3);
    assert_eq!(read(tail.get_span(0)), Some(neg_zero));
    assert_eq!(read(list.get_span(2)), Some(neg_zero));
    assert_eq!(read(list.clone().get_span(2)), Some(neg_zero));
}

#[test]
fn merged_span_takes_the_new_letter_spacing() {
    let mut list = AttrsList::new(&Attrs::new());
    list.add_span(0..5, &Attrs::new().letter_spacing((-0.0f32).to_bits()));
    list.add_span(5..8, &Attrs::new().letter_spacing(0.0f32.to_bits()));
    assert_eq!(list.spans().len(), 1);
    assert_eq!(list.get_span(1).letter_spacing_opt.map(|s| s.0), Some(0.0f32.to_bits()));
    assert_eq!(list.get_span(6).letter_spacing_opt.map(|s| s.0), Some(0.0f32.to_bits()));
}
