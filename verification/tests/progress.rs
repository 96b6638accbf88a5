use progrust_bar::bar::ProgressIndicatorIteratorExt;

#[test]
fn iterator_still_iterates() {
    let v = &[1, 2, 3];
    let mut p = v.iter().progress().bar();
    assert_eq!(p.next(), Some(&1));
    assert_eq!(p.next(), Some(&2));
    assert_eq!(p.next(), Some(&3));
    assert_eq!(p.next(), None);
}

#[test]
fn format_empty_sized_iter() {
    let v: Vec<u8> = Vec::new();
    let p = v.iter().progress().bar();
    assert_eq!(p.format_bar().len(), 19);
}

#[test]
fn format_sized_iter() {
    let v = &[1];
    let p = v.iter().progress().bar();
    assert!(p.format_bar().starts_with(' '));
    assert!(p.format_bar().contains('%'));
}

#[test]
fn format_with_width() {
    let v = &[1, 2, 3];
    let p = v.iter().progress().bar_custom_width(10);
    assert!(p.format_bar().contains('%'));
    assert_eq!(p.format_bar().len(), 91);
    assert_eq!(p.width, 10);
    assert_eq!(p.nbars, 8);
}

#[test]
fn progress_bar_with_width() {
    let v = &[1, 2, 3];
    let p = v.iter().progress().spinner();
    assert!(p.format_bar().starts_with(' '));
    assert!(p.format_bar().contains("it"));
}

#[test]
fn format_unsized_iter() {
    let v = [0..];
    let p = v.iter().progress();
    assert!(p.format_bar().starts_with(' '));
    assert!(p.format_bar().contains("it"));
}

#[test]
fn transparency_same_items_same_order() {
    let v = vec![10, 20, 30, 40];
    let mut p = v.clone().into_iter().progress().bar();
    let mut seen = Vec::new();
    while let Some(x) = p.next() {
        seen.push(x);
    }
    assert_eq!(seen, v);
}

#[test]
fn collect_yields_source_items() {
    let v = vec![1, 2, 3, 4, 5];
    let got = v.clone().into_iter().progress().bar().collect();
    assert_eq!(got, v);
    let empty: Vec<i32> = Vec::new();
    let got_empty = empty.clone().into_iter().progress().bar().collect();
    assert_eq!(got_empty, empty);
}

#[test]
fn counter_counts_successful_pulls_only() {
    let v = &[7, 8];
    let mut p = v.iter().progress().bar();
    assert_eq!(p.i, 0);
    p.next();
    assert_eq!(p.i, 1);
    p.next();
    assert_eq!(p.i, 2);
    p.next();
    assert_eq!(p.i, 2);
    p.next();
    assert_eq!(p.i, 2);
}

#[test]
fn bar_captures_length_as_bound() {
    let v = &[1, 2, 3];
    let p = v.iter().progress().bar();
    assert_eq!(p.bound, Some(3));
    let q = v.iter().progress();
    assert_eq!(q.bound, None);
}

#[test]
fn first_frame_of_bounded_source() {
    let v = &[1, 2, 3];
    let p = v.iter().progress().bar();
    assert_eq!(p.format_bar(), "   0.00% [        ]");
}

#[test]
fn partial_frames_of_bounded_source() {
    let v = &[1, 2, 3];
    let mut p = v.iter().progress().bar();
    p.next();
    assert_eq!(p.format_bar(), "  33.33% [\u{2588}\u{2588}\u{258f}     ]");
    p.next();
    assert_eq!(p.format_bar(), "  66.67% [\u{2588}\u{2588}\u{2588}\u{2588}\u{2588}\u{258e}  ]");
}

#[test]
fn completion_frame_has_only_full_blocks() {
    let v = &[42];
    let mut p = v.iter().progress().bar();
    p.next();
    assert_eq!(p.format_bar(), " 100.00% [\u{2588}\u{2588}\u{2588}\u{2588}\u{2588}\u{2588}\u{2588}\u{2588}]");
}

#[test]
fn scenario_three_items_four_pulls() {
    let v = &[1, 2, 3];
    let mut p = v.iter().progress().bar();
    assert_eq!(p.format_bar(), "   0.00% [        ]");
    assert_eq!(p.next(), Some(&1));
    assert_eq!(p.next(), Some(&2));
    assert_eq!(p.next(), Some(&3));
    assert_eq!(p.i, 3);
    assert_eq!(p.format_bar(), " 100.00% [\u{2588}\u{2588}\u{2588}\u{2588}\u{2588}\u{2588}\u{2588}\u{2588}]");
    assert_eq!(p.next(), None);
    assert_eq!(p.i, 3);
}

#[test]
fn spinner_frames_rotate_and_pad() {
    let v = [0..];
    let mut p = v.iter().progress();
    assert_eq!(p.format_bar(), "       0it -");
    p.i = 1;
    assert_eq!(p.format_bar(), "       1it \\");
    p.i = 2;
    assert_eq!(p.format_bar(), "       2it |");
    p.i = 3;
    assert_eq!(p.format_bar(), "       3it /");
    p.i = 12345678;
    assert_eq!(p.format_bar(), "12345678it |");
    p.i = 123456789;
    assert_eq!(p.format_bar(), "123456789it \\");
}

#[test]
fn frame_mode_markers_never_mix() {
    let v = &[1, 2, 3, 4, 5];
    let mut bar = v.iter().progress().bar();
    let mut spin = v.iter().progress().spinner();
    for _ in 0..=7 {
        let f = bar.format_bar();
        assert!(f.contains('%'));
        assert!(!f.contains("it"));
        let g = spin.format_bar();
        assert!(g.contains("it"));
        assert!(!g.contains('%'));
        bar.i += 1;
        spin.i += 1;
    }
}

#[test]
fn width_override_widens_frame() {
    let v = &[1, 2, 3];
    let p = v.iter().progress().bar_custom_width(10);
    assert_eq!(p.width, 10);
    let f = p.format_bar();
    let open = f.find('[').unwrap();
    let close = f.rfind(']').unwrap();
    assert_eq!(f[open + 1..close].chars().count(), 80);
    let q = v.iter().progress().bar_custom_width(0);
    assert_eq!(q.width, 1);
}

#[test]
fn no_out_of_range_access_past_bound() {
    let v = &[1, 2, 3];
    let mut p = v.iter().progress().bar();
    for i in 0..=8 {
        p.i = i;
        let f = p.format_bar();
        assert!(f.ends_with(']'));
    }
    let mut q = v.iter().progress().bar_custom_width(10);
    for i in 0..=8 {
        q.i = i;
        let f = q.format_bar();
        assert!(f.ends_with(']'));
    }
}

#[test]
fn zero_length_bound_yields_nan_field() {
    let v: Vec<u8> = Vec::new();
    let mut p = v.iter().progress().bar();
    assert_eq!(p.bound, Some(0));
    assert_eq!(p.format_bar(), "    NaN% [        ]");
    p.i = 1;
    assert_eq!(
        p.format_bar(),
        "    NaN% [\u{2588}\u{2588}\u{2588}\u{2588}\u{2588}\u{2588}\u{2588}\u{2588}]"
    );
}
