use rugit::window::{visible_window, SCROLLOFF};

/// `cursor - offset` must index the sliced list correctly.
#[test]
fn cursor_always_inside_window() {
    for n in [0usize, 1, 2, 7, 40, 3000] {
        for height in [0usize, 1, 2, 3, 6, 7, 24, 80] {
            for cursor in 0..n {
                let (offset, end) = visible_window(cursor, height, n);
                assert!(offset <= end, "offset>end n={n} h={height} c={cursor}");
                assert!(end <= n, "end>n n={n} h={height} c={cursor}");
                assert!(end - offset <= height, "window taller than viewport");
                assert!(offset <= cursor, "offset>cursor n={n} h={height} c={cursor}");
                if height > 0 {
                    assert!(cursor < end, "cursor>=end n={n} h={height} c={cursor}");
                    assert!(cursor - offset < height, "select index out of view");
                }
            }
        }
    }
}

#[test]
fn window_fills_viewport_when_content_allows() {
    for cursor in 0..3000 {
        let (offset, end) = visible_window(cursor, 80, 3000);
        assert_eq!(end - offset, 80, "cursor={cursor}");
    }
}

#[test]
fn no_scrolling_when_everything_fits() {
    for cursor in 0..10 {
        assert_eq!(visible_window(cursor, 40, 10), (0, 10));
    }
}

#[test]
fn keeps_scrolloff_below_cursor_until_the_end() {
    let (n, h) = (3000, 40);
    // Mid-list: cursor sits SCROLLOFF above the window bottom.
    let (offset, end) = visible_window(500, h, n);
    assert_eq!(end - 500 - 1, SCROLLOFF);
    assert_eq!(offset, 500 + SCROLLOFF + 1 - h);
    // At the end, stop rather than scroll past the last item.
    let (offset, end) = visible_window(n - 1, h, n);
    assert_eq!((offset, end), (n - h, n));
}

#[test]
fn window_is_bounded_by_viewport_not_item_count() {
    // Work per frame scales with the viewport, not the list.
    let (offset, end) = visible_window(150_000, 30, 1_000_000);
    assert_eq!(end - offset, 30);
}

#[test]
fn short_viewport_keeps_offset_at_cursor() {
    assert_eq!(visible_window(3, 2, 100), (3, 5));
    assert_eq!(visible_window(0, 0, 10), (0, 0));
}
