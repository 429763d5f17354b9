use biblizap_table::pagination::{compute_window, PageLink};

#[test]
fn first_page_of_many() {
    let w = compute_window(95, 10, 0);
    assert_eq!((w.first_index, w.last_index, w.current_page), (0, 10, 0));
    assert_eq!(
        w.page_links,
        vec![
            PageLink::Page(0),
            PageLink::Page(1),
            PageLink::Page(2),
            PageLink::Page(3),
            PageLink::Page(4),
            PageLink::Ellipsis,
            PageLink::Page(8),
        ]
    );
}

#[test]
fn middle_page_has_both_ends() {
    let w = compute_window(200, 10, 10);
    assert_eq!((w.first_index, w.last_index), (100, 110));
    assert_eq!(
        w.page_links,
        vec![
            PageLink::Page(0),
            PageLink::Ellipsis,
            PageLink::Page(8),
            PageLink::Page(9),
            PageLink::Page(10),
            PageLink::Page(11),
            PageLink::Page(12),
            PageLink::Ellipsis,
            PageLink::Page(19),
        ]
    );
}

#[test]
fn near_the_start_no_gap_marker() {
    let w = compute_window(200, 10, 3);
    assert_eq!(
        w.page_links,
        vec![
            PageLink::Page(0),
            PageLink::Page(1),
            PageLink::Page(2),
            PageLink::Page(3),
            PageLink::Page(4),
            PageLink::Page(5),
            PageLink::Ellipsis,
            PageLink::Page(19),
        ]
    );
}

#[test]
fn last_pages_window_shifts_left() {
    let w = compute_window(100, 10, 9);
    assert_eq!((w.first_index, w.last_index), (90, 100));
    assert_eq!(
        w.page_links,
        vec![
            PageLink::Page(0),
            PageLink::Ellipsis,
            PageLink::Page(5),
            PageLink::Page(6),
            PageLink::Page(7),
            PageLink::Page(8),
            PageLink::Page(9),
        ]
    );
}

#[test]
fn partial_last_page_is_not_counted() {
    // 25 rows, 10 a page: two full pages; index 2 is the clamp bound.
    let w = compute_window(25, 10, 7);
    assert_eq!(w.current_page, 2);
    assert_eq!((w.first_index, w.last_index), (20, 25));
    assert_eq!(w.page_links, vec![PageLink::Page(0), PageLink::Page(1)]);
}

#[test]
fn empty_table() {
    let w = compute_window(0, 10, 3);
    assert_eq!((w.first_index, w.last_index, w.current_page), (0, 0, 0));
    assert!(w.page_links.is_empty());
}

#[test]
fn window_bounds_always_ordered() {
    for total in 0..40usize {
        for size in 1..12usize {
            for page in 0..15usize {
                let w = compute_window(total, size, page);
                assert!(w.first_index <= w.last_index);
                assert!(w.last_index <= total);
                assert!(w.current_page <= total / size);
                for l in &w.page_links {
                    if let PageLink::Page(p) = l {
                        assert!(*p < total / size);
                    }
                }
            }
        }
    }
}

#[test]
fn huge_counts_do_not_overflow() {
    let w = compute_window(usize::MAX, 1, usize::MAX);
    assert_eq!(w.current_page, usize::MAX);
    assert_eq!(w.first_index, usize::MAX);
    assert_eq!(w.last_index, usize::MAX);
}
