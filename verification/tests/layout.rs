use shinbun::display::DisplayFeed;
use shinbun::feeds::{Feed, FeedEntry};
use shinbun::layout::{
    count_width, decimal_digits, error_popup_area, notice_popup_area, scroll_window, source_column,
    source_width, unread_count, wrapped_height, Area, Window,
};

fn entry(read: bool, source: Option<&str>) -> FeedEntry {
    FeedEntry {
        title: "t".to_string(),
        published: None,
        text: String::new(),
        links: Vec::new(),
        media: String::new(),
        feed_title: source.map(|s| s.to_string()),
        read,
    }
}

fn shown(entries: Vec<FeedEntry>) -> DisplayFeed {
    DisplayFeed::Regular(Feed { url: "u".to_string(), title: "U".to_string(), entries, tags: None })
}

#[test]
fn unread_entries_are_counted() {
    assert_eq!(unread_count(&[]), 0);
    assert_eq!(unread_count(&[entry(true, None), entry(false, None), entry(false, None)]), 2);
    assert_eq!(unread_count(&[entry(true, None)]), 0);
}

#[test]
fn digits_are_counted() {
    assert_eq!(decimal_digits(0), 1);
    assert_eq!(decimal_digits(9), 1);
    assert_eq!(decimal_digits(10), 2);
    assert_eq!(decimal_digits(999), 3);
    assert_eq!(decimal_digits(1000), 4);
    assert_eq!(decimal_digits(usize::MAX), usize::MAX.to_string().len() as u16);
}

#[test]
fn the_count_column_fits_the_widest_count() {
    assert_eq!(count_width(&Vec::new()), 5);
    assert_eq!(count_width(&vec![shown(vec![entry(false, None)])]), 5);
    let many: Vec<FeedEntry> = (0..1000).map(|i| entry(i % 2 == 0, None)).collect();
    assert_eq!(count_width(&vec![shown(Vec::new()), shown(many)]), "500/1000".len() as u16);
    let hundred: Vec<FeedEntry> = (0..100).map(|_| entry(false, None)).collect();
    assert_eq!(count_width(&vec![shown(hundred)]), "100/100".len() as u16);
}

#[test]
fn the_source_column_fits_the_longest_source() {
    assert_eq!(source_width(&[]), 0);
    assert_eq!(source_width(&[entry(false, None)]), 0);
    assert_eq!(
        source_width(&[entry(false, Some("Alpha")), entry(false, None), entry(false, Some("Be"))]),
        5
    );
    assert_eq!(source_width(&[entry(false, Some("日本"))]), 6);
    let long = "x".repeat(70_000);
    assert_eq!(source_width(&[entry(false, Some(&long))]), u16::MAX);
    assert_eq!(source_column(true, 7), 7);
    assert_eq!(source_column(true, 0), 0);
    assert_eq!(source_column(false, 7), 0);
}

#[test]
fn wrapped_lines_are_counted() {
    assert_eq!(wrapped_height(&Vec::new(), 10), 0);
    assert_eq!(wrapped_height(&vec![0], 10), 1);
    assert_eq!(wrapped_height(&vec![1, 10, 11, 20, 21, 0], 10), 1 + 1 + 2 + 2 + 3 + 1);
    assert_eq!(wrapped_height(&vec![5, 0, 3], 0), 5 + 1 + 3);
    assert_eq!(wrapped_height(&vec![5, 0, 3], 1), 5 + 1 + 3);
    assert_eq!(wrapped_height(&vec![usize::MAX, usize::MAX], 1), usize::MAX);
    assert_eq!(wrapped_height(&vec![usize::MAX], 2), usize::MAX / 2 + 1);
}

#[test]
fn the_window_stays_within_the_text() {
    assert_eq!(
        scroll_window(0, 100, 10),
        Window { scroll: 0, max_scroll: 90, first_visible: 1, last_visible: 10 }
    );
    assert_eq!(
        scroll_window(95, 100, 10),
        Window { scroll: 90, max_scroll: 90, first_visible: 91, last_visible: 100 }
    );
    assert_eq!(
        scroll_window(3, 5, 10),
        Window { scroll: 0, max_scroll: 0, first_visible: 1, last_visible: 5 }
    );
    assert_eq!(
        scroll_window(3, 0, 10),
        Window { scroll: 0, max_scroll: 0, first_visible: 0, last_visible: 0 }
    );
    assert_eq!(
        scroll_window(3, 10, 0),
        Window { scroll: 3, max_scroll: 10, first_visible: 0, last_visible: 0 }
    );
    assert_eq!(
        scroll_window(usize::MAX, usize::MAX, usize::MAX),
        Window { scroll: 0, max_scroll: 0, first_visible: 1, last_visible: usize::MAX }
    );
}

#[test]
fn the_list_of_errors_sits_in_the_middle() {
    let screen = Area { x: 0, y: 0, width: 120, height: 40 };
    assert_eq!(error_popup_area(screen, 3), Area { x: 20, y: 16, width: 80, height: 7 });
    let small = Area { x: 2, y: 1, width: 30, height: 8 };
    assert_eq!(error_popup_area(small, 30), Area { x: 7, y: 3, width: 20, height: 4 });
    let tiny = Area { x: 0, y: 0, width: 5, height: 3 };
    assert_eq!(error_popup_area(tiny, 1), Area { x: 2, y: 1, width: 0, height: 0 });
    let far = Area { x: u16::MAX, y: u16::MAX, width: 100, height: 100 };
    assert_eq!(
        error_popup_area(far, usize::MAX),
        Area { x: u16::MAX, y: u16::MAX, width: 80, height: 96 }
    );
}

#[test]
fn the_notice_sits_in_the_upper_right_corner() {
    let screen = Area { x: 0, y: 0, width: 120, height: 40 };
    assert_eq!(notice_popup_area(screen, 20), Area { x: 97, y: 1, width: 22, height: 3 });
    let small = Area { x: 3, y: 2, width: 10, height: 5 };
    assert_eq!(notice_popup_area(small, 20), Area { x: 4, y: 3, width: 8, height: 3 });
    let tiny = Area { x: 0, y: 0, width: 1, height: 1 };
    assert_eq!(notice_popup_area(tiny, 20), Area { x: 0, y: 1, width: 0, height: 3 });
    let far = Area { x: u16::MAX, y: u16::MAX, width: u16::MAX, height: 1 };
    assert_eq!(
        notice_popup_area(far, usize::MAX),
        Area { x: u16::MAX, y: u16::MAX, width: u16::MAX - 2, height: 3 }
    );
}
