use barepass::calendar::{civil_from_days, format_unix_timestamp};
use barepass::layout::{centered_rect, Area};

#[test]
fn epoch_and_known_dates() {
    assert_eq!(civil_from_days(0), (1970, 1, 1));
    assert_eq!(civil_from_days(-1), (1969, 12, 31));
    assert_eq!(civil_from_days(59), (1970, 3, 1));
    assert_eq!(civil_from_days(11016), (2000, 2, 29));
    assert_eq!(civil_from_days(-719468), (0, 3, 1));
}

#[test]
fn timestamps_render_as_utc() {
    assert_eq!(format_unix_timestamp(0), "1970-01-01 00:00:00 UTC");
    assert_eq!(format_unix_timestamp(1_700_000_000), "2023-11-14 22:13:20 UTC");
    assert_eq!(format_unix_timestamp(951_782_399), "2000-02-28 23:59:59 UTC");
}

#[test]
fn centered_box_fits_inside_the_area() {
    let area = Area { x: 10, y: 5, width: 80, height: 24 };
    let r = centered_rect(40, 10, area);
    assert!(r == Area { x: 30, y: 12, width: 40, height: 10 });
    let clipped = centered_rect(200, 100, area);
    assert!(clipped == area);
    let odd = centered_rect(3, 3, Area { x: 0, y: 0, width: 8, height: 8 });
    assert!(odd == Area { x: 2, y: 2, width: 3, height: 3 });
}
