use mandelbrot::compute::{compute, compute_partition, merge};
use mandelbrot::field::{EscapePoint, FractalField, Orbit};
use mandelbrot::partition::{split_columns, ColumnRange};

fn tag(x: u32, y: u32) -> Orbit {
    Orbit { escape: (x as u64) * 1000 + y as u64, z_re: x as u64, z_im: y as u64 }
}

#[test]
fn split_columns_covers_odd_width() {
    let ranges = split_columns(10, 4);
    assert_eq!(
        ranges,
        vec![
            ColumnRange { start: 0, end: 2 },
            ColumnRange { start: 2, end: 5 },
            ColumnRange { start: 5, end: 7 },
            ColumnRange { start: 7, end: 10 },
        ]
    );
}

#[test]
fn partition_count_does_not_change_the_field() {
    let one = compute(16, 9, 1, &tag).unwrap();
    let four = compute(16, 9, 4, &tag).unwrap();
    let sixteen = compute(16, 9, 16, &tag).unwrap();
    for x in 0..16 {
        for y in 0..9 {
            assert_eq!(one.get(x, y), Some(tag(x, y)));
            assert_eq!(four.get(x, y), one.get(x, y));
            assert_eq!(sixteen.get(x, y), one.get(x, y));
        }
    }
    assert!(one.is_complete());
}

#[test]
fn merge_skips_nothing_and_ignores_order() {
    let ranges = split_columns(6, 3);
    let mut lists: Vec<Vec<EscapePoint>> =
        ranges.iter().map(|r| compute_partition(*r, 2, &tag)).collect();
    let forward = merge(6, 2, &lists).unwrap();
    lists.reverse();
    let backward = merge(6, 2, &lists).unwrap();
    for x in 0..6 {
        for y in 0..2 {
            assert_eq!(forward.get(x, y), Some(tag(x, y)));
            assert_eq!(backward.get(x, y), forward.get(x, y));
        }
    }
    lists.pop();
    let partial: FractalField = merge(6, 2, &lists).unwrap();
    assert!(!partial.is_complete());
    assert_eq!(partial.get(0, 0), None);
    assert_eq!(partial.get(5, 1), Some(tag(5, 1)));
}

#[test]
fn split_columns_matches_even_widths() {
    let ranges = split_columns(1920, 8);
    assert_eq!(ranges.len(), 8);
    for (i, r) in ranges.iter().enumerate() {
        assert_eq!((r.start, r.end), (240 * i as u32, 240 * (i as u32 + 1)));
        assert_eq!(r.len(), 240);
    }
}

#[test]
fn split_columns_handles_more_parts_than_columns() {
    let ranges = split_columns(3, 8);
    assert_eq!(ranges.len(), 8);
    assert_eq!(ranges[0].start, 0);
    assert_eq!(ranges[7].end, 3);
    let mut covered = 0;
    for w in ranges.windows(2) {
        assert_eq!(w[0].end, w[1].start);
    }
    for r in &ranges {
        assert!(r.len() <= 1);
        covered += r.len();
    }
    assert_eq!(covered, 3);
    let all: Vec<ColumnRange> = split_columns(u32::MAX, 1);
    assert_eq!(all, vec![ColumnRange { start: 0, end: u32::MAX }]);
    assert_eq!(split_columns(0, 3), vec![ColumnRange { start: 0, end: 0 }; 3]);
}

#[test]
fn field_insert_and_get() {
    let mut f = FractalField::new(3, 2).unwrap();
    assert_eq!((f.width(), f.height()), (3, 2));
    assert!(!f.is_complete());
    assert!(f.insert(EscapePoint { x: 2, y: 1, orbit: tag(2, 1) }));
    assert!(!f.insert(EscapePoint { x: 3, y: 0, orbit: tag(3, 0) }));
    assert!(!f.insert(EscapePoint { x: 0, y: 2, orbit: tag(0, 2) }));
    assert_eq!(f.get(2, 1), Some(tag(2, 1)));
    assert_eq!(f.cell(5), Some(tag(2, 1)));
    assert_eq!(f.cell(0), None);
    assert_eq!(f.get(3, 0), None);
    assert!(f.insert(EscapePoint { x: 2, y: 1, orbit: tag(7, 7) }));
    assert_eq!(f.get(2, 1), Some(tag(7, 7)));
    f.absorb(&compute_partition(ColumnRange { start: 0, end: 3 }, 2, &tag));
    assert!(f.is_complete());
    assert_eq!(f.get(2, 1), Some(tag(2, 1)));
    let empty = FractalField::new(0, 5).unwrap();
    assert!(empty.is_complete());
}

#[test]
fn compute_partition_visits_column_after_column() {
    let points = compute_partition(ColumnRange { start: 4, end: 6 }, 3, &tag);
    let coords: Vec<(u32, u32)> = points.iter().map(|p| (p.x, p.y)).collect();
    assert_eq!(coords, vec![(4, 0), (4, 1), (4, 2), (5, 0), (5, 1), (5, 2)]);
    for p in &points {
        assert_eq!(p.orbit, tag(p.x, p.y));
    }
    assert!(compute_partition(ColumnRange { start: 4, end: 4 }, 3, &tag).is_empty());
    assert!(compute_partition(ColumnRange { start: 4, end: 6 }, 0, &tag).is_empty());
}
