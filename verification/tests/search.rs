use mc_utils::alg::slime::{
    search_rect, search_rect_par, search_rect_tiled, SearchError, CHUNK_SIZE, MAX_EXTENT,
};
use mc_utils::alg::util::SearchResult;
use mc_utils::rand::is_slimechunk;
use mc_utils::util::ChunkPoint;

const SEED: i64 = -763922862008843532;

fn at(x: i32, z: i32) -> ChunkPoint {
    ChunkPoint { x, z }
}

fn count(seed: i64, x0: i32, z0: i32, w: usize, h: usize) -> u32 {
    let mut c = 0;
    for dx in 0..w as i32 {
        for dz in 0..h as i32 {
            if is_slimechunk(seed, x0 + dx, z0 + dz) {
                c += 1;
            }
        }
    }
    c
}

fn window(seed: i64, x: i32, z: i32, w: usize, h: usize) -> SearchResult {
    SearchResult {
        seed,
        p1: at(x, z),
        p2: at(x + w as i32 - 1, z + h as i32 - 1),
        slime_chunks: count(seed, x, z, w, h),
    }
}

/// The first best window by counting every window inside the rectangle
/// anew.
fn brute_force(seed: i64, start: ChunkPoint, end: ChunkPoint, w: usize, h: usize) -> SearchResult {
    let mut best = window(seed, start.x, start.z, w, h);
    let last_a = (end.x - start.x + 1) - w as i32;
    let last_b = (end.z - start.z + 1) - h as i32;
    for a in 0..=last_a {
        for b in 0..=last_b {
            let here = window(seed, start.x + a, start.z + b, w, h);
            if here.slime_chunks > best.slime_chunks {
                best = here;
            }
        }
    }
    best
}

#[test]
fn search_finds_the_densest_window() {
    let r = search_rect(SEED, at(-8, -8), at(8, 8), 3, 3).unwrap();
    assert_eq!(r, SearchResult { seed: SEED, p1: at(4, -7), p2: at(6, -5), slime_chunks: 5 });
    assert_eq!(count(SEED, 4, -7, 3, 3), 5);

    let r = search_rect(1, at(0, 0), at(20, 20), 4, 2).unwrap();
    assert_eq!(r, SearchResult { seed: 1, p1: at(3, 11), p2: at(6, 12), slime_chunks: 3 });

    let r = search_rect(SEED, at(0, 0), at(14, 14), 3, 3).unwrap();
    assert_eq!(r, SearchResult { seed: SEED, p1: at(8, 10), p2: at(10, 12), slime_chunks: 4 });
}

#[test]
fn search_on_the_field_of_six_chunks() {
    // (-2, -1), (-1, -1) and (0, -1) are slime chunks, the three beside
    // them are not
    let r = search_rect(SEED, at(-2, -1), at(0, 0), 2, 1).unwrap();
    assert_eq!(r, SearchResult { seed: SEED, p1: at(-2, -1), p2: at(-1, -1), slime_chunks: 2 });
    let r = search_rect_par(SEED, at(-2, -1), at(0, 0), 2, 1).unwrap();
    assert_eq!(r, SearchResult { seed: SEED, p1: at(-2, -1), p2: at(-1, -1), slime_chunks: 2 });
}

#[test]
fn search_equals_brute_force() {
    for seed in [SEED, 1, 2, 16, 12345] {
        for (w, h) in [(1, 1), (2, 3), (3, 3), (5, 2), (12, 12), (17, 15), (17, 1), (1, 15)] {
            let start = at(-7, 3);
            let end = at(9, 17);
            let r = search_rect(seed, start, end, w, h).unwrap();
            assert_eq!(r, brute_force(seed, start, end, w, h));
        }
    }
}

#[test]
fn windows_on_the_first_column_and_row_are_looked_at() {
    // the best window of this field lies on its first row
    let r = search_rect(16, at(0, 0), at(9, 9), 3, 3).unwrap();
    assert_eq!(r, SearchResult { seed: 16, p1: at(1, 0), p2: at(3, 2), slime_chunks: 3 });
    // a rectangle of one chunk, which is a slime chunk
    let r = search_rect(SEED, at(0, -1), at(0, -1), 1, 1).unwrap();
    assert_eq!(r, SearchResult { seed: SEED, p1: at(0, -1), p2: at(0, -1), slime_chunks: 1 });
    // the window is the whole rectangle
    let r = search_rect(SEED, at(-8, -8), at(8, 8), 17, 17).unwrap();
    assert_eq!(r, SearchResult { seed: SEED, p1: at(-8, -8), p2: at(8, 8), slime_chunks: 38 });
}

#[test]
fn first_of_equal_windows_is_kept() {
    // single chunks: every slime chunk is a window with a count of 1
    let r = search_rect(SEED, at(-3, -3), at(3, 3), 1, 1).unwrap();
    assert_eq!(r, SearchResult { seed: SEED, p1: at(-2, -1), p2: at(-2, -1), slime_chunks: 1 });
    assert!(is_slimechunk(SEED, -1, -1));
    assert!(is_slimechunk(SEED, 1, 1));
    // two slime chunks side by side: the one at the start comes first
    assert!(is_slimechunk(SEED, -1, -1) && is_slimechunk(SEED, 0, -1));
    let r = search_rect(SEED, at(-1, -1), at(0, 0), 1, 1).unwrap();
    assert_eq!(r, SearchResult { seed: SEED, p1: at(-1, -1), p2: at(-1, -1), slime_chunks: 1 });
}

#[test]
fn without_a_slime_chunk_the_first_window_is_returned() {
    let r = search_rect(SEED, at(-4, 0), at(0, 3), 2, 2).unwrap();
    assert_eq!(r, SearchResult { seed: SEED, p1: at(-4, 0), p2: at(-3, 1), slime_chunks: 0 });
    let r = search_rect(SEED, at(0, 0), at(3, 0), 1, 1).unwrap();
    assert_eq!(r, SearchResult { seed: SEED, p1: at(0, 0), p2: at(0, 0), slime_chunks: 0 });
    let r = search_rect(SEED, at(0, 0), at(0, 0), 1, 1).unwrap();
    assert_eq!(r, SearchResult { seed: SEED, p1: at(0, 0), p2: at(0, 0), slime_chunks: 0 });
}

#[test]
fn result_is_a_window_of_the_asked_size_with_its_own_count() {
    for seed in [SEED, 1, 2, 3] {
        for (w, h) in [(1, 1), (2, 1), (3, 4), (10, 10)] {
            let (start, end) = (at(-5, -5), at(4, 4));
            let r = search_rect(seed, start, end, w, h).unwrap();
            assert_eq!(r.seed, seed);
            assert_eq!(r.p2, at(r.p1.x + w as i32 - 1, r.p1.z + h as i32 - 1));
            assert!(start.x <= r.p1.x && r.p2.x <= end.x);
            assert!(start.z <= r.p1.z && r.p2.z <= end.z);
            assert_eq!(r.slime_chunks, count(seed, r.p1.x, r.p1.z, w, h));
            assert!(r.slime_chunks as usize <= w * h);
        }
    }
}

#[test]
fn search_rejects_windows_without_area_or_larger_than_the_rectangle() {
    let (start, end) = (at(-8, -8), at(8, 8));
    assert_eq!(search_rect(SEED, start, end, 0, 3), Err(SearchError::BadWindow));
    assert_eq!(search_rect(SEED, start, end, 3, 0), Err(SearchError::BadWindow));
    assert_eq!(search_rect(SEED, start, end, 0, 0), Err(SearchError::BadWindow));
    assert_eq!(search_rect(SEED, start, end, 18, 3), Err(SearchError::BadWindow));
    assert_eq!(search_rect(SEED, start, end, 3, 18), Err(SearchError::BadWindow));
    assert_eq!(search_rect(SEED, start, end, usize::MAX, 3), Err(SearchError::BadWindow));
    assert_eq!(search_rect(SEED, at(0, 0), at(0, 0), 2, 1), Err(SearchError::BadWindow));
    assert!(search_rect(SEED, start, end, 17, 1).is_ok());
    assert!(search_rect(SEED, start, end, 1, 17).is_ok());
    // the rectangle is looked at first
    assert_eq!(search_rect(SEED, at(1, 0), at(0, 5), 0, 0), Err(SearchError::InvertedBounds));
    assert_eq!(search_rect(SEED, at(0, 0), at(3_750_000, 1), 0, 1), Err(SearchError::TooWide));
    assert_eq!(search_rect(SEED, at(1, 1), at(3_750_000, 1146), 0, 1), Err(SearchError::TooLarge));
}

#[test]
fn search_rejects_inverted_bounds() {
    assert_eq!(search_rect(SEED, at(1, 0), at(0, 5), 1, 1), Err(SearchError::InvertedBounds));
    assert_eq!(search_rect(SEED, at(0, 6), at(5, 5), 1, 1), Err(SearchError::InvertedBounds));
    assert_eq!(
        search_rect(SEED, at(i32::MAX, 0), at(i32::MIN, 0), 1, 1),
        Err(SearchError::InvertedBounds)
    );
}

#[test]
fn search_rejects_rectangles_wider_than_the_world() {
    assert_eq!(MAX_EXTENT, 3_750_000);
    assert_eq!(search_rect(SEED, at(0, 0), at(3_750_000, 1), 1, 1), Err(SearchError::TooWide));
    assert_eq!(search_rect(SEED, at(0, -1), at(1, 3_749_999), 1, 1), Err(SearchError::TooWide));
    assert_eq!(
        search_rect(SEED, at(i32::MIN, i32::MIN), at(i32::MAX, i32::MAX), 1, 1),
        Err(SearchError::TooWide)
    );
}

#[test]
fn search_rejects_rectangles_of_too_many_chunks() {
    // 3 750 000 by 1146 chunks are more than 2^32
    assert_eq!(search_rect(SEED, at(1, 1), at(3_750_000, 1146), 1, 1), Err(SearchError::TooLarge));
    assert_eq!(
        search_rect(SEED, at(-1_875_000, -1_875_000), at(1_874_999, 1_874_999), 16, 16),
        Err(SearchError::TooLarge)
    );
}

#[test]
fn a_long_strip_of_the_world_can_be_searched() {
    let r = search_rect(SEED, at(0, 0), at(9_999, 2), 2, 2).unwrap();
    assert_eq!(r, SearchResult { seed: SEED, p1: at(3016, 1), p2: at(3017, 2), slime_chunks: 4 });
    let r = search_rect(SEED, at(0, 0), at(99_999, 2), 2, 2).unwrap();
    assert_eq!(r, brute_force(SEED, at(0, 0), at(99_999, 2), 2, 2));
}

#[test]
fn default_result_is_empty() {
    let r = SearchResult::default(7);
    assert_eq!(r, SearchResult { seed: 7, p1: at(0, 0), p2: at(0, 0), slime_chunks: 0 });
}

#[test]
fn max_goes_by_the_count_and_keeps_the_other_on_a_tie() {
    let a = SearchResult { seed: 1, p1: at(1, 1), p2: at(2, 2), slime_chunks: 3 };
    let b = SearchResult { seed: 1, p1: at(5, 5), p2: at(6, 6), slime_chunks: 3 };
    let c = SearchResult { seed: 1, p1: at(8, 8), p2: at(9, 9), slime_chunks: 4 };
    assert_eq!(a.max(b), b);
    assert_eq!(b.max(a), a);
    assert_eq!(a.max(c), c);
    assert_eq!(c.max(a), c);
}

#[test]
fn one_tile_gives_the_result_of_the_whole_search() {
    for seed in [SEED, 1, 2, 3, 12345] {
        for tile in [15, 16, 100, 10_000, usize::MAX] {
            let whole = search_rect(seed, at(0, 0), at(14, 14), 3, 3).unwrap();
            let tiled = search_rect_tiled(seed, at(0, 0), at(14, 14), 3, 3, tile).unwrap();
            assert_eq!(tiled, whole);
        }
    }
    // also where no window holds a slime chunk
    let whole = search_rect(SEED, at(-4, 0), at(0, 3), 2, 2).unwrap();
    assert_eq!(whole.slime_chunks, 0);
    assert_eq!(search_rect_tiled(SEED, at(-4, 0), at(0, 3), 2, 2, 5).unwrap(), whole);
    assert_eq!(search_rect_par(SEED, at(3, 3), at(3, 3), 1, 1).unwrap(), window(SEED, 3, 3, 1, 1));
}

#[test]
fn tiles_never_report_more_than_the_whole_search() {
    for seed in [SEED, 1, 2, 3, 12345] {
        for tile in 1..20 {
            for (w, h) in [(1, 1), (2, 2), (3, 3), (4, 2)] {
                let whole = search_rect(seed, at(-5, 2), at(11, 19), w, h).unwrap();
                let tiled = search_rect_tiled(seed, at(-5, 2), at(11, 19), w, h, tile).unwrap();
                assert!(tiled.slime_chunks <= whole.slime_chunks);
                if tiled.slime_chunks > 0 {
                    assert_eq!(
                        count(seed, tiled.p1.x, tiled.p1.z, w, h),
                        tiled.slime_chunks
                    );
                    assert_eq!(tiled.p2, at(tiled.p1.x + w as i32 - 1, tiled.p1.z + h as i32 - 1));
                }
            }
        }
    }
}

#[test]
fn tiles_of_one_chunk_find_every_single_chunk() {
    // with a window of one chunk no window lies across tiles
    for tile in 1..8 {
        let whole = search_rect(SEED, at(-5, -5), at(6, 6), 1, 1).unwrap();
        let tiled = search_rect_tiled(SEED, at(-5, -5), at(6, 6), 1, 1, tile).unwrap();
        assert_eq!(tiled.slime_chunks, whole.slime_chunks);
    }
}

#[test]
fn a_window_across_tiles_is_missed() {
    // the best window, from (8, 10) to (10, 12), lies across the tiles that
    // meet between z = 11 and z = 12
    let whole = search_rect(SEED, at(0, 0), at(14, 14), 3, 3).unwrap();
    assert_eq!(whole, SearchResult { seed: SEED, p1: at(8, 10), p2: at(10, 12), slime_chunks: 4 });
    let tiled = search_rect_tiled(SEED, at(0, 0), at(14, 14), 3, 3, 6).unwrap();
    assert_eq!(tiled, SearchResult { seed: SEED, p1: at(7, 2), p2: at(9, 4), slime_chunks: 3 });
    let tiled = search_rect_tiled(SEED, at(0, 0), at(14, 14), 3, 3, 4).unwrap();
    assert_eq!(tiled, SearchResult { seed: SEED, p1: at(0, 8), p2: at(2, 10), slime_chunks: 2 });
    // another window with as many chunks lies inside a tile of side 5
    let tiled = search_rect_tiled(SEED, at(0, 0), at(14, 14), 3, 3, 5).unwrap();
    assert_eq!(tiled, SearchResult { seed: SEED, p1: at(10, 10), p2: at(12, 12), slime_chunks: 4 });
    let tiled = search_rect_tiled(SEED, at(0, 0), at(14, 14), 3, 3, 7).unwrap();
    assert_eq!(tiled, whole);
}

#[test]
fn tiled_search_is_the_greatest_of_its_tiles() {
    // 24 by 17 chunks in tiles of 7: four tiles by three, the last ones of 3
    let (start, end, tile) = (at(-3, -3), at(20, 13), 7);
    for (w, h) in [(2, 3), (3, 3), (4, 2), (7, 7)] {
        let mut results = Vec::new();
        for kx in 0..4 {
            for kz in 0..3 {
                let p1 = at(start.x + kx * tile, start.z + kz * tile);
                let p2 = at((p1.x + tile - 1).min(end.x), (p1.z + tile - 1).min(end.z));
                // a tile that the window does not fit holds no window
                if w as i32 <= p2.x - p1.x + 1 && h as i32 <= p2.z - p1.z + 1 {
                    results.push(search_rect(SEED, p1, p2, w, h).unwrap());
                } else {
                    results.push(SearchResult::default(SEED));
                }
            }
        }
        let tiled = search_rect_tiled(SEED, start, end, w, h, tile as usize).unwrap();
        let greatest = results.iter().map(|r| r.slime_chunks).max().unwrap();
        assert_eq!(tiled.slime_chunks, greatest);
        // whatever the order of the tiles
        results.reverse();
        assert_eq!(results.iter().map(|r| r.slime_chunks).max().unwrap(), tiled.slime_chunks);
        // of the tiles with that count the first is kept
        results.reverse();
        let first = results.iter().find(|r| r.slime_chunks == greatest).unwrap();
        assert_eq!(tiled, *first);
    }
}

#[test]
fn a_domain_of_one_column_is_searched() {
    let r = search_rect_tiled(SEED, at(0, 0), at(0, 50), 1, 1, 10).unwrap();
    assert_eq!(r, SearchResult { seed: SEED, p1: at(0, 8), p2: at(0, 8), slime_chunks: 1 });
}

#[test]
fn a_window_larger_than_the_tiles_is_never_found() {
    let r = search_rect_tiled(SEED, at(0, 0), at(14, 14), 6, 2, 5).unwrap();
    assert_eq!(r, SearchResult::default(SEED));
}

#[test]
fn a_domain_wider_than_the_world_is_searched_tile_by_tile() {
    let (start, end) = (at(-3_750_000, 0), at(3_750_000, 1));
    assert_eq!(search_rect(SEED, start, end, 1, 1), Err(SearchError::TooWide));
    let r = search_rect_par(SEED, start, end, 1, 1).unwrap();
    // the first slime chunk of the first column that holds one
    assert!(!is_slimechunk(SEED, start.x, 0) && !is_slimechunk(SEED, start.x + 3, 1));
    assert_eq!(r, SearchResult { seed: SEED, p1: at(start.x + 4, 0), p2: at(start.x + 4, 0), slime_chunks: 1 });
}

#[test]
fn a_small_part_of_a_strip_at_the_edge_of_the_world() {
    let r = search_rect_tiled(SEED, at(-3_750_000, 0), at(-3_749_000, 10), 2, 2, 10_000).unwrap();
    assert_eq!(
        r,
        SearchResult { seed: SEED, p1: at(-3_749_990, 2), p2: at(-3_749_989, 3), slime_chunks: 3 }
    );
}

#[test]
fn tiled_search_rejects() {
    assert_eq!(
        search_rect_tiled(SEED, at(1, 0), at(0, 5), 1, 1, 10),
        Err(SearchError::InvertedBounds)
    );
    assert_eq!(search_rect_tiled(SEED, at(0, 0), at(5, 5), 1, 1, 0), Err(SearchError::EmptyTile));
    assert_eq!(search_rect_tiled(SEED, at(0, 0), at(5, 5), 0, 1, 3), Err(SearchError::BadWindow));
    assert_eq!(search_rect_tiled(SEED, at(0, 0), at(5, 5), 1, 7, 3), Err(SearchError::BadWindow));
    // a tile wider than the world
    assert_eq!(
        search_rect_tiled(SEED, at(0, 0), at(3_750_000, 1), 1, 1, 4_000_000),
        Err(SearchError::TooWide)
    );
    // a tile of more chunks than a table can count
    assert_eq!(
        search_rect_tiled(SEED, at(0, 0), at(3_749_999, 3_749_999), 1, 1, 3_000_000),
        Err(SearchError::TooLarge)
    );
    assert_eq!(search_rect_par(SEED, at(0, 1), at(0, 0), 1, 1), Err(SearchError::InvertedBounds));
    assert_eq!(search_rect_par(SEED, at(0, 0), at(9, 9), 0, 0), Err(SearchError::BadWindow));
}

#[test]
fn par_search_uses_tiles_of_ten_thousand() {
    assert_eq!(CHUNK_SIZE, 10_000);
    let (start, end) = (at(-40, -25), at(60, 30));
    let whole = search_rect(SEED, start, end, 12, 12).unwrap();
    assert_eq!(search_rect_par(SEED, start, end, 12, 12).unwrap(), whole);
    assert_eq!(search_rect_tiled(SEED, start, end, 12, 12, 10_000).unwrap(), whole);
}

#[test]
fn map_of_a_result() {
    let r = SearchResult { seed: SEED, p1: at(-2, -1), p2: at(1, 1), slime_chunks: 0 };
    // slime chunks of this seed: (-2, -1), (-1, -1), (0, -1), (1, 1)
    assert_eq!(r.map_text(), "██████░░\n░░░░░░░░\n░░░░░░██");
    let one = SearchResult { seed: SEED, p1: at(0, 0), p2: at(0, 0), slime_chunks: 0 };
    assert_eq!(one.map_text(), "░░");
    let none = SearchResult { seed: SEED, p1: at(0, 1), p2: at(3, 0), slime_chunks: 0 };
    assert_eq!(none.map_text(), "");
    let thin = SearchResult { seed: SEED, p1: at(1, 0), p2: at(0, 2), slime_chunks: 0 };
    assert_eq!(thin.map_text(), "\n\n");
}

#[test]
fn results_are_ordered_by_their_count() {
    let a = SearchResult { seed: 9, p1: at(7, 7), p2: at(9, 9), slime_chunks: 3 };
    let b = SearchResult { seed: 1, p1: at(0, 0), p2: at(1, 1), slime_chunks: 4 };
    let c = SearchResult { seed: 5, p1: at(2, 2), p2: at(3, 3), slime_chunks: 4 };
    assert!(a < b);
    assert!(b > a);
    assert!(b <= c && b >= c);
    assert_eq!(b.partial_cmp(&c), Some(std::cmp::Ordering::Equal));
    assert!(b != c);
}
