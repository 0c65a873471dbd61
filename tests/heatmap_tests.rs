use heatmap::density::{apply_smoothing, smooth};
use heatmap::grid::Grid;
use heatmap::heatmap::{drawn_cells, make_heatmap};
use heatmap::kernel::{grid_dims, Bounds, Pt};
use heatmap::legend::{decimal_text, histogram_max, legend_labels, make_legend, DENSITY_ONE, Rgb};
use heatmap::options::{ColorScheme, ControlSnapshot, HeatmapError, HeatmapOptions};

fn kernel_weights(radius: usize) -> Vec<u64> {
    let denom = 2.0 * (radius as f64 / 2.0).powi(2);
    (0..=radius * radius)
        .map(|d| {
            if d == 0 {
                DENSITY_ONE
            } else {
                ((-(d as f64) / denom).exp() * DENSITY_ONE as f64).round() as u64
            }
        })
        .collect()
}

fn square_bounds(meters: u64) -> Bounds {
    Bounds { min_x: 0, min_y: 0, width: meters * 1000, height: meters * 1000 }
}

#[test]
fn grid_new_fills_every_cell() {
    let g: Grid<u64> = Grid::new(4, 3, 7);
    assert_eq!(g.data.len(), 12);
    assert!(g.data.iter().all(|v| *v == 7));
    assert_eq!(g.width, 4);
    assert_eq!(g.height, 3);
}

#[test]
fn grid_idx_is_row_major_and_distinct() {
    let g: Grid<u8> = Grid::new(4, 3, 0);
    assert_eq!(g.idx(2, 1), 6);
    let mut seen = vec![false; 12];
    for y in 0..3 {
        for x in 0..4 {
            let i = g.idx(x, y);
            assert!(i < 12);
            assert!(!seen[i]);
            seen[i] = true;
        }
    }
}

#[test]
fn default_options() {
    let o = HeatmapOptions::new();
    assert_eq!(o.resolution, 10);
    assert_eq!(o.radius, 3);
    assert!(o.smoothing);
    assert_eq!(o.color_scheme, ColorScheme::Turbo);
    assert_eq!(HeatmapOptions::from_controls(None), o);
}

#[test]
fn options_from_live_controls() {
    let s = ControlSnapshot { resolution: 25, radius: 5, smoothing: false, color_scheme: ColorScheme::Warm };
    let o = HeatmapOptions::from_controls(Some(s));
    assert_eq!(o.resolution, 25);
    assert_eq!(o.radius, 5);
    assert!(!o.smoothing);
    assert_eq!(o.color_scheme, ColorScheme::Warm);
}

#[test]
fn grid_dims_round_up() {
    assert_eq!(grid_dims(&square_bounds(100), 10), Ok((10, 10)));
    let b = Bounds { min_x: -5, min_y: 3, width: 105_000, height: 1 };
    assert_eq!(grid_dims(&b, 10), Ok((11, 1)));
}

#[test]
fn grid_dims_rejects_degenerate() {
    assert_eq!(grid_dims(&square_bounds(100), 0), Err(HeatmapError::InvalidDimensions));
    assert_eq!(grid_dims(&square_bounds(0), 10), Err(HeatmapError::InvalidDimensions));
}

#[test]
fn empty_points_give_zero_legend() {
    let pts: Vec<Pt> = Vec::new();
    let h = make_heatmap(&square_bounds(100), &pts, &HeatmapOptions::new(), &kernel_weights(3)).unwrap();
    assert_eq!(h.legend.colors.len(), 7);
    assert_eq!(h.legend.labels, vec![0; 8]);
}

#[test]
fn empty_points_skip_dimension_check() {
    let pts: Vec<Pt> = Vec::new();
    let mut o = HeatmapOptions::new();
    o.resolution = 0;
    assert!(make_heatmap(&square_bounds(100), &pts, &o, &kernel_weights(3)).is_ok());
    let one = vec![Pt { x: 1, y: 1 }];
    assert!(matches!(
        make_heatmap(&square_bounds(100), &one, &o, &kernel_weights(3)),
        Err(HeatmapError::InvalidDimensions)
    ));
}

#[test]
fn center_point_peaks_at_its_cell() {
    let mut o = HeatmapOptions::new();
    o.smoothing = false;
    let pts = vec![Pt { x: 50_000, y: 50_000 }];
    let w = kernel_weights(3);
    let h = make_heatmap(&square_bounds(100), &pts, &o, &w).unwrap();
    assert_eq!((h.raw.width, h.raw.height), (10, 10));
    let at = |x: usize, y: usize| h.raw.data[h.raw.idx(x, y)];
    assert_eq!(at(5, 5), DENSITY_ONE);
    assert_eq!(at(6, 5), w[1]);
    assert_eq!(at(7, 7), w[8]);
    assert_eq!(at(5, 8), w[9]);
    assert_eq!(at(5, 9), 0);
    assert_eq!(at(8, 8), 0);
    assert_eq!(at(0, 0), 0);
    assert!(at(6, 5) < at(5, 5));
    let positive = h.raw.data.iter().filter(|v| **v > 0).count();
    assert_eq!(positive, 29);
    assert_eq!(h.grid.data, h.raw.data);
    assert_eq!(h.max, 1);
}

#[test]
fn single_point_without_spread_draws_one_cell() {
    let o = HeatmapOptions { resolution: 10, radius: 0, smoothing: false, color_scheme: ColorScheme::Warm };
    let pts = vec![Pt { x: 42_000, y: 77_000 }];
    let h = make_heatmap(&square_bounds(100), &pts, &o, &kernel_weights(0)).unwrap();
    let drawn: Vec<usize> = (0..h.grid.data.len()).filter(|i| h.grid.data[*i] > 0).collect();
    assert_eq!(drawn, vec![h.grid.idx(4, 7)]);
    assert_eq!(h.grid.data[drawn[0]], DENSITY_ONE);
    assert_eq!(h.max, 1);
    assert_eq!(h.legend.labels, vec![0, 0, 0, 0, 1, 1, 1, 1]);
}

#[test]
fn legend_colors_sample_gradient() {
    let l = make_legend(ColorScheme::Warm, 10);
    for i in 0..7 {
        let c = colorous::WARM.eval_rational(i, 7);
        assert_eq!(l.colors[i], Rgb { r: c.r, g: c.g, b: c.b });
    }
    assert_ne!(l.colors[0], l.colors[6]);
    let t = make_legend(ColorScheme::Turbo, 10);
    for i in 0..7 {
        let c = colorous::TURBO.eval_rational(i, 7);
        assert_eq!(t.colors[i], Rgb { r: c.r, g: c.g, b: c.b });
    }
}

#[test]
fn legend_labels_round() {
    assert_eq!(legend_labels(10), vec![0, 1, 3, 4, 6, 7, 9, 10]);
    assert_eq!(legend_labels(0), vec![0; 8]);
    let big = legend_labels(u64::MAX);
    assert_eq!(big[7], u64::MAX);
    assert!(big.windows(2).all(|w| w[0] <= w[1]));
}

#[test]
fn histogram_max_truncates() {
    let mut g: Grid<u64> = Grid::new(3, 1, 0);
    g.data[1] = 2_500_000;
    g.data[2] = 999_999;
    assert_eq!(histogram_max(&g), 2);
    let z: Grid<u64> = Grid::new(2, 2, 0);
    assert_eq!(histogram_max(&z), 0);
}

#[test]
fn smoothing_interior_is_mean_of_nine() {
    let mut g: Grid<u64> = Grid::new(5, 5, 0);
    for i in 0..25 {
        g.data[i] = i as u64;
    }
    let s = smooth(&g);
    assert_eq!(s.data[s.idx(2, 2)], 108 / 9);
    assert_eq!(s.data[s.idx(0, 0)], (0 + 6) / 2);
    assert_eq!(s.data[s.idx(1, 1)], (6 + 7 + 12 + 11) / 4);
}

#[test]
fn smoothing_off_keeps_grid() {
    let mut g: Grid<u64> = Grid::new(3, 3, 0);
    g.data[4] = 9;
    let copy = g.data.clone();
    let out = apply_smoothing(g, false);
    assert_eq!(out.data, copy);
    let mut g2: Grid<u64> = Grid::new(3, 3, 0);
    g2.data[4] = 9;
    let on = apply_smoothing(g2, true);
    assert_eq!(on.data[4], 9 / 4);
}

#[test]
fn color_scheme_names() {
    let names = ["Turbo", "Inferno", "Warm", "Cool", "Oranges", "Spectral"];
    let schemes = [
        ColorScheme::Turbo,
        ColorScheme::Inferno,
        ColorScheme::Warm,
        ColorScheme::Cool,
        ColorScheme::Oranges,
        ColorScheme::Spectral,
    ];
    for (n, c) in names.iter().zip(schemes.iter()) {
        assert_eq!(ColorScheme::from_name(n), Ok(*c));
    }
}

#[test]
fn color_scheme_unknown_name() {
    assert_eq!(ColorScheme::from_name("warm"), Err(HeatmapError::InvalidColorScheme));
    assert_eq!(ColorScheme::from_name(""), Err(HeatmapError::InvalidColorScheme));
    assert_eq!(ColorScheme::from_name("Turbos"), Err(HeatmapError::InvalidColorScheme));
}

#[test]
fn point_below_region_uses_floor_cell() {
    let mut o = HeatmapOptions::new();
    o.smoothing = false;
    let w = kernel_weights(3);
    let pts = vec![Pt { x: -5_000, y: 55_000 }];
    let h = make_heatmap(&square_bounds(100), &pts, &o, &w).unwrap();
    let at = |x: usize, y: usize| h.raw.data[h.raw.idx(x, y)];
    assert_eq!(at(1, 5), w[4]);
    assert_eq!(at(2, 5), w[9]);
    assert_eq!(at(1, 6), w[5]);
    assert_eq!(at(0, 5), 0);
    assert_eq!(at(3, 5), 0);
}

#[test]
fn overlapping_points_add_up() {
    let mut o = HeatmapOptions::new();
    o.smoothing = false;
    let pts = vec![Pt { x: 35_000, y: 35_000 }, Pt { x: 35_000, y: 35_000 }];
    let h = make_heatmap(&square_bounds(100), &pts, &o, &kernel_weights(3)).unwrap();
    assert_eq!(h.raw.data[h.raw.idx(3, 3)], 2 * DENSITY_ONE);
    assert_eq!(h.max, 2);
    assert_eq!(h.legend.labels, vec![0, 0, 1, 1, 1, 1, 2, 2]);
}

#[test]
fn row_and_column_zero_receive_nothing() {
    let mut o = HeatmapOptions::new();
    o.smoothing = false;
    let pts = vec![Pt { x: 0, y: 0 }];
    let w = kernel_weights(3);
    let h = make_heatmap(&square_bounds(100), &pts, &o, &w).unwrap();
    let at = |x: usize, y: usize| h.raw.data[h.raw.idx(x, y)];
    assert_eq!(at(0, 0), 0);
    assert_eq!(at(0, 1), 0);
    assert_eq!(at(1, 0), 0);
    assert_eq!(at(1, 1), w[2]);
}

#[test]
fn smoothing_on_spreads_peak() {
    let pts = vec![Pt { x: 55_000, y: 55_000 }];
    let o = HeatmapOptions { resolution: 10, radius: 0, smoothing: true, color_scheme: ColorScheme::Cool };
    let h = make_heatmap(&square_bounds(100), &pts, &o, &kernel_weights(0)).unwrap();
    assert_eq!(h.grid.data[h.grid.idx(5, 5)], DENSITY_ONE / 9);
    assert_eq!(h.grid.data[h.grid.idx(4, 4)], DENSITY_ONE / 9);
    assert_eq!(h.grid.data[h.grid.idx(3, 3)], 0);
    assert_eq!(h.max, 0);
}

#[test]
fn legend_label_text() {
    let l = make_legend(ColorScheme::Turbo, 1234);
    let t = l.label_texts();
    assert_eq!(t, vec!["0", "176", "353", "529", "705", "881", "1058", "1234"]);
    let pts: Vec<Pt> = Vec::new();
    let h = make_heatmap(&square_bounds(10), &pts, &HeatmapOptions::new(), &kernel_weights(3)).unwrap();
    assert_eq!(h.legend.label_texts(), vec!["0"; 8]);
}

#[test]
fn drawn_cells_lists_positive_cells_row_major() {
    let mut g: Grid<u64> = Grid::new(3, 2, 0);
    g.data[1] = 5;
    g.data[5] = 7;
    g.data[3] = 2;
    assert_eq!(drawn_cells(&g), vec![(1, 0, 5), (0, 1, 2), (2, 1, 7)]);
    let z: Grid<u64> = Grid::new(4, 4, 0);
    assert!(drawn_cells(&z).is_empty());
}

#[test]
fn empty_points_draw_nothing() {
    let pts: Vec<Pt> = Vec::new();
    let h = make_heatmap(&square_bounds(100), &pts, &HeatmapOptions::new(), &kernel_weights(3)).unwrap();
    assert!(drawn_cells(&h.grid).is_empty());
    assert_eq!(h.max, 0);
}

#[test]
fn single_point_draws_its_cell() {
    let o = HeatmapOptions { resolution: 10, radius: 0, smoothing: false, color_scheme: ColorScheme::Warm };
    let pts = vec![Pt { x: 42_000, y: 77_000 }];
    let h = make_heatmap(&square_bounds(100), &pts, &o, &kernel_weights(0)).unwrap();
    assert_eq!(drawn_cells(&h.grid), vec![(4, 7, DENSITY_ONE)]);
}

#[test]
fn decimal_text_writes_digits() {
    assert_eq!(decimal_text(0), "0");
    assert_eq!(decimal_text(7), "7");
    assert_eq!(decimal_text(10), "10");
    assert_eq!(decimal_text(1234), "1234");
    assert_eq!(decimal_text(u64::MAX), u64::MAX.to_string());
}
