use sky_watch::tiles::{Ratio, TileConfig, TileConfigError, TileLayout};

fn sky_config() -> TileConfig {
    TileConfig {
        image_width: 340,
        grid_width_ratio: Ratio { num: 9, den: 10 },
        grid_cols: 4,
        grid_rows: 4,
        export_tile_width: 16,
        tile_aspect_ratio: Ratio { num: 1, den: 1 },
    }
}

#[test]
fn sky_config_is_accepted() {
    assert_eq!(sky_config().check(), Ok(()));
}

#[test]
fn too_many_columns_are_refused() {
    let mut c = sky_config();
    c.grid_cols = 20; // 306 / 20 = 15.3, not above 16
    assert_eq!(c.check(), Err(TileConfigError::TooManyTiles));
    c.grid_cols = 19; // 306 / 19 = 16.1
    assert_eq!(c.check(), Ok(()));
}

#[test]
fn ratio_above_one_is_refused() {
    let mut c = sky_config();
    c.grid_width_ratio = Ratio { num: 11, den: 10 };
    assert_eq!(c.check(), Err(TileConfigError::RatioAboveOne));
    c.grid_width_ratio = Ratio { num: 10, den: 10 };
    assert_eq!(c.check(), Ok(()));
}

#[test]
fn zero_ratio_is_refused() {
    let mut c = sky_config();
    c.grid_width_ratio = Ratio { num: 0, den: 10 };
    // a zero-width grid is first of all too narrow for any tile
    assert_eq!(c.check(), Err(TileConfigError::TooManyTiles));
    c.export_tile_width = 0;
    c.grid_cols = 0;
    // 0 > 0 fails as well
    assert_eq!(c.check(), Err(TileConfigError::TooManyTiles));
}

#[test]
fn sky_layout_values() {
    let c = sky_config();
    let l = c.layout();
    assert_eq!(
        l,
        TileLayout {
            grid_width: 306,
            x_start: 17,
            tile_width: 76,
            tile_height: 76,
            grid_height: 304,
            y_start: 18,
            export_tile_height: 16,
        }
    );
}

#[test]
fn sky_plan_positions() {
    let c = sky_config();
    let l = c.layout();
    let plan = c.plan(&l);
    assert_eq!(plan.len(), 16);
    assert_eq!((plan[0].x, plan[0].y, plan[0].index), (17, 18, 0));
    assert_eq!((plan[1].x, plan[1].y, plan[1].index), (17, 94, 1));
    assert_eq!((plan[5].x, plan[5].y, plan[5].index), (93, 94, 5));
    assert_eq!((plan[15].x, plan[15].y, plan[15].index), (245, 246, 15));
}

#[test]
fn tiles_lie_inside_the_image() {
    let c = sky_config();
    let l = c.layout();
    for t in c.plan(&l) {
        assert!(t.x + l.tile_width <= c.image_width);
        assert!(t.y + l.tile_height <= c.image_width);
    }
}

#[test]
fn tiles_do_not_overlap() {
    let c = sky_config();
    let l = c.layout();
    let plan = c.plan(&l);
    for (i, a) in plan.iter().enumerate() {
        for b in plan.iter().skip(i + 1) {
            assert!(
                a.x + l.tile_width <= b.x
                    || b.x + l.tile_width <= a.x
                    || a.y + l.tile_height <= b.y
                    || b.y + l.tile_height <= a.y
            );
        }
    }
}

#[test]
fn tile_indices_are_distinct_and_in_range() {
    let c = sky_config();
    let l = c.layout();
    let mut seen = vec![false; 16];
    for t in c.plan(&l) {
        assert!(t.index < 16);
        assert!(!seen[t.index as usize]);
        seen[t.index as usize] = true;
    }
}

#[test]
fn tiles_are_not_upscaled() {
    let mut c = sky_config();
    c.grid_cols = 19;
    c.grid_rows = 19;
    let l = c.layout();
    assert_eq!(l.tile_width, 16);
    assert!(l.tile_width >= c.export_tile_width);
}

#[test]
fn tall_tiles_round_up() {
    let mut c = sky_config();
    c.tile_aspect_ratio = Ratio { num: 1, den: 2 };
    let l = c.layout();
    assert_eq!(l.tile_height, 38);
    assert_eq!(l.grid_height, 152);
    assert_eq!(l.y_start, 94);
    assert_eq!(l.export_tile_height, 8);
    c.tile_aspect_ratio = Ratio { num: 2, den: 3 };
    let l = c.layout();
    assert_eq!(l.tile_height, 51); // ceil(76 * 2 / 3) = ceil(50.67)
    assert_eq!(l.export_tile_height, 11); // ceil(16 * 2 / 3) = ceil(10.67)
}
