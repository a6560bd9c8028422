use img2a::render::{ascii_row, colour_row, join_cells, paint_row};
use img2a::{calculate_clustersize, default_palette, to_ascii, Bitmap, Cluster, Rgb};

fn rgb(r: u8, g: u8, b: u8) -> Rgb {
    Rgb { r, g, b }
}

fn grey(level: u8) -> Rgb {
    rgb(level, level, level)
}

fn uniform(width: u32, height: u32, colour: Rgb) -> Bitmap {
    Bitmap::new(width, height, vec![colour; (width * height) as usize]).unwrap()
}

/// An image whose pixel in column `x` of row `y` is grey of level
/// `levels[y][x]`.
fn greys(levels: &[&[u8]]) -> Bitmap {
    let mut pixels = Vec::new();
    for row in levels {
        for level in row.iter() {
            pixels.push(grey(*level));
        }
    }
    Bitmap::new(levels[0].len() as u32, levels.len() as u32, pixels).unwrap()
}

#[test]
fn convert_local_images() {
    let palette = String::from(" .:-=+*#%@");
    let apple = image::RgbImage::from_fn(48, 48, |x, y| {
        let dx = x as i64 - 24;
        let dy = y as i64 - 26;
        if dx * dx + dy * dy < 400 {
            image::Rgb([200, 30, 40])
        } else {
            image::Rgb([255, 255, 255])
        }
    });
    let pixels = apple.pixels().map(|p| rgb(p.0[0], p.0[1], p.0[2])).collect();
    let image = Bitmap::new(apple.width(), apple.height(), pixels).unwrap();
    let cluster = calculate_clustersize((48, 48), (80, 24), 1).unwrap();
    to_ascii(&image, &cluster, &palette, true).unwrap();
}

#[test]
fn white_image_in_small_terminal() {
    let image = uniform(4, 4, grey(255));
    let cluster = calculate_clustersize((4, 4), (2, 2), 2).unwrap();
    assert!(cluster.width() >= 1 && cluster.height() >= 1);
    for (x, y) in [(0, 0), (2, 0), (0, 2), (2, 2)] {
        let brightness =
            img2a::get_brightness_of_cluster(&image, x, y, cluster.width(), cluster.height());
        assert_eq!(brightness, 255);
    }
    let text = to_ascii(&image, &cluster, &default_palette(), false).unwrap();
    assert_eq!(text.lines().count() as u32, 4 / cluster.height());
    // level 255 lies past the last bucket of 25 levels
    assert_eq!(text, "  \n  \n");
}

#[test]
fn light_grey_image_is_dense() {
    let image = uniform(4, 4, grey(249));
    let text = to_ascii(&image, &Cluster::new(2, 2), &default_palette(), false).unwrap();
    assert_eq!(text, "@@\n@@\n");
}

#[test]
fn each_block_gets_its_character() {
    let image = greys(&[
        &[0, 0, 100, 100, 30, 30],
        &[0, 0, 100, 100, 30, 30],
        &[249, 249, 200, 200, 60, 60],
        &[249, 249, 200, 200, 60, 60],
    ]);
    let text = to_ascii(&image, &Cluster::new(2, 2), &default_palette(), false).unwrap();
    assert_eq!(text, " =.\n@%:\n");
}

#[test]
fn blocks_are_averaged_before_the_palette() {
    let image = greys(&[&[0, 100, 200, 250], &[100, 200, 250, 250]]);
    // means 100 and 237
    let text = to_ascii(&image, &Cluster::new(2, 2), &default_palette(), false).unwrap();
    assert_eq!(text, "=@\n");
}

#[test]
fn partial_blocks_at_the_edges_are_dropped() {
    let image = uniform(7, 5, grey(130));
    let text = to_ascii(&image, &Cluster::new(2, 2), &default_palette(), false).unwrap();
    assert_eq!(text, "+++\n+++\n");
    assert_eq!(text.lines().count(), 5 / 2);
    for line in text.lines() {
        assert_eq!(line.chars().count(), 7 / 2);
    }
    assert_eq!(text.chars().count(), (5 / 2) * (7 / 2 + 1));
}

#[test]
fn block_larger_than_the_image_gives_nothing() {
    let image = uniform(3, 3, grey(130));
    let palette = default_palette();
    assert_eq!(to_ascii(&image, &Cluster::new(4, 4), &palette, false).unwrap(), "");
    assert_eq!(to_ascii(&image, &Cluster::new(1, 4), &palette, false).unwrap(), "");
    // rows that hold no block are still lines
    assert_eq!(to_ascii(&image, &Cluster::new(4, 1), &palette, false).unwrap(), "\n\n\n");
    assert_eq!(to_ascii(&image, &Cluster::new(4, 4), &palette, true).unwrap(), "");
}

#[test]
fn empty_image_gives_nothing() {
    let image = Bitmap::new(0, 0, Vec::new()).unwrap();
    let text = to_ascii(&image, &Cluster::new(1, 1), &default_palette(), false).unwrap();
    assert_eq!(text, "");
}

#[test]
fn one_pixel_blocks() {
    let image = greys(&[&[0, 25, 50], &[75, 100, 125], &[150, 175, 200], &[225, 249, 250]]);
    let text = to_ascii(&image, &Cluster::new(1, 1), &default_palette(), false).unwrap();
    assert_eq!(text, " .:\n-=+\n*#%\n@@ \n");
}

#[test]
fn reversed_palette_reverses_the_picture() {
    let image = greys(&[&[0, 249]]);
    let palette = String::from("@%#*+=-:. ");
    let text = to_ascii(&image, &Cluster::new(1, 1), &palette, false).unwrap();
    assert_eq!(text, "@ \n");
}

#[test]
fn single_rows() {
    let image = greys(&[&[0, 0, 100, 100], &[0, 0, 100, 100], &[60, 60, 249, 249], &[60, 60, 249, 249]]);
    let cluster = Cluster::new(2, 2);
    let palette = default_palette();
    assert_eq!(ascii_row(&image, &cluster, &palette, 0).unwrap(), " =");
    assert_eq!(ascii_row(&image, &cluster, &palette, 1).unwrap(), ":@");
    assert_eq!(colour_row(&image, &cluster, 0), vec![grey(0), grey(100)]);
    assert_eq!(colour_row(&image, &cluster, 1), vec![grey(60), grey(249)]);
}

#[test]
fn colour_rows_hold_mean_colours() {
    let pixels = vec![
        rgb(10, 200, 0),
        rgb(20, 100, 1),
        rgb(0, 0, 0),
        rgb(30, 0, 2),
        rgb(41, 0, 250),
        rgb(0, 0, 0),
    ];
    let image = Bitmap::new(3, 2, pixels).unwrap();
    assert_eq!(colour_row(&image, &Cluster::new(2, 2), 0), vec![rgb(25, 75, 63)]);
    assert_eq!(
        colour_row(&image, &Cluster::new(1, 2), 0),
        vec![rgb(20, 100, 1), rgb(30, 50, 125), rgb(0, 0, 0)]
    );
}

#[test]
fn cells_are_joined_in_order() {
    let cells = vec![String::from("ab"), String::new(), String::from("c"), String::from("de")];
    assert_eq!(join_cells(&cells), "abcde");
    assert_eq!(join_cells(&Vec::new()), "");
}

#[test]
fn one_cell_is_painted_per_colour() {
    assert_eq!(paint_row(&vec![grey(0), grey(1), grey(2)]).len(), 3);
    assert_eq!(paint_row(&Vec::new()).len(), 0);
}

#[test]
fn coloured_text_has_one_line_per_row() {
    let image = uniform(7, 5, rgb(200, 30, 40));
    let text = to_ascii(&image, &Cluster::new(2, 2), &default_palette(), true).unwrap();
    assert_eq!(text.lines().count(), 2);
    assert!(text.ends_with('\n'));
    for line in text.lines() {
        // three blank cells, whatever surrounds them
        assert_eq!(line.matches(' ').count(), 3);
    }
}
