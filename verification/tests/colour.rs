use img2a::{to_ascii, Bitmap, Cluster, Rgb};

#[test]
fn colour_follows_the_terminal_setting() {
    let pixels = vec![Rgb { r: 255, g: 255, b: 255 }; 16];
    let image = Bitmap::new(4, 4, pixels).unwrap();
    let cluster = Cluster::new(2, 2);
    let palette = String::new();

    colored::control::set_override(false);
    let plain = to_ascii(&image, &cluster, &palette, true).unwrap();
    assert_eq!(plain, "  \n  \n");

    colored::control::set_override(true);
    let painted = to_ascii(&image, &cluster, &palette, true).unwrap();
    colored::control::unset_override();
    assert_eq!(painted.lines().count(), 2);
    for line in painted.lines() {
        assert!(line.starts_with("\x1b["));
        assert!(line.ends_with(" \x1b[0m"));
        assert_eq!(line.matches(" \x1b[0m").count(), 2);
    }
}
