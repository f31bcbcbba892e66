use xlsx_heatmap::render::{
    clamp_channel, color_from_scaled, push_decimal, render_grid, render_workbook, Color, SheetGrid,
};

fn c(red: u8, green: u8) -> Color {
    Color { red, green }
}

#[test]
fn channels_are_clamped() {
    assert_eq!(clamp_channel(-5), 0);
    assert_eq!(clamp_channel(0), 0);
    assert_eq!(clamp_channel(128), 128);
    assert_eq!(clamp_channel(255), 255);
    assert_eq!(clamp_channel(256), 255);
    assert_eq!(color_from_scaled(300, -1), c(255, 0));
    assert_eq!(color_from_scaled(128, 128), c(128, 128));
}

#[test]
fn numerals_are_decimal() {
    let mut s = String::from("n=");
    push_decimal(&mut s, 0);
    assert_eq!(s, "n=0");
    let mut s = String::new();
    push_decimal(&mut s, 1234567890);
    assert_eq!(s, "1234567890");
    let mut s = String::new();
    push_decimal(&mut s, u64::MAX);
    assert_eq!(s, u64::MAX.to_string());
}

#[test]
fn empty_grid_has_empty_canvas() {
    let cells: Vec<Vec<Color>> = vec![];
    assert_eq!(
        render_grid(&cells),
        "<svg width=\"0\" height=\"0\" xmlns=\"http://www.w3.org/2000/svg\"></svg>"
    );
}

#[test]
fn grid_is_laid_out_and_sized() {
    let cells = vec![vec![c(0, 255), c(255, 0)], vec![c(128, 127), c(1, 2)]];
    let expected = [
        "<svg width=\"100\" height=\"100\" xmlns=\"http://www.w3.org/2000/svg\">",
        "<rect x=\"0\" y=\"0\" width=\"50\" height=\"50\" fill=\"rgb(0, 255, 0)\" stroke=\"black\" stroke-width=\"1\"/>",
        "<rect x=\"50\" y=\"0\" width=\"50\" height=\"50\" fill=\"rgb(255, 0, 0)\" stroke=\"black\" stroke-width=\"1\"/>",
        "<rect x=\"0\" y=\"50\" width=\"50\" height=\"50\" fill=\"rgb(128, 127, 0)\" stroke=\"black\" stroke-width=\"1\"/>",
        "<rect x=\"50\" y=\"50\" width=\"50\" height=\"50\" fill=\"rgb(1, 2, 0)\" stroke=\"black\" stroke-width=\"1\"/>",
        "</svg>",
    ]
    .concat();
    assert_eq!(render_grid(&cells), expected);
}

#[test]
fn canvas_follows_grid_shape() {
    let cells = vec![vec![c(9, 9); 4]; 3];
    let out = render_grid(&cells);
    assert!(out.starts_with("<svg width=\"200\" height=\"150\" "));
    assert_eq!(out.matches("<rect ").count(), 12);
    assert!(out.contains("<rect x=\"150\" y=\"100\" "));
}

#[test]
fn rendering_twice_gives_identical_markup() {
    let cells = vec![vec![c(10, 245), c(200, 55), c(0, 255), c(255, 0)]];
    assert_eq!(render_grid(&cells), render_grid(&cells.clone()));
}

#[test]
fn workbook_has_heading_per_sheet() {
    let sheets = vec![
        SheetGrid { name: "Первый".to_string(), cells: vec![vec![c(128, 128)]] },
        SheetGrid { name: "B".to_string(), cells: vec![] },
    ];
    let expected = [
        "<h3>Первый</h3>",
        "<svg width=\"50\" height=\"50\" xmlns=\"http://www.w3.org/2000/svg\">",
        "<rect x=\"0\" y=\"0\" width=\"50\" height=\"50\" fill=\"rgb(128, 128, 0)\" stroke=\"black\" stroke-width=\"1\"/>",
        "</svg>",
        "<h3>B</h3>",
        "<svg width=\"0\" height=\"0\" xmlns=\"http://www.w3.org/2000/svg\"></svg>",
    ]
    .concat();
    assert_eq!(render_workbook(&sheets), expected);
    let none: Vec<SheetGrid> = vec![];
    assert_eq!(render_workbook(&none), "");
}
