use image::{DynamicImage, GenericImageView, ImageOutputFormat, Rgba, RgbaImage};
use std::io::Cursor;
use wallpaper_tool::job::{
    plan_texts, system_path, user_path, with_file, with_picture, Event, Measures, Screen, Stage,
    TextDraw, WatermarkError,
};
use wallpaper_tool::network::{NetAdapter, NetworkInfo};
use wallpaper_tool::picture::{Canvas, Picture, PictureError};
use wallpaper_tool::watermark::WatermarkOptions;

fn info() -> NetworkInfo {
    NetworkInfo {
        hostname: "HOST".to_string(),
        adapters: vec![NetAdapter {
            name: "Ethernet".to_string(),
            mac: "00:11:22:33:44:55".to_string(),
            ips: vec!["10.0.0.1".to_string()],
            selected: true,
        }],
        user_path: r"C:\Users\me".to_string(),
    }
}

fn options() -> WatermarkOptions {
    WatermarkOptions::show_all()
}

fn file(format: ImageOutputFormat) -> Vec<u8> {
    let picture = RgbaImage::from_pixel(4, 4, Rgba([10, 20, 30, 255]));
    let mut file = Cursor::new(Vec::new());
    DynamicImage::ImageRgba8(picture).write_to(&mut file, format).unwrap();
    file.into_inner()
}

fn bmp() -> Vec<u8> {
    file(ImageOutputFormat::Bmp)
}

fn jpeg() -> Vec<u8> {
    let mut file = Vec::new();
    let picture = image::RgbImage::from_pixel(4, 4, image::Rgb([10, 20, 30]));
    image::codecs::jpeg::JpegEncoder::new_with_quality(&mut file, 95)
        .encode_image(&picture)
        .unwrap();
    file
}

fn decoded(data: &[u8]) -> Event {
    let decoded = image::load_from_memory(data).map_err(|error| error.to_string());
    Event::Decoded(Picture::accept(decoded))
}

fn step(stage: Stage, event: Event) -> Stage {
    assert!(stage.takes(&event));
    stage.advance(&info(), &options(), event)
}

fn failure(stage: Stage) -> String {
    match stage {
        Stage::Finished { outcome: Err(error) } => error.message(),
        _ => panic!("the job did not fail"),
    }
}

fn screen() -> Screen {
    Screen { width: 8, height: 6 }
}

fn measures(lines: usize) -> Measures {
    Measures {
        fill_width: 8,
        fill_height: 8,
        text_x: 30,
        margin_top: 5,
        line_offsets: (0..lines).map(|line| 18 * line as i32).collect(),
    }
}

fn measuring() -> Stage {
    step(Stage::ReadWallpaper { screen: screen() }, Event::Read(Ok(jpeg())))
}

fn measuring_float() -> Stage {
    let float = DynamicImage::ImageRgb32F(image::Rgb32FImage::new(4, 4));
    let lines = vec!["one".to_string(), "two".to_string(), "three".to_string()];
    with_picture(screen(), lines, Picture::accept(Ok(float)))
}

#[test]
fn job_that_succeeds() {
    let stage = step(Stage::MeasureScreen, Event::Screen { width: 8, height: 6 });
    assert!(matches!(
        stage,
        Stage::FindOutputDirectory { screen: Screen { width: 8, height: 6 } }
    ));
    let stage = step(stage, Event::Exists(false));
    assert!(matches!(stage, Stage::MakeOutputDirectory { .. }));
    let stage = step(stage, Event::Done(Ok(())));
    assert!(matches!(stage, Stage::FindWallpaper { .. }));
    let stage = step(stage, Event::Exists(true));
    assert!(matches!(stage, Stage::BackUp { .. }));
    let stage = step(stage, Event::Done(Ok(())));
    assert!(matches!(stage, Stage::ReadWallpaper { .. }));
    let stage = step(stage, Event::Read(Ok(bmp())));
    match &stage {
        Stage::Decode { screen, lines, data } => {
            assert_eq!((screen.width, screen.height), (8, 6));
            assert_eq!(lines.len(), 3);
            assert_eq!(data, &bmp());
        }
        _ => panic!("nothing is decoded"),
    }
    let stage = step(stage, decoded(&bmp()));
    match &stage {
        Stage::Measure { screen, lines, picture } => {
            assert_eq!((screen.width, screen.height), (8, 6));
            assert_eq!(
                lines,
                &vec![
                    "计算机名：HOST".to_string(),
                    "IP 地址（Ethernet）：10.0.0.1".to_string(),
                    "MAC 地址（Ethernet）：00:11:22:33:44:55".to_string(),
                ],
            );
            assert_eq!((picture.width(), picture.height()), (4, 4));
        }
        _ => panic!("nothing is measured"),
    }
    let stage = step(stage, Event::Measured(measures(3)));
    let canvas = match stage {
        Stage::DrawTexts { canvas, draws } => {
            assert_eq!(draws.len(), 6);
            canvas
        }
        _ => panic!("nothing is drawn"),
    };
    assert_eq!((canvas.width(), canvas.height()), (8, 6));
    let rgba = canvas.into_rgba();
    for pixel in rgba.chunks(4) {
        assert_eq!(pixel, &[10, 20, 30, 255]);
    }
    let drawn = Canvas::from_rgba(8, 6, rgba).unwrap();
    let stage = Stage::DrawTexts { canvas: Canvas::empty(8, 6), draws: Vec::new() };
    let stage = step(stage, Event::Drawn(drawn));
    assert!(matches!(stage, Stage::CreateOutput { .. }));
    let stage = step(stage, Event::Done(Ok(())));
    match &stage {
        Stage::WriteOutput { file } => {
            let decoded = image::load_from_memory(file).unwrap();
            assert_eq!(decoded.dimensions(), (8, 6));
            let Rgba([red, _, blue, _]) = decoded.get_pixel(0, 0);
            assert!((red as i32 - 10).abs() < 8 && (blue as i32 - 30).abs() < 8);
        }
        _ => panic!("nothing is written"),
    }
    let stage = step(stage, Event::Done(Ok(())));
    assert!(matches!(stage, Stage::SetWallpaper));
    let stage = step(stage, Event::Done(Ok(())));
    assert!(matches!(stage, Stage::Finished { outcome: Ok(()) }));
}

#[test]
fn plain_jpeg_wallpaper_is_decoded_at_once() {
    match measuring() {
        Stage::Measure { screen, lines, picture } => {
            assert_eq!((screen.width, screen.height), (8, 6));
            assert_eq!(lines.len(), 3);
            assert_eq!((picture.width(), picture.height()), (4, 4));
        }
        _ => panic!("it was not decoded"),
    }
    let stage = Stage::ReadWallpaper { screen: screen() };
    let cut = jpeg()[..30].to_vec();
    let error = image::load_from_memory(&cut).unwrap_err();
    assert_eq!(failure(step(stage, Event::Read(Ok(cut)))), error.to_string());
}

#[test]
fn plain_png_wallpaper_is_decoded_at_once() {
    let stage = Stage::ReadWallpaper { screen: screen() };
    match step(stage, Event::Read(Ok(file(ImageOutputFormat::Png)))) {
        Stage::Measure { picture, .. } => {
            let expected = RgbaImage::from_pixel(4, 4, Rgba([10, 20, 30, 255]));
            assert_eq!(picture.image(), &DynamicImage::ImageRgba8(expected));
        }
        _ => panic!("it was not decoded"),
    }
}

#[test]
fn output_directory_is_not_made_twice() {
    let stage = step(Stage::FindOutputDirectory { screen: screen() }, Event::Exists(true));
    assert!(matches!(stage, Stage::FindWallpaper { .. }));
}

#[test]
fn screen_without_a_size() {
    for (width, height) in [(0, 6), (8, 0), (0, 0)] {
        let stage = step(Stage::MeasureScreen, Event::Screen { width, height });
        assert_eq!(failure(stage), "无法获取屏幕分辨率");
    }
}

#[test]
fn negative_sizes_of_a_screen_are_taken_as_unsigned() {
    let stage = step(Stage::MeasureScreen, Event::Screen { width: -1, height: 6 });
    assert!(matches!(
        stage,
        Stage::FindOutputDirectory { screen: Screen { width: u32::MAX, height: 6 } }
    ));
}

#[test]
fn job_without_a_wallpaper() {
    let stage = step(Stage::FindWallpaper { screen: screen() }, Event::Exists(false));
    assert_eq!(
        failure(stage),
        "未找到系统壁纸 TranscodedWallpaper，请确保当前使用的是图片壁纸。",
    );
}

#[test]
fn what_cannot_be_done_ends_the_job() {
    let broken = || Event::Done(Err("disk full".to_string()));
    let stages = vec![
        Stage::MakeOutputDirectory { screen: screen() },
        Stage::BackUp { screen: screen() },
        Stage::CreateOutput { canvas: Canvas::empty(1, 1) },
        Stage::WriteOutput { file: Vec::new() },
        Stage::SetWallpaper,
    ];
    for stage in stages {
        assert_eq!(failure(step(stage, broken())), "disk full");
    }
}

#[test]
fn wallpaper_that_cannot_be_read() {
    let stage = step(
        Stage::ReadWallpaper { screen: screen() },
        Event::Read(Err("access denied".to_string())),
    );
    assert_eq!(failure(stage), "无法读取壁纸：access denied，请稍后重试。");
}

#[test]
fn wallpaper_that_is_no_picture() {
    let stage = step(
        Stage::ReadWallpaper { screen: screen() },
        Event::Read(Ok(b"no picture".to_vec())),
    );
    assert!(matches!(stage, Stage::Decode { .. }));
    let error = image::load_from_memory(b"no picture").unwrap_err();
    assert_eq!(failure(step(stage, decoded(b"no picture"))), error.to_string());
}

#[test]
fn nothing_to_show_comes_before_the_picture() {
    let stage = Stage::ReadWallpaper { screen: screen() };
    let nothing = WatermarkOptions {
        show_ip: false,
        show_mac: false,
        show_hostname: false,
        remark: String::new(),
    };
    let event = Event::Read(Ok(b"no picture".to_vec()));
    assert!(stage.takes(&event));
    assert_eq!(failure(stage.advance(&info(), &nothing, event)), "没有可显示的水印内容");
}

#[test]
fn empty_wallpaper() {
    let stage = with_picture(screen(), vec!["line".to_string()], Err(PictureError::Empty));
    assert_eq!(failure(stage), "原壁纸尺寸无效");
    let picture = Picture::accept(Ok(DynamicImage::new_rgba8(0, 3)));
    let stage = with_picture(screen(), vec!["line".to_string()], picture);
    assert_eq!(failure(stage), "原壁纸尺寸无效");
}

#[test]
fn canvas_that_cannot_be_encoded() {
    let stage = step(
        Stage::CreateOutput { canvas: Canvas::empty(65536, 1) },
        Event::Done(Ok(())),
    );
    assert!(!failure(stage).is_empty());
    assert_eq!(failure(with_file(Err("too wide".to_string()))), "too wide");
    assert!(matches!(with_file(Ok(vec![1])), Stage::WriteOutput { .. }));
}

#[test]
fn picture_that_was_scaled_elsewhere() {
    let picture = Canvas::from_rgba(8, 8, [1, 2, 3, 255].repeat(64)).unwrap();
    let event = Event::Scaled { measures: measures(3), picture };
    match step(measuring_float(), event) {
        Stage::DrawTexts { canvas, draws } => {
            assert_eq!((canvas.width(), canvas.height()), (8, 6));
            assert_eq!(canvas.into_rgba(), [1, 2, 3, 255].repeat(48));
            assert_eq!(draws.len(), 6);
        }
        _ => panic!("nothing is drawn"),
    }
}

#[test]
fn stages_take_only_what_they_ask_for() {
    assert!(!Stage::MeasureScreen.takes(&Event::Exists(true)));
    assert!(!Stage::SetWallpaper.takes(&Event::Exists(true)));
    assert!(!Stage::BackUp { screen: screen() }.takes(&Event::Read(Ok(Vec::new()))));
    assert!(!Stage::ReadWallpaper { screen: screen() }.takes(&Event::Done(Ok(()))));
    assert!(!Stage::Finished { outcome: Ok(()) }.takes(&Event::Done(Ok(()))));
    assert!(measuring().takes(&Event::Measured(measures(3))));
    assert!(!measuring().takes(&Event::Measured(measures(2))));
    let drawing = Stage::DrawTexts { canvas: Canvas::empty(8, 6), draws: Vec::new() };
    assert!(drawing.takes(&Event::Drawn(Canvas::empty(8, 6))));
    assert!(!drawing.takes(&Event::Drawn(Canvas::empty(6, 8))));
    let scaled = |width| Event::Scaled {
        measures: measures(3),
        picture: Canvas::empty(width, 8),
    };
    assert!(measuring_float().takes(&scaled(8)));
    assert!(!measuring_float().takes(&scaled(7)));
    assert!(!measuring().takes(&scaled(8)));
    assert!(!measuring_float().takes(&Event::Measured(measures(3))));
    assert!(!measuring().takes(&decoded(&bmp())));
    let mut wide = measures(3);
    wide.fill_width = 0x20_0001;
    assert!(!measuring().takes(&Event::Measured(wide)));
}

#[test]
fn places_must_be_numbers_of_32_bits() {
    assert!(measures(3).can_draw(3));
    assert!(!measures(3).can_draw(4));
    let mut right = measures(1);
    right.text_x = i32::MAX - 1;
    assert!(!right.can_draw(1));
    right.text_x = i32::MAX - 2;
    assert!(right.can_draw(1));
    let mut low = measures(2);
    low.line_offsets[1] = i32::MAX - 7;
    assert!(low.can_draw(2));
    low.line_offsets[1] = i32::MAX - 6;
    assert!(!low.can_draw(2));
    let mut high = measures(1);
    high.margin_top = -5;
    high.line_offsets[0] = i32::MIN;
    assert!(!high.can_draw(1));
}

fn place(draw: &TextDraw) -> (&str, i32, i32, [u8; 4]) {
    (draw.text.as_str(), draw.x, draw.y, draw.color)
}

#[test]
fn each_line_is_drawn_over_its_shadow() {
    let lines = vec!["one".to_string(), "two".to_string()];
    let draws = plan_texts(&lines, &measures(2));
    assert_eq!(draws.len(), 4);
    assert_eq!(place(&draws[0]), ("one", 32, 7, [0, 0, 0, 180]));
    assert_eq!(place(&draws[1]), ("one", 30, 5, [255, 255, 255, 255]));
    assert_eq!(place(&draws[2]), ("two", 32, 25, [0, 0, 0, 180]));
    assert_eq!(place(&draws[3]), ("two", 30, 23, [255, 255, 255, 255]));
}

#[test]
fn long_lines_begin_at_the_left_limit() {
    let mut long = measures(1);
    long.text_x = -500;
    let draws = plan_texts(&vec!["one".to_string()], &long);
    assert_eq!((draws[0].x, draws[1].x), (12, 10));
    long.text_x = 10;
    let draws = plan_texts(&vec!["one".to_string()], &long);
    assert_eq!((draws[0].x, draws[1].x), (12, 10));
}

#[test]
fn paths_for_the_system() {
    assert_eq!(
        system_path(Some(r"\\?\C:\Users\me\a.jpg")).ok().unwrap(),
        r"C:\Users\me\a.jpg",
    );
    assert_eq!(system_path(Some(r"C:\a.jpg")).ok().unwrap(), r"C:\a.jpg");
    match system_path(None) {
        Err(error) => assert_eq!(error.message(), "路径包含非法字符"),
        Ok(_) => panic!("no path was given"),
    }
}

#[test]
fn profile_of_the_user() {
    let mut known = info();
    assert_eq!(user_path(&known, Some("other".to_string())), r"C:\Users\me");
    known.user_path.clear();
    assert_eq!(user_path(&known, Some("other".to_string())), "other");
    assert_eq!(user_path(&known, None), r"C:\");
}

#[test]
fn messages_of_errors() {
    assert_eq!(WatermarkError::Other("text".to_string()).message(), "text");
    assert_eq!(WatermarkError::NothingToShow.message(), "没有可显示的水印内容");
    assert_eq!(WatermarkError::PathNotText.message(), "路径包含非法字符");
}
