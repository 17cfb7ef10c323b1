//! Making the watermarked wallpaper: what is done when, and what ends it.
//!
//! A job goes through stages. Each says what has to be done outside the library, and the event
//! that reports how this went leads to the next.

use vstd::prelude::*;

use crate::network::{InfoView, NetworkInfo};
use crate::picture::{
    alike, can_resize, encode_wallpaper, file_result, fill_screen, filled, jpeg, may_decode_to,
    of_plain_file, picture_result, plain_file, scaled, Canvas, CanvasView, Picture, PictureError,
    PictureErrorView, Raster, JPEG_QUALITY,
};
use crate::text::{strip_prefixes, texts, without_prefixes};
use crate::watermark::{build_watermark_lines, watermark_lines, OptionsView, WatermarkOptions};

verus! {

/// The system's own wallpaper lies in this directory below the user's profile.
pub const THEMES_DIRECTORY: &'static str = r"AppData\Roaming\Microsoft\Windows\Themes";

/// The name of the system's own wallpaper.
pub const WALLPAPER_FILE: &'static str = "TranscodedWallpaper";

/// What the tool writes lies in this directory below the user's profile.
pub const OUTPUT_DIRECTORY: &'static str = "WallpaperTool";

/// The name of the watermarked wallpaper.
pub const OUTPUT_FILE: &'static str = "Wallpaper_Watermark.jpg";

/// The name of the copy of the wallpaper as it was.
pub const BACKUP_FILE: &'static str = "Wallpaper_Backup.jpg";

/// Why there is no watermarked wallpaper.
pub enum WatermarkError {
    /// The size of the screen is not known.
    NoScreen,
    /// There is no wallpaper to draw on.
    NoWallpaper,
    /// The wallpaper cannot be read; the text says why.
    Unreadable(String),
    /// The watermark has no lines.
    NothingToShow,
    /// A side of the wallpaper has no length.
    EmptyWallpaper,
    /// The path of the wallpaper is not text.
    PathNotText,
    /// Something else failed, as the text says.
    Other(String),
}

/// What a `WatermarkError` says.
pub enum ErrorView {
    NoScreen,
    NoWallpaper,
    Unreadable(Seq<char>),
    NothingToShow,
    EmptyWallpaper,
    PathNotText,
    Other(Seq<char>),
}

impl View for WatermarkError {
    type V = ErrorView;

    open spec fn view(&self) -> ErrorView {
        match self {
            WatermarkError::NoScreen => ErrorView::NoScreen,
            WatermarkError::NoWallpaper => ErrorView::NoWallpaper,
            WatermarkError::Unreadable(text) => ErrorView::Unreadable(text@),
            WatermarkError::NothingToShow => ErrorView::NothingToShow,
            WatermarkError::EmptyWallpaper => ErrorView::EmptyWallpaper,
            WatermarkError::PathNotText => ErrorView::PathNotText,
            WatermarkError::Other(text) => ErrorView::Other(text@),
        }
    }
}

/// The message of an error.
pub open spec fn message_of(error: ErrorView) -> Seq<char> {
    match error {
        ErrorView::NoScreen => "无法获取屏幕分辨率"@,
        ErrorView::NoWallpaper =>
            "未找到系统壁纸 TranscodedWallpaper，请确保当前使用的是图片壁纸。"@,
        ErrorView::Unreadable(text) => "无法读取壁纸："@ + text + "，请稍后重试。"@,
        ErrorView::NothingToShow => "没有可显示的水印内容"@,
        ErrorView::EmptyWallpaper => "原壁纸尺寸无效"@,
        ErrorView::PathNotText => "路径包含非法字符"@,
        ErrorView::Other(text) => text,
    }
}

impl WatermarkError {
    /// The message for the user.
    pub fn message(&self) -> (message: String)
        ensures
            message@ == message_of(self@),
    {
        match self {
            WatermarkError::NoScreen => "无法获取屏幕分辨率".to_owned(),
            WatermarkError::NoWallpaper =>
                "未找到系统壁纸 TranscodedWallpaper，请确保当前使用的是图片壁纸。".to_owned(),
            WatermarkError::Unreadable(text) => {
                let mut message = "无法读取壁纸：".to_owned();
                message.append(text.as_str());
                message.append("，请稍后重试。");
                message
            },
            WatermarkError::NothingToShow => "没有可显示的水印内容".to_owned(),
            WatermarkError::EmptyWallpaper => "原壁纸尺寸无效".to_owned(),
            WatermarkError::PathNotText => "路径包含非法字符".to_owned(),
            WatermarkError::Other(text) => text.clone(),
        }
    }
}

/// What begins a path that is spelled out in full.
pub open spec fn verbatim_prefix() -> Seq<char> {
    r"\\?\"@
}

/// What the result says.
pub open spec fn path_result(outcome: Result<String, WatermarkError>) -> Result<
    Seq<char>,
    ErrorView,
> {
    match outcome {
        Ok(path) => Ok(path@),
        Err(error) => Err(error@),
    }
}

/// The path of a wallpaper as the system takes it: the full path, if it is text, without the
/// prefixes that mark it as such.
pub open spec fn system_path_of(full_path: Option<Seq<char>>) -> Result<Seq<char>, ErrorView> {
    match full_path {
        Some(path) => Ok(without_prefixes(path, verbatim_prefix())),
        None => Err(ErrorView::PathNotText),
    }
}

/// Makes the path of a wallpaper as the system takes it, from its full path, which is `None`
/// where it is not text.
pub fn system_path(full_path: Option<&str>) -> (path: Result<String, WatermarkError>)
    ensures
        path_result(path) == system_path_of(
            match full_path {
                Some(path) => Some(path@),
                None => None,
            },
        ),
{
    match full_path {
        Some(path) => Ok(strip_prefixes(path, r"\\?\")),
        None => Err(WatermarkError::PathNotText),
    }
}

/// The user's profile: the one that is known, or else the environment's, or else the default.
pub open spec fn user_path_of(known: Seq<char>, environment: Option<Seq<char>>) -> Seq<char> {
    if known.len() > 0 {
        known
    } else {
        crate::network::text_or(environment, crate::network::default_user_path())
    }
}

/// Finds the user's profile.
pub fn user_path(info: &NetworkInfo, environment: Option<String>) -> (path: String)
    ensures
        path@ == user_path_of(info@.user_path, crate::network::text_option(environment)),
{
    if info.user_path.as_str().is_empty() {
        match environment {
            Some(path) => path,
            None => r"C:\".to_owned(),
        }
    } else {
        info.user_path.clone()
    }
}

/// The size of the screen.
#[derive(Clone, Copy)]
pub struct Screen {
    pub width: u32,
    pub height: u32,
}

/// The size of the screen as the system gives it, if it does.
pub open spec fn screen_of(width: i32, height: i32) -> Result<Screen, ErrorView> {
    if width == 0 || height == 0 {
        Err(ErrorView::NoScreen)
    } else {
        Ok(Screen { width: width as u32, height: height as u32 })
    }
}

/// A text to be drawn: where, and in which colour (red, green, blue and alpha).
pub struct TextDraw {
    pub text: String,
    pub x: i32,
    pub y: i32,
    pub color: [u8; 4],
}

/// What a `TextDraw` says.
pub struct DrawView {
    pub text: Seq<char>,
    pub x: int,
    pub y: int,
    pub color: Seq<u8>,
}

impl View for TextDraw {
    type V = DrawView;

    open spec fn view(&self) -> DrawView {
        DrawView { text: self.text@, x: self.x as int, y: self.y as int, color: self.color@ }
    }
}

/// What each of the texts says.
pub open spec fn draw_views(draws: Seq<TextDraw>) -> Seq<DrawView> {
    Seq::new(draws.len(), |i: int| draws[i]@)
}

/// What was measured of the screen, the picture and the lines.
pub struct Measures {
    /// The size to which the picture is scaled.
    pub fill_width: u32,
    pub fill_height: u32,
    /// Where the lines would begin at the left to keep the right margin.
    pub text_x: i32,
    /// Where the first line begins at the top.
    pub margin_top: i32,
    /// How far below the first line each line begins.
    pub line_offsets: Vec<i32>,
}

/// What `Measures` say.
pub struct MeasuresView {
    pub fill_width: u32,
    pub fill_height: u32,
    pub text_x: int,
    pub margin_top: int,
    pub line_offsets: Seq<int>,
}

impl View for Measures {
    type V = MeasuresView;

    open spec fn view(&self) -> MeasuresView {
        MeasuresView {
            fill_width: self.fill_width,
            fill_height: self.fill_height,
            text_x: self.text_x as int,
            margin_top: self.margin_top as int,
            line_offsets: Seq::new(
                self.line_offsets@.len(),
                |i: int| self.line_offsets@[i] as int,
            ),
        }
    }
}

/// The lines begin here at the left: never closer to the edge than this.
pub const LEFT_LIMIT: i32 = 10;

/// The shadow of a text lies so far to the right of it and below it.
pub const SHADOW: i32 = 2;

impl MeasuresView {
    /// Where the lines begin at the left.
    pub open spec fn left(self) -> int {
        if self.text_x < LEFT_LIMIT {
            LEFT_LIMIT as int
        } else {
            self.text_x
        }
    }

    /// Where this line begins at the top.
    pub open spec fn top(self, line: int) -> int {
        self.margin_top + self.line_offsets[line]
    }

    /// So many lines were measured, and each place at which they or their shadows are drawn is a
    /// number of 32 bits.
    pub open spec fn drawable(self, lines: nat) -> bool {
        &&& self.line_offsets.len() == lines
        &&& self.left() + SHADOW <= i32::MAX
        &&& forall|i: int|
            #![trigger self.line_offsets[i]]
            0 <= i < lines ==> i32::MIN <= self.top(i) && self.top(i) + SHADOW <= i32::MAX
    }
}

/// What is drawn: each line, in white, over its shadow, in black and somewhat translucent.
pub open spec fn draws_of(lines: Seq<Seq<char>>, measures: MeasuresView) -> Seq<DrawView> {
    Seq::new(
        2 * lines.len(),
        |i: int|
            if i % 2 == 0 {
                DrawView {
                    text: lines[i / 2],
                    x: measures.left() + SHADOW,
                    y: measures.top(i / 2) + SHADOW,
                    color: seq![0u8, 0u8, 0u8, 180u8],
                }
            } else {
                DrawView {
                    text: lines[i / 2],
                    x: measures.left(),
                    y: measures.top(i / 2),
                    color: seq![255u8, 255u8, 255u8, 255u8],
                }
            },
    )
}

impl Measures {
    /// Tells whether so many lines can be drawn by these measures.
    pub fn can_draw(&self, lines: usize) -> (yes: bool)
        ensures
            yes == self@.drawable(lines as nat),
    {
        if self.line_offsets.len() != lines || self.text_x > i32::MAX - SHADOW {
            return false;
        }
        for i in 0..lines
            invariant
                lines == self.line_offsets@.len(),
                forall|j: int|
                    #![trigger self@.line_offsets[j]]
                    0 <= j < i ==> i32::MIN <= self@.top(j) && self@.top(j) + SHADOW <= i32::MAX,
        {
            let y: i64 = self.margin_top as i64 + self.line_offsets[i] as i64;
            assert(y == self@.margin_top + self@.line_offsets[i as int]);
            if y < i32::MIN as i64 || y + SHADOW as i64 > i32::MAX as i64 {
                return false;
            }
        }
        true
    }
}

/// Plans the texts to be drawn.
pub fn plan_texts(lines: &Vec<String>, measures: &Measures) -> (draws: Vec<TextDraw>)
    requires
        measures@.drawable(lines@.len()),
    ensures
        draw_views(draws@) == draws_of(texts(lines@), measures@),
{
    let mut draws: Vec<TextDraw> = Vec::new();
    let ghost wanted = draws_of(texts(lines@), measures@);
    let left: i32 = if measures.text_x < LEFT_LIMIT {
        LEFT_LIMIT
    } else {
        measures.text_x
    };
    for i in 0..lines.len()
        invariant
            measures@.drawable(lines@.len()),
            left == measures@.left(),
            wanted == draws_of(texts(lines@), measures@),
            draw_views(draws@) == wanted.take(2 * i),
    {
        assert(measures@.line_offsets[i as int] == measures.line_offsets@[i as int]);
        let top: i32 = measures.margin_top + measures.line_offsets[i];
        let ghost before = draw_views(draws@);
        let shadow = TextDraw {
            text: lines[i].clone(),
            x: left + SHADOW,
            y: top + SHADOW,
            color: [0, 0, 0, 180],
        };
        let line = TextDraw {
            text: lines[i].clone(),
            x: left,
            y: top,
            color: [255, 255, 255, 255],
        };
        proof {
            assert(texts(lines@)[i as int] == lines@[i as int]@);
            assert(shadow.color@ == seq![0u8, 0u8, 0u8, 180u8]);
            assert(line.color@ == seq![255u8, 255u8, 255u8, 255u8]);
            assert((2 * i) % 2 == 0 && (2 * i) / 2 == i as int);
            assert((2 * i + 1) % 2 == 1 && (2 * i + 1) / 2 == i as int);
            assert(wanted[2 * i] == shadow@);
            assert(wanted[2 * i + 1] == line@);
        }
        draws.push(shadow);
        draws.push(line);
        assert(draw_views(draws@) == before.push(shadow@).push(line@));
        assert(wanted.take(2 * (i + 1)) == wanted.take(2 * i).push(shadow@).push(line@));
    }
    assert(wanted.take(2 * lines@.len() as int) == wanted);
    draws
}

/// Where a job is, and what has to be done next.
pub enum Stage {
    /// Ask for the size of the screen.
    MeasureScreen,
    /// Look whether the output directory exists.
    FindOutputDirectory { screen: Screen },
    /// Create the output directory.
    MakeOutputDirectory { screen: Screen },
    /// Look whether there is a wallpaper.
    FindWallpaper { screen: Screen },
    /// Copy the wallpaper to the backup.
    BackUp { screen: Screen },
    /// Read the wallpaper.
    ReadWallpaper { screen: Screen },
    /// Decode the wallpaper, which is no plain JPEG or PNG file.
    Decode { screen: Screen, lines: Vec<String>, data: Vec<u8> },
    /// Measure the picture and the lines.
    Measure { screen: Screen, lines: Vec<String>, picture: Picture },
    /// Draw the texts on the canvas.
    DrawTexts { canvas: Canvas, draws: Vec<TextDraw> },
    /// Create the output file.
    CreateOutput { canvas: Canvas },
    /// Write the output file.
    WriteOutput { file: Vec<u8> },
    /// Make the output the system's wallpaper.
    SetWallpaper,
    /// Nothing is left to do.
    Finished { outcome: Result<(), WatermarkError> },
}

/// What a `Stage` says.
pub enum StageView {
    MeasureScreen,
    FindOutputDirectory { screen: Screen },
    MakeOutputDirectory { screen: Screen },
    FindWallpaper { screen: Screen },
    BackUp { screen: Screen },
    ReadWallpaper { screen: Screen },
    Decode { screen: Screen, lines: Seq<Seq<char>>, data: Seq<u8> },
    Measure { screen: Screen, lines: Seq<Seq<char>>, picture: Raster },
    DrawTexts { canvas: CanvasView, draws: Seq<DrawView> },
    CreateOutput { canvas: CanvasView },
    WriteOutput { file: Seq<u8> },
    SetWallpaper,
    Finished { outcome: Result<(), ErrorView> },
}

/// What the outcome of a job says.
pub open spec fn outcome_of(outcome: Result<(), WatermarkError>) -> Result<(), ErrorView> {
    match outcome {
        Ok(()) => Ok(()),
        Err(error) => Err(error@),
    }
}

impl View for Stage {
    type V = StageView;

    open spec fn view(&self) -> StageView {
        match self {
            Stage::MeasureScreen => StageView::MeasureScreen,
            Stage::FindOutputDirectory { screen } => StageView::FindOutputDirectory {
                screen: *screen,
            },
            Stage::MakeOutputDirectory { screen } => StageView::MakeOutputDirectory {
                screen: *screen,
            },
            Stage::FindWallpaper { screen } => StageView::FindWallpaper { screen: *screen },
            Stage::BackUp { screen } => StageView::BackUp { screen: *screen },
            Stage::ReadWallpaper { screen } => StageView::ReadWallpaper { screen: *screen },
            Stage::Decode { screen, lines, data } => StageView::Decode {
                screen: *screen,
                lines: texts(lines@),
                data: data@,
            },
            Stage::Measure { screen, lines, picture } => StageView::Measure {
                screen: *screen,
                lines: texts(lines@),
                picture: picture@,
            },
            Stage::DrawTexts { canvas, draws } => StageView::DrawTexts {
                canvas: canvas@,
                draws: draw_views(draws@),
            },
            Stage::CreateOutput { canvas } => StageView::CreateOutput { canvas: canvas@ },
            Stage::WriteOutput { file } => StageView::WriteOutput { file: file@ },
            Stage::SetWallpaper => StageView::SetWallpaper,
            Stage::Finished { outcome } => StageView::Finished { outcome: outcome_of(*outcome) },
        }
    }
}

/// How what had to be done went.
pub enum Event {
    /// The width and the height that the system gives of its screen.
    Screen { width: i32, height: i32 },
    /// Whether what was looked for exists.
    Exists(bool),
    /// It was done, or the text says why it could not be.
    Done(Result<(), String>),
    /// What was read, or why nothing could be.
    Read(Result<Vec<u8>, String>),
    /// The decoded picture, or why there is none.
    Decoded(Result<Picture, PictureError>),
    /// What was measured.
    Measured(Measures),
    /// What was measured, and a picture that the library cannot scale, scaled to the size that was.
    Scaled { measures: Measures, picture: Canvas },
    /// The canvas with the texts.
    Drawn(Canvas),
}

/// What an `Event` says.
pub enum EventView {
    Screen { width: i32, height: i32 },
    Exists(bool),
    Done(Result<(), Seq<char>>),
    Read(Result<Seq<u8>, Seq<char>>),
    Decoded(Result<Raster, PictureErrorView>),
    Measured(MeasuresView),
    Scaled { measures: MeasuresView, picture: CanvasView },
    Drawn(CanvasView),
}

impl View for Event {
    type V = EventView;

    open spec fn view(&self) -> EventView {
        match self {
            Event::Screen { width, height } => EventView::Screen {
                width: *width,
                height: *height,
            },
            Event::Exists(yes) => EventView::Exists(*yes),
            Event::Done(outcome) => EventView::Done(
                match outcome {
                    Ok(()) => Ok(()),
                    Err(text) => Err(text@),
                },
            ),
            Event::Read(outcome) => EventView::Read(file_result(*outcome)),
            Event::Decoded(outcome) => EventView::Decoded(picture_result(*outcome)),
            Event::Measured(measures) => EventView::Measured(measures@),
            Event::Scaled { measures, picture } => EventView::Scaled {
                measures: measures@,
                picture: picture@,
            },
            Event::Drawn(canvas) => EventView::Drawn(canvas@),
        }
    }
}

/// A canvas of this size can be allocated.
pub open spec fn allocatable(screen: Screen) -> bool {
    4 * (screen.width * screen.height) <= isize::MAX && 4 * screen.width <= usize::MAX
}

impl StageView {
    /// The event reports on what this stage asks for.
    pub open spec fn awaits(self, event: EventView) -> bool {
        match self {
            StageView::MeasureScreen => event is Screen,
            StageView::FindOutputDirectory { .. } => event is Exists,
            StageView::MakeOutputDirectory { .. } => event is Done,
            StageView::FindWallpaper { .. } => event is Exists,
            StageView::BackUp { .. } => event is Done,
            StageView::ReadWallpaper { .. } => event is Read,
            StageView::Decode { .. } => event is Decoded,
            StageView::Measure { screen, lines, picture } => match event {
                EventView::Measured(measures) => allocatable(screen) && measures.drawable(
                    lines.len(),
                ) && can_resize(picture, measures.fill_width, measures.fill_height),
                EventView::Scaled { measures, picture: scaled_picture } => allocatable(screen)
                    && measures.drawable(lines.len()) && !can_resize(
                    picture,
                    measures.fill_width,
                    measures.fill_height,
                ) && scaled_picture.width == measures.fill_width && scaled_picture.height
                    == measures.fill_height,
                _ => false,
            },
            StageView::DrawTexts { canvas, .. } => match event {
                EventView::Drawn(drawn) => drawn.width == canvas.width && drawn.height
                    == canvas.height,
                _ => false,
            },
            StageView::CreateOutput { .. } => event is Done,
            StageView::WriteOutput { .. } => event is Done,
            StageView::SetWallpaper => event is Done,
            StageView::Finished { .. } => false,
        }
    }
}

/// The end of a job that failed.
pub open spec fn failed(error: ErrorView) -> StageView {
    StageView::Finished { outcome: Err(error) }
}

/// The stage that follows once something was done; where it could not be, the job fails with
/// what is said of it.
pub open spec fn once_done(outcome: Result<(), Seq<char>>, next: StageView) -> StageView {
    match outcome {
        Ok(()) => next,
        Err(text) => failed(ErrorView::Other(text)),
    }
}

/// The stage that follows once the wallpaper was decoded.
pub open spec fn once_decoded(
    screen: Screen,
    lines: Seq<Seq<char>>,
    outcome: Result<Raster, PictureErrorView>,
) -> StageView {
    match outcome {
        Ok(picture) => StageView::Measure { screen, lines, picture },
        Err(PictureErrorView::Empty) => failed(ErrorView::EmptyWallpaper),
        Err(PictureErrorView::Undecodable(text)) => failed(ErrorView::Other(text)),
    }
}

/// This stage may follow once the wallpaper was read: there must be something to show. A plain
/// JPEG or PNG file is decoded at once; another file has yet to be decoded.
pub open spec fn once_read(
    screen: Screen,
    info: InfoView,
    options: OptionsView,
    outcome: Result<Seq<u8>, Seq<char>>,
    next: StageView,
) -> bool {
    let lines = watermark_lines(info, options);
    match outcome {
        Ok(data) => if lines.len() == 0 {
            next == failed(ErrorView::NothingToShow)
        } else if plain_file(data) {
            exists|decoding: Result<Raster, PictureErrorView>|
                of_plain_file(data, decoding) && next == #[trigger] once_decoded(
                    screen,
                    lines,
                    decoding,
                )
        } else {
            next == (StageView::Decode { screen, lines, data })
        },
        Err(text) => next == failed(ErrorView::Unreadable(text)),
    }
}

/// The stage that follows once the picture was scaled: it is laid over the middle of the screen,
/// and the texts go on top.
pub open spec fn once_scaled(
    screen: Screen,
    lines: Seq<Seq<char>>,
    measures: MeasuresView,
    picture: CanvasView,
) -> StageView {
    StageView::DrawTexts {
        canvas: filled(picture, screen.width, screen.height),
        draws: draws_of(lines, measures),
    }
}

/// The stage that follows once the output file was created: what goes into it.
pub open spec fn once_created(outcome: Result<Seq<u8>, Seq<char>>) -> StageView {
    match outcome {
        Ok(file) => StageView::WriteOutput { file },
        Err(text) => failed(ErrorView::Other(text)),
    }
}

/// The stage that follows an event; for what follows the reading of the wallpaper, see
/// `once_read`.
pub open spec fn next_stage(stage: StageView, event: EventView) -> StageView {
    match (stage, event) {
        (StageView::MeasureScreen, EventView::Screen { width, height }) => match screen_of(
            width,
            height,
        ) {
            Ok(screen) => StageView::FindOutputDirectory { screen },
            Err(error) => failed(error),
        },
        (StageView::FindOutputDirectory { screen }, EventView::Exists(yes)) => if yes {
            StageView::FindWallpaper { screen }
        } else {
            StageView::MakeOutputDirectory { screen }
        },
        (StageView::MakeOutputDirectory { screen }, EventView::Done(outcome)) => once_done(
            outcome,
            StageView::FindWallpaper { screen },
        ),
        (StageView::FindWallpaper { screen }, EventView::Exists(yes)) => if yes {
            StageView::BackUp { screen }
        } else {
            failed(ErrorView::NoWallpaper)
        },
        (StageView::BackUp { screen }, EventView::Done(outcome)) => once_done(
            outcome,
            StageView::ReadWallpaper { screen },
        ),
        (StageView::Decode { screen, lines, .. }, EventView::Decoded(outcome)) => once_decoded(
            screen,
            lines,
            outcome,
        ),
        (
            StageView::Measure { screen, lines, picture },
            EventView::Measured(measures),
        ) => once_scaled(
            screen,
            lines,
            measures,
            scaled(picture, measures.fill_width, measures.fill_height),
        ),
        (
            StageView::Measure { screen, lines, .. },
            EventView::Scaled { measures, picture },
        ) => once_scaled(screen, lines, measures, picture),
        (StageView::DrawTexts { .. }, EventView::Drawn(canvas)) => StageView::CreateOutput {
            canvas,
        },
        (StageView::CreateOutput { canvas }, EventView::Done(outcome)) => match outcome {
            Ok(()) => once_created(jpeg(canvas, JPEG_QUALITY)),
            Err(text) => failed(ErrorView::Other(text)),
        },
        (StageView::WriteOutput { .. }, EventView::Done(outcome)) => once_done(
            outcome,
            StageView::SetWallpaper,
        ),
        (StageView::SetWallpaper, EventView::Done(outcome)) => once_done(
            outcome,
            StageView::Finished { outcome: Ok(()) },
        ),
        _ => stage,
    }
}

/// The stage `next` may follow an event. Only the samples that decoding gives are left open.
pub open spec fn may_follow(
    stage: StageView,
    info: InfoView,
    options: OptionsView,
    event: EventView,
    next: StageView,
) -> bool {
    match (stage, event) {
        (StageView::ReadWallpaper { screen }, EventView::Read(outcome)) => once_read(
            screen,
            info,
            options,
            outcome,
            next,
        ),
        _ => next == next_stage(stage, event),
    }
}

impl Stage {
    /// Tells whether the event reports on what this stage asks for, in a way that the stage can
    /// go on from.
    pub fn takes(&self, event: &Event) -> (yes: bool)
        ensures
            yes == self@.awaits(event@),
    {
        match self {
            Stage::MeasureScreen => matches!(event, Event::Screen { .. }),
            Stage::FindOutputDirectory { .. } => matches!(event, Event::Exists(_)),
            Stage::MakeOutputDirectory { .. } => matches!(event, Event::Done(_)),
            Stage::FindWallpaper { .. } => matches!(event, Event::Exists(_)),
            Stage::BackUp { .. } => matches!(event, Event::Done(_)),
            Stage::ReadWallpaper { .. } => matches!(event, Event::Read(_)),
            Stage::Decode { .. } => matches!(event, Event::Decoded(_)),
            Stage::Measure { screen, lines, picture } => match event {
                Event::Measured(measures) => can_allocate(*screen) && measures.can_draw(lines.len())
                    && picture.can_scale_to(measures.fill_width, measures.fill_height),
                Event::Scaled { measures, picture: scaled_picture } => can_allocate(*screen)
                    && measures.can_draw(lines.len()) && !picture.can_scale_to(
                    measures.fill_width,
                    measures.fill_height,
                ) && scaled_picture.width() == measures.fill_width && scaled_picture.height()
                    == measures.fill_height,
                _ => false,
            },
            Stage::DrawTexts { canvas, .. } => match event {
                Event::Drawn(drawn) => drawn.width() == canvas.width() && drawn.height()
                    == canvas.height(),
                _ => false,
            },
            Stage::CreateOutput { .. } => matches!(event, Event::Done(_)),
            Stage::WriteOutput { .. } => matches!(event, Event::Done(_)),
            Stage::SetWallpaper => matches!(event, Event::Done(_)),
            Stage::Finished { .. } => false,
        }
    }

    /// Goes on to a stage that may follow the event. What the samples of a plain JPEG or PNG file
    /// are is left unsaid, as it is of the decoder; `with_picture` says what follows each outcome.
    pub fn advance(self, info: &NetworkInfo, options: &WatermarkOptions, event: Event) -> (next:
        Stage)
        requires
            self@.awaits(event@),
        ensures
            may_follow(self@, info@, options@, event@, next@),
    {
        match (self, event) {
            (Stage::MeasureScreen, Event::Screen { width, height }) => {
                if width == 0 || height == 0 {
                    fail(WatermarkError::NoScreen)
                } else {
                    Stage::FindOutputDirectory {
                        screen: Screen { width: width as u32, height: height as u32 },
                    }
                }
            },
            (Stage::FindOutputDirectory { screen }, Event::Exists(yes)) => {
                if yes {
                    Stage::FindWallpaper { screen }
                } else {
                    Stage::MakeOutputDirectory { screen }
                }
            },
            (Stage::MakeOutputDirectory { screen }, Event::Done(outcome)) => go_on(
                outcome,
                Stage::FindWallpaper { screen },
            ),
            (Stage::FindWallpaper { screen }, Event::Exists(yes)) => {
                if yes {
                    Stage::BackUp { screen }
                } else {
                    fail(WatermarkError::NoWallpaper)
                }
            },
            (Stage::BackUp { screen }, Event::Done(outcome)) => go_on(
                outcome,
                Stage::ReadWallpaper { screen },
            ),
            (Stage::ReadWallpaper { screen }, Event::Read(outcome)) => match outcome {
                Ok(data) => {
                    let lines = build_watermark_lines(info, options);
                    assert(texts(lines@).len() == lines@.len());
                    if lines.len() == 0 {
                        fail(WatermarkError::NothingToShow)
                    } else {
                        match Picture::open(data.as_slice()) {
                            Some(outcome) => with_picture(screen, lines, outcome),
                            None => Stage::Decode { screen, lines, data },
                        }
                    }
                },
                Err(text) => fail(WatermarkError::Unreadable(text)),
            },
            (Stage::Decode { screen, lines, .. }, Event::Decoded(outcome)) => with_picture(
                screen,
                lines,
                outcome,
            ),
            (Stage::Measure { screen, lines, picture }, Event::Measured(measures)) => {
                assert(texts(lines@).len() == lines@.len());
                let scaled_picture = picture.scale_to(measures.fill_width, measures.fill_height);
                lay_out(screen, &lines, &measures, scaled_picture)
            },
            (Stage::Measure { screen, lines, .. }, Event::Scaled { measures, picture }) => {
                assert(texts(lines@).len() == lines@.len());
                lay_out(screen, &lines, &measures, picture)
            },
            (Stage::DrawTexts { .. }, Event::Drawn(canvas)) => Stage::CreateOutput { canvas },
            (Stage::CreateOutput { canvas }, Event::Done(outcome)) => match outcome {
                Ok(()) => with_file(encode_wallpaper(canvas)),
                Err(text) => fail(WatermarkError::Other(text)),
            },
            (Stage::WriteOutput { .. }, Event::Done(outcome)) => go_on(
                outcome,
                Stage::SetWallpaper,
            ),
            (Stage::SetWallpaper, Event::Done(outcome)) => go_on(
                outcome,
                Stage::Finished { outcome: Ok(()) },
            ),
            (stage, _) => stage,
        }
    }
}

/// Tells whether a canvas of this size can be allocated.
fn can_allocate(screen: Screen) -> (yes: bool)
    ensures
        yes == allocatable(screen),
{
    assert(0 <= screen.width * screen.height <= u32::MAX * u32::MAX) by (nonlinear_arith)
        requires
            0 <= screen.width <= u32::MAX,
            0 <= screen.height <= u32::MAX,
    ;
    4 * (screen.width as u128 * screen.height as u128) <= isize::MAX as u128 && 4 * (
    screen.width as u128) <= usize::MAX as u128
}

/// Ends a job that failed.
fn fail(error: WatermarkError) -> (stage: Stage)
    ensures
        stage@ == failed(error@),
{
    Stage::Finished { outcome: Err(error) }
}

/// Goes on once something was done.
fn go_on(outcome: Result<(), String>, next: Stage) -> (stage: Stage)
    ensures
        stage@ == once_done(
            match outcome {
                Ok(()) => Ok(()),
                Err(text) => Err(text@),
            },
            next@,
        ),
{
    match outcome {
        Ok(()) => next,
        Err(text) => fail(WatermarkError::Other(text)),
    }
}

/// Goes on once the wallpaper was decoded.
pub fn with_picture(
    screen: Screen,
    lines: Vec<String>,
    outcome: Result<Picture, PictureError>,
) -> (stage: Stage)
    ensures
        stage@ == once_decoded(screen, texts(lines@), picture_result(outcome)),
{
    match outcome {
        Ok(picture) => Stage::Measure { screen, lines, picture },
        Err(PictureError::Empty) => fail(WatermarkError::EmptyWallpaper),
        Err(PictureError::Undecodable(text)) => fail(WatermarkError::Other(text)),
    }
}

/// Goes on once the picture was scaled.
pub fn lay_out(screen: Screen, lines: &Vec<String>, measures: &Measures, picture: Canvas) -> (stage:
    Stage)
    requires
        allocatable(screen),
        measures@.drawable(lines@.len()),
    ensures
        stage@ == once_scaled(screen, texts(lines@), measures@, picture@),
{
    Stage::DrawTexts {
        canvas: fill_screen(picture, screen.width, screen.height),
        draws: plan_texts(lines, measures),
    }
}

/// Goes on once the wallpaper was encoded.
pub fn with_file(outcome: Result<Vec<u8>, String>) -> (stage: Stage)
    ensures
        stage@ == once_created(file_result(outcome)),
{
    match outcome {
        Ok(file) => Stage::WriteOutput { file },
        Err(text) => fail(WatermarkError::Other(text)),
    }
}

/// What had to be done was done.
pub open spec fn was_done(event: EventView) -> bool {
    event is Done && event->Done_0 is Ok
}

/// How far a job is.
pub open spec fn progress(stage: StageView) -> int {
    match stage {
        StageView::MeasureScreen => 0,
        StageView::FindOutputDirectory { .. } => 1,
        StageView::MakeOutputDirectory { .. } => 2,
        StageView::FindWallpaper { .. } => 3,
        StageView::BackUp { .. } => 4,
        StageView::ReadWallpaper { .. } => 5,
        StageView::Decode { .. } => 6,
        StageView::Measure { .. } => 7,
        StageView::DrawTexts { .. } => 8,
        StageView::CreateOutput { .. } => 9,
        StageView::WriteOutput { .. } => 10,
        StageView::SetWallpaper => 11,
        StageView::Finished { .. } => 12,
    }
}

/// A job ends: every event takes it further, and once it is finished it takes no more.
pub proof fn law_job_moves_on(
    stage: StageView,
    info: InfoView,
    options: OptionsView,
    event: EventView,
    next: StageView,
)
    requires
        stage.awaits(event),
        may_follow(stage, info, options, event, next),
    ensures
        progress(stage) < progress(next) <= 12,
        stage !is Finished,
{
}

/// No stage is left out but the making of a directory that exists and the decoding of a plain
/// file: a stage is reached only from the one before it, once what that asked for was done.
/// In particular the wallpaper is backed up before it is read, nothing is written before there is
/// something to show, and the wallpaper is not set before the output was written.
pub proof fn law_stages_come_in_order(
    stage: StageView,
    info: InfoView,
    options: OptionsView,
    event: EventView,
    next: StageView,
)
    requires
        stage.awaits(event),
        may_follow(stage, info, options, event, next),
    ensures
        match next {
            StageView::MeasureScreen => false,
            StageView::FindOutputDirectory { screen } => stage is MeasureScreen && screen.width
                != 0 && screen.height != 0,
            StageView::MakeOutputDirectory { screen } => stage == (StageView::FindOutputDirectory {
                screen,
            }) && event == EventView::Exists(false),
            StageView::FindWallpaper { screen } => {
                ||| stage == (StageView::FindOutputDirectory { screen }) && event
                    == EventView::Exists(true)
                ||| stage == (StageView::MakeOutputDirectory { screen }) && was_done(event)
            },
            StageView::BackUp { screen } => stage == (StageView::FindWallpaper { screen }) && event
                == EventView::Exists(true),
            StageView::ReadWallpaper { screen } => stage == (StageView::BackUp { screen })
                && was_done(event),
            StageView::Decode { screen, lines, data } => {
                &&& stage == (StageView::ReadWallpaper { screen })
                &&& event == EventView::Read(Ok(data))
                &&& !plain_file(data)
                &&& lines == watermark_lines(info, options)
                &&& lines.len() > 0
            },
            StageView::Measure { screen, lines, picture } => {
                ||| stage is Decode && stage->Decode_screen == screen && stage->Decode_lines
                    == lines && event == EventView::Decoded(Ok(picture))
                ||| {
                    &&& stage == (StageView::ReadWallpaper { screen })
                    &&& event is Read && event->Read_0 is Ok
                    &&& plain_file(event->Read_0->Ok_0)
                    &&& may_decode_to(event->Read_0->Ok_0, Ok(picture))
                    &&& lines == watermark_lines(info, options)
                    &&& lines.len() > 0
                }
            },
            StageView::DrawTexts { .. } => stage is Measure,
            StageView::CreateOutput { canvas } => stage is DrawTexts && event == EventView::Drawn(
                canvas,
            ),
            StageView::WriteOutput { .. } => stage is CreateOutput && was_done(event),
            StageView::SetWallpaper => stage is WriteOutput && was_done(event),
            StageView::Finished { outcome } => outcome is Ok ==> stage is SetWallpaper && was_done(
                event,
            ),
        },
{
    if let (StageView::MeasureScreen, EventView::Screen { width, height }) = (stage, event) {
        if width != 0 && height != 0 {
            assert(width != 0 ==> width as u32 != 0) by (bit_vector);
            assert(height != 0 ==> height as u32 != 0) by (bit_vector);
        }
    }
}

/// The wallpaper has the size of the screen: the canvas on which the texts are drawn has it, and
/// so has the one that is encoded.
pub proof fn law_wallpaper_has_the_size_of_the_screen(
    stage: StageView,
    info: InfoView,
    options: OptionsView,
    event: EventView,
    next: StageView,
)
    requires
        stage.awaits(event),
        may_follow(stage, info, options, event, next),
    ensures
        match (stage, next) {
            (StageView::Measure { screen, .. }, StageView::DrawTexts { canvas, .. }) => canvas.width
                == screen.width && canvas.height == screen.height,
            (
                StageView::DrawTexts { canvas, .. },
                StageView::CreateOutput { canvas: drawn },
            ) => drawn.width == canvas.width && drawn.height == canvas.height,
            (before, after) => after !is DrawTexts && after !is CreateOutput,
        },
{
}

/// What cannot be done ends the job, with what was said of it.
pub proof fn law_failure_ends_the_job(
    stage: StageView,
    info: InfoView,
    options: OptionsView,
    text: Seq<char>,
    next: StageView,
)
    ensures
        stage.awaits(EventView::Done(Err(text))) && may_follow(
            stage,
            info,
            options,
            EventView::Done(Err(text)),
            next,
        ) ==> next == failed(ErrorView::Other(text)),
        stage.awaits(EventView::Read(Err(text))) && may_follow(
            stage,
            info,
            options,
            EventView::Read(Err(text)),
            next,
        ) ==> next == failed(ErrorView::Unreadable(text)),
{
}

/// A plain file that may be decoded is: a picture of the same size and kind is measured next, and
/// the same picture where it is a PNG file. One that may not be fails with the decoder's error.
pub proof fn law_plain_wallpaper_is_decoded(
    screen: Screen,
    info: InfoView,
    options: OptionsView,
    data: Seq<u8>,
    decoding: Result<Raster, Seq<char>>,
    next: StageView,
)
    requires
        watermark_lines(info, options).len() > 0,
        plain_file(data),
        may_decode_to(data, decoding),
        may_follow(
            StageView::ReadWallpaper { screen },
            info,
            options,
            EventView::Read(Ok(data)),
            next,
        ),
    ensures
        match decoding {
            Ok(picture) => {
                &&& next is Measure
                &&& next->Measure_screen == screen
                &&& next->Measure_lines == watermark_lines(info, options)
                &&& may_decode_to(data, Ok(next->Measure_picture))
                &&& alike(data, decoding, Ok(next->Measure_picture))
            },
            Err(text) => next == failed(ErrorView::Other(text)),
        },
{
}

/// A job in which nothing goes wrong ends well: the screen has a size, there is a wallpaper that
/// can be read and decoded, there is something to show, and what is drawn can be encoded.
/// `measuring` is the stage that follows the reading, or the decoding where that has a stage of
/// its own.
pub proof fn law_undisturbed_job_succeeds(
    info: InfoView,
    options: OptionsView,
    width: i32,
    height: i32,
    data: Seq<u8>,
    picture: Raster,
    measuring: StageView,
    measures: MeasuresView,
    drawn: CanvasView,
)
    requires
        width != 0,
        height != 0,
        watermark_lines(info, options).len() > 0,
        ({
            let screen = Screen { width: width as u32, height: height as u32 };
            let lines = watermark_lines(info, options);
            if plain_file(data) {
                may_decode_to(data, Ok(picture)) && may_follow(
                    StageView::ReadWallpaper { screen },
                    info,
                    options,
                    EventView::Read(Ok(data)),
                    measuring,
                )
            } else {
                may_follow(
                    StageView::Decode { screen, lines, data },
                    info,
                    options,
                    EventView::Decoded(Ok(picture)),
                    measuring,
                )
            }
        }),
        measuring.awaits(EventView::Measured(measures)),
        drawn.width == width as u32,
        drawn.height == height as u32,
        jpeg(drawn, JPEG_QUALITY) is Ok,
    ensures
        ({
            let done = EventView::Done(Ok(()));
            let screen = Screen { width: width as u32, height: height as u32 };
            let lines = watermark_lines(info, options);
            let found = next_stage(StageView::MeasureScreen, EventView::Screen { width, height });
            let made = next_stage(next_stage(found, EventView::Exists(false)), done);
            let reading = next_stage(next_stage(made, EventView::Exists(true)), done);
            let drawing = next_stage(measuring, EventView::Measured(measures));
            let encoded = next_stage(next_stage(drawing, EventView::Drawn(drawn)), done);
            let finished = next_stage(next_stage(encoded, done), done);
            &&& made == next_stage(found, EventView::Exists(true))
            &&& reading == (StageView::ReadWallpaper { screen })
            &&& !plain_file(data) ==> forall|next: StageView| #[trigger]
                may_follow(reading, info, options, EventView::Read(Ok(data)), next) <==> next == (
                StageView::Decode { screen, lines, data })
            &&& measuring is Measure
            &&& measuring->Measure_screen == screen
            &&& measuring->Measure_lines == lines
            &&& alike(data, Ok(picture), Ok(measuring->Measure_picture))
            &&& drawing.awaits(EventView::Drawn(drawn))
            &&& encoded == (StageView::WriteOutput { file: jpeg(drawn, JPEG_QUALITY)->Ok_0 })
            &&& finished is Finished && finished->outcome is Ok
        }),
{
    let screen = Screen { width: width as u32, height: height as u32 };
    if plain_file(data) {
        law_plain_wallpaper_is_decoded(screen, info, options, data, Ok(picture), measuring);
    }
}

/// What the stage asked for went wrong: the screen has no size, there is no wallpaper, it cannot be
/// read or decoded, there is nothing to show, the wallpaper cannot be encoded, or something could
/// not be done.
pub open spec fn went_wrong(
    stage: StageView,
    info: InfoView,
    options: OptionsView,
    event: EventView,
) -> bool {
    match (stage, event) {
        (StageView::MeasureScreen, EventView::Screen { width, height }) => width == 0 || height
            == 0,
        (StageView::FindWallpaper { .. }, EventView::Exists(yes)) => !yes,
        (StageView::ReadWallpaper { .. }, EventView::Read(outcome)) => match outcome {
            Ok(data) => watermark_lines(info, options).len() == 0 || plain_file(data) && exists|
                text: Seq<char>,
            | #[trigger]
                may_decode_to(data, Err(text)),
            Err(_) => true,
        },
        (StageView::Decode { .. }, EventView::Decoded(outcome)) => outcome is Err,
        (StageView::CreateOutput { canvas }, EventView::Done(outcome)) => outcome is Err || jpeg(
            canvas,
            JPEG_QUALITY,
        ) is Err,
        (_, EventView::Done(outcome)) => outcome is Err,
        _ => false,
    }
}

/// A job fails exactly where something went wrong, and succeeds exactly where the wallpaper was set.
pub proof fn law_job_fails_exactly_where_something_went_wrong(
    stage: StageView,
    info: InfoView,
    options: OptionsView,
    event: EventView,
    next: StageView,
)
    requires
        stage.awaits(event),
        may_follow(stage, info, options, event, next),
    ensures
        (next is Finished && next->outcome is Err) <==> went_wrong(stage, info, options, event),
        (next is Finished && next->outcome is Ok) <==> stage is SetWallpaper && was_done(event),
{
    if let (StageView::ReadWallpaper { screen }, EventView::Read(Ok(data))) = (stage, event) {
        if watermark_lines(info, options).len() > 0 && plain_file(data) {
            if exists|text: Seq<char>| #[trigger] may_decode_to(data, Err(text)) {
                let text = choose|text: Seq<char>| #[trigger] may_decode_to(data, Err(text));
                law_plain_wallpaper_is_decoded(screen, info, options, data, Err(text), next);
            }
        }
    }
}

/// A job fails only for the reason that its error gives.
pub proof fn law_each_failure_has_its_cause(
    stage: StageView,
    info: InfoView,
    options: OptionsView,
    event: EventView,
    error: ErrorView,
)
    requires
        stage.awaits(event),
        may_follow(stage, info, options, event, failed(error)),
    ensures
        match error {
            ErrorView::NoScreen => stage is MeasureScreen && (event->width == 0 || event->height
                == 0),
            ErrorView::NoWallpaper => stage is FindWallpaper && event == EventView::Exists(false),
            ErrorView::Unreadable(text) => stage is ReadWallpaper && event == EventView::Read(
                Err(text),
            ),
            ErrorView::NothingToShow => stage is ReadWallpaper && watermark_lines(
                info,
                options,
            ).len() == 0,
            ErrorView::EmptyWallpaper => stage is Decode && event == EventView::Decoded(
                Err(PictureErrorView::Empty),
            ),
            ErrorView::PathNotText => false,
            ErrorView::Other(text) => {
                ||| event == EventView::Done(Err(text))
                ||| event == EventView::Decoded(Err(PictureErrorView::Undecodable(text)))
                ||| stage is ReadWallpaper && event->Read_0 is Ok && plain_file(
                    event->Read_0->Ok_0,
                ) && may_decode_to(event->Read_0->Ok_0, Err(text))
                ||| stage is CreateOutput && jpeg(stage->CreateOutput_canvas, JPEG_QUALITY) == Err::<
                    Seq<u8>,
                    Seq<char>,
                >(text)
            },
        },
{
}

/// Each line is drawn twice, and nothing else is: first its shadow, to the right and below, then
/// the line over it; and no line begins closer to the left edge than the limit.
pub proof fn law_each_line_has_its_shadow(
    lines: Seq<Seq<char>>,
    measures: MeasuresView,
    line: int,
)
    requires
        0 <= line < lines.len(),
    ensures
        ({
            let draws = draws_of(lines, measures);
            let shadow = draws[2 * line];
            let text = draws[2 * line + 1];
            &&& draws.len() == 2 * lines.len()
            &&& shadow.text == lines[line] && text.text == lines[line]
            &&& shadow.x == text.x + 2 && shadow.y == text.y + 2
            &&& text.x >= 10
            &&& measures.text_x >= 10 ==> text.x == measures.text_x
        }),
{
    assert((2 * line) % 2 == 0 && (2 * line) / 2 == line);
    assert((2 * line + 1) % 2 == 1 && (2 * line + 1) / 2 == line);
}

/// The path that the system takes no longer begins with the prefix of a full path, and ends as
/// the full path does.
pub proof fn law_system_path_is_plain(full_path: Seq<char>)
    ensures
        system_path_of(Some(full_path)) is Ok,
        !verbatim_prefix().is_prefix_of(system_path_of(Some(full_path))->Ok_0),
        (system_path_of(Some(full_path))->Ok_0).is_suffix_of(full_path),
{
    reveal_strlit(r"\\?\");
    crate::text::law_prefixes_are_gone(full_path, verbatim_prefix());
}

/// What is drawn and what was measured say what their fields say, of every text and every line.
pub proof fn law_plan_says_its_fields(draws: Seq<TextDraw>, measures: Measures, i: int)
    ensures
        draw_views(draws).len() == draws.len(),
        0 <= i < draws.len() ==> {
            let draw = draw_views(draws)[i];
            &&& draw.text == draws[i].text@
            &&& draw.x == draws[i].x
            &&& draw.y == draws[i].y
            &&& draw.color == draws[i].color@
        },
        measures@.fill_width == measures.fill_width,
        measures@.fill_height == measures.fill_height,
        measures@.text_x == measures.text_x,
        measures@.margin_top == measures.margin_top,
        measures@.line_offsets.len() == measures.line_offsets@.len(),
        0 <= i < measures.line_offsets@.len() ==> measures@.line_offsets[i]
            == measures.line_offsets@[i],
{
}

/// Every line is drawn at its own place: so far below the top margin as was measured for this line,
/// and where the lines begin at the left; in opaque white. Right before it its shadow is drawn, two
/// pixels further to the right and down, in black and somewhat translucent.
pub proof fn law_each_line_is_drawn_at_its_offset(
    lines: Seq<Seq<char>>,
    measures: MeasuresView,
    line: int,
)
    requires
        0 <= line < lines.len(),
    ensures
        ({
            let draws = draws_of(lines, measures);
            let shadow = draws[2 * line];
            let text = draws[2 * line + 1];
            &&& draws.len() == 2 * lines.len()
            &&& text.text == lines[line]
            &&& text.x == if measures.text_x > 10 {
                measures.text_x
            } else {
                10
            }
            &&& text.y == measures.margin_top + measures.line_offsets[line]
            &&& text.color == seq![255u8, 255u8, 255u8, 255u8]
            &&& shadow.text == lines[line]
            &&& shadow.x == text.x + 2
            &&& shadow.y == measures.margin_top + measures.line_offsets[line] + 2
            &&& shadow.color == seq![0u8, 0u8, 0u8, 180u8]
        }),
{
    assert((2 * line) % 2 == 0 && (2 * line) / 2 == line);
    assert((2 * line + 1) % 2 == 1 && (2 * line + 1) / 2 == line);
}

/// Lines are drawn one below the other: of two lines that one is lower for which a greater offset
/// was measured, by the difference of the two, and so is its shadow; so no two lines share a place
/// unless they share an offset.
pub proof fn law_lines_are_drawn_one_below_the_other(
    lines: Seq<Seq<char>>,
    measures: MeasuresView,
    upper: int,
    lower: int,
)
    requires
        0 <= upper < lines.len(),
        0 <= lower < lines.len(),
    ensures
        ({
            let draws = draws_of(lines, measures);
            let apart = measures.line_offsets[lower] - measures.line_offsets[upper];
            &&& draws[2 * lower + 1].y - draws[2 * upper + 1].y == apart
            &&& draws[2 * lower].y - draws[2 * upper].y == apart
            &&& draws[2 * lower + 1].x == draws[2 * upper + 1].x
            &&& draws[2 * lower].x == draws[2 * upper].x
            &&& measures.line_offsets[upper] < measures.line_offsets[lower] ==> draws[2 * upper
                + 1].y < draws[2 * lower + 1].y && draws[2 * upper].y < draws[2 * lower].y
        }),
{
    law_each_line_is_drawn_at_its_offset(lines, measures, upper);
    law_each_line_is_drawn_at_its_offset(lines, measures, lower);
}

/// Lines can be drawn exactly where each was measured, and where each place at which a line or its
/// shadow begins is a number of 32 bits.
pub proof fn law_which_lines_can_be_drawn(measures: MeasuresView, lines: nat)
    ensures
        measures.drawable(lines) <==> {
            &&& measures.line_offsets.len() == lines
            &&& measures.text_x + 2 <= 0x7fff_ffff
            &&& forall|i: int|
                0 <= i < lines ==> -0x8000_0000 <= measures.margin_top
                    + #[trigger] measures.line_offsets[i] <= 0x7fff_ffff - 2
        },
{
    if measures.drawable(lines) {
        assert forall|i: int| 0 <= i < lines implies -0x8000_0000 <= measures.margin_top
            + #[trigger] measures.line_offsets[i] <= 0x7fff_ffff - 2 by {
            assert(measures.top(i) == measures.margin_top + measures.line_offsets[i]);
        }
    }
}

/// Errors, outcomes, stages and events say what they hold.
pub proof fn law_stages_say_what_they_hold(
    screen: Screen,
    lines: Vec<String>,
    data: Vec<u8>,
    picture: Picture,
    canvas: Canvas,
    draws: Vec<TextDraw>,
    error: WatermarkError,
    text: String,
)
    ensures
        Stage::MeasureScreen@ == StageView::MeasureScreen,
        (Stage::FindOutputDirectory { screen })@ == (StageView::FindOutputDirectory { screen }),
        (Stage::MakeOutputDirectory { screen })@ == (StageView::MakeOutputDirectory { screen }),
        (Stage::FindWallpaper { screen })@ == (StageView::FindWallpaper { screen }),
        (Stage::BackUp { screen })@ == (StageView::BackUp { screen }),
        (Stage::ReadWallpaper { screen })@ == (StageView::ReadWallpaper { screen }),
        (Stage::Decode { screen, lines, data })@ == (StageView::Decode {
            screen,
            lines: texts(lines@),
            data: data@,
        }),
        (Stage::Measure { screen, lines, picture })@ == (StageView::Measure {
            screen,
            lines: texts(lines@),
            picture: picture@,
        }),
        (Stage::DrawTexts { canvas, draws })@ == (StageView::DrawTexts {
            canvas: canvas@,
            draws: draw_views(draws@),
        }),
        (Stage::CreateOutput { canvas })@ == (StageView::CreateOutput { canvas: canvas@ }),
        (Stage::WriteOutput { file: data })@ == (StageView::WriteOutput { file: data@ }),
        Stage::SetWallpaper@ == StageView::SetWallpaper,
        (Stage::Finished { outcome: Ok(()) })@ == (StageView::Finished { outcome: Ok(()) }),
        (Stage::Finished { outcome: Err(error) })@ == (StageView::Finished {
            outcome: Err(error@),
        }),
        outcome_of(Ok(())) == Ok::<(), ErrorView>(()),
        outcome_of(Err(error)) == Err::<(), ErrorView>(error@),
        WatermarkError::NoScreen@ == ErrorView::NoScreen,
        WatermarkError::NoWallpaper@ == ErrorView::NoWallpaper,
        WatermarkError::Unreadable(text)@ == ErrorView::Unreadable(text@),
        WatermarkError::NothingToShow@ == ErrorView::NothingToShow,
        WatermarkError::EmptyWallpaper@ == ErrorView::EmptyWallpaper,
        WatermarkError::PathNotText@ == ErrorView::PathNotText,
        WatermarkError::Other(text)@ == ErrorView::Other(text@),
{
}

/// Events say what they report.
pub proof fn law_events_say_what_they_report(
    width: i32,
    height: i32,
    yes: bool,
    text: String,
    data: Vec<u8>,
    decoding: Result<Picture, PictureError>,
    measures: Measures,
    canvas: Canvas,
)
    ensures
        (Event::Screen { width, height })@ == (EventView::Screen { width, height }),
        Event::Exists(yes)@ == EventView::Exists(yes),
        Event::Done(Ok(()))@ == EventView::Done(Ok(())),
        Event::Done(Err(text))@ == EventView::Done(Err(text@)),
        Event::Read(Ok(data))@ == EventView::Read(Ok(data@)),
        Event::Read(Err(text))@ == EventView::Read(Err(text@)),
        Event::Decoded(decoding)@ == EventView::Decoded(picture_result(decoding)),
        Event::Measured(measures)@ == EventView::Measured(measures@),
        (Event::Scaled { measures, picture: canvas })@ == (EventView::Scaled {
            measures: measures@,
            picture: canvas@,
        }),
        Event::Drawn(canvas)@ == EventView::Drawn(canvas@),
{
}

/// Each error has its own message; that of what else failed is what was said of it, and one that
/// the wallpaper could not be read says why.
pub proof fn law_messages_tell_errors_apart(text: Seq<char>)
    ensures
        message_of(ErrorView::NoScreen) == "无法获取屏幕分辨率"@,
        message_of(ErrorView::NoWallpaper)
            == "未找到系统壁纸 TranscodedWallpaper，请确保当前使用的是图片壁纸。"@,
        message_of(ErrorView::Unreadable(text)) == "无法读取壁纸："@ + text + "，请稍后重试。"@,
        message_of(ErrorView::NothingToShow) == "没有可显示的水印内容"@,
        message_of(ErrorView::EmptyWallpaper) == "原壁纸尺寸无效"@,
        message_of(ErrorView::PathNotText) == "路径包含非法字符"@,
        message_of(ErrorView::Other(text)) == text,
{
}

/// The files lie where the system keeps its own wallpaper, and where the tool keeps what it writes.
pub proof fn law_files_have_their_places()
    ensures
        THEMES_DIRECTORY@ == r"AppData\Roaming\Microsoft\Windows\Themes"@,
        WALLPAPER_FILE@ == "TranscodedWallpaper"@,
        OUTPUT_DIRECTORY@ == "WallpaperTool"@,
        OUTPUT_FILE@ == "Wallpaper_Watermark.jpg"@,
        BACKUP_FILE@ == "Wallpaper_Backup.jpg"@,
{
}

/// The path that the system takes is the full path, less the prefix where it begins with it: a path
/// without it stays as it is, and one more prefix makes no difference. A path that is no text is
/// refused.
pub proof fn law_only_the_prefix_of_a_path_is_taken_off(path: Seq<char>)
    ensures
        system_path_of(Some(r"\\?\"@ + path)) == system_path_of(Some(path)),
        !(r"\\?\"@).is_prefix_of(path) ==> system_path_of(Some(path)) == Ok::<Seq<char>, ErrorView>(
            path,
        ),
        system_path_of(None) == Err::<Seq<char>, ErrorView>(ErrorView::PathNotText),
{
    reveal_strlit(r"\\?\");
    crate::text::law_only_prefixes_are_taken_off(path, verbatim_prefix());
}

/// The result of making a path says what it holds.
pub proof fn law_path_result_says_what_it_holds(path: String, error: WatermarkError)
    ensures
        path_result(Ok(path)) == Ok::<Seq<char>, ErrorView>(path@),
        path_result(Err(error)) == Err::<Seq<char>, ErrorView>(error@),
{
}

/// The user's profile is the one that is known, unless that is empty; then the environment's; and
/// where that names none, the root of the system's drive.
pub proof fn law_user_path_is_the_known_one(known: Seq<char>, environment: Option<Seq<char>>)
    ensures
        known.len() > 0 ==> user_path_of(known, environment) == known,
        known.len() == 0 && environment is Some ==> user_path_of(known, environment)
            == environment->0,
        known.len() == 0 && environment is None ==> user_path_of(known, environment) == r"C:\"@,
{
}

/// A job begins with the size of the screen, which must have one, and keeps it: the screen whose
/// size was found is the one on which the wallpaper is drawn.
pub proof fn law_job_keeps_the_size_of_the_screen(
    width: i32,
    height: i32,
    info: InfoView,
    options: OptionsView,
    next: StageView,
)
    requires
        may_follow(
            StageView::MeasureScreen,
            info,
            options,
            EventView::Screen { width, height },
            next,
        ),
    ensures
        width == 0 || height == 0 ==> next == (StageView::Finished {
            outcome: Err(ErrorView::NoScreen),
        }),
        width != 0 && height != 0 ==> {
            &&& next is FindOutputDirectory
            &&& next->FindOutputDirectory_screen.width == width as u32
            &&& next->FindOutputDirectory_screen.height == height as u32
        },
{
}

/// The output directory is made exactly where it is missing, and the wallpaper must be there.
pub proof fn law_what_follows_a_search(
    screen: Screen,
    yes: bool,
    info: InfoView,
    options: OptionsView,
    next: StageView,
)
    ensures
        may_follow(
            StageView::FindOutputDirectory { screen },
            info,
            options,
            EventView::Exists(yes),
            next,
        ) <==> if yes {
            next == (StageView::FindWallpaper { screen })
        } else {
            next == (StageView::MakeOutputDirectory { screen })
        },
        may_follow(
            StageView::FindWallpaper { screen },
            info,
            options,
            EventView::Exists(yes),
            next,
        ) <==> if yes {
            next == (StageView::BackUp { screen })
        } else {
            next == (StageView::Finished { outcome: Err(ErrorView::NoWallpaper) })
        },
{
}

/// What was done leads on to what comes after it; what could not be done ends the job with what was
/// said of it.
pub proof fn law_what_follows_a_deed(
    screen: Screen,
    file: Seq<u8>,
    outcome: Result<(), Seq<char>>,
    info: InfoView,
    options: OptionsView,
    next: StageView,
)
    ensures
        ({
            let event = EventView::Done(outcome);
            let led_to = |after: StageView|
                match outcome {
                    Ok(()) => next == after,
                    Err(text) => next == (StageView::Finished {
                        outcome: Err(ErrorView::Other(text)),
                    }),
                };
            &&& may_follow(
                StageView::MakeOutputDirectory { screen },
                info,
                options,
                event,
                next,
            ) <==> led_to(StageView::FindWallpaper { screen })
            &&& may_follow(StageView::BackUp { screen }, info, options, event, next) <==> led_to(
                StageView::ReadWallpaper { screen },
            )
            &&& may_follow(StageView::WriteOutput { file }, info, options, event, next) <==> led_to(
                StageView::SetWallpaper,
            )
            &&& may_follow(StageView::SetWallpaper, info, options, event, next) <==> led_to(
                StageView::Finished { outcome: Ok(()) },
            )
        }),
{
}

/// What is written is the drawn canvas as a JPEG file of quality 95; what cannot be encoded, or
/// cannot be created, ends the job with what was said of it.
pub proof fn law_output_is_the_canvas(
    canvas: CanvasView,
    drawn: CanvasView,
    draws: Seq<DrawView>,
    outcome: Result<(), Seq<char>>,
    info: InfoView,
    options: OptionsView,
    next: StageView,
)
    ensures
        may_follow(
            StageView::DrawTexts { canvas, draws },
            info,
            options,
            EventView::Drawn(drawn),
            next,
        ) <==> next == (StageView::CreateOutput { canvas: drawn }),
        may_follow(
            StageView::CreateOutput { canvas },
            info,
            options,
            EventView::Done(outcome),
            next,
        ) <==> match (outcome, jpeg(canvas, 95)) {
            (Ok(()), Ok(file)) => next == (StageView::WriteOutput { file }),
            (Ok(()), Err(text)) => next == (StageView::Finished {
                outcome: Err(ErrorView::Other(text)),
            }),
            (Err(text), _) => next == (StageView::Finished {
                outcome: Err(ErrorView::Other(text)),
            }),
        },
        may_follow(
            StageView::CreateOutput { canvas },
            info,
            options,
            EventView::Done(Ok(())),
            next,
        ) <==> next == once_created(jpeg(canvas, 95)),
{
}

/// Once the wallpaper was read, the lines of the watermark are written, and there must be some. A
/// file that is not decoded here is handed on whole, and one that is leads to its picture or to the
/// decoder's error; what could not be read ends the job.
pub proof fn law_what_follows_the_reading(
    screen: Screen,
    outcome: Result<Seq<u8>, Seq<char>>,
    info: InfoView,
    options: OptionsView,
    next: StageView,
)
    requires
        may_follow(
            StageView::ReadWallpaper { screen },
            info,
            options,
            EventView::Read(outcome),
            next,
        ),
    ensures
        ({
            let lines = watermark_lines(info, options);
            match outcome {
                Err(text) => next == (StageView::Finished {
                    outcome: Err(ErrorView::Unreadable(text)),
                }),
                Ok(data) => if lines.len() == 0 {
                    next == (StageView::Finished { outcome: Err(ErrorView::NothingToShow) })
                } else if !plain_file(data) {
                    next == (StageView::Decode { screen, lines, data })
                } else {
                    match next {
                        StageView::Measure { screen: kept, lines: written, picture } => kept
                            == screen && written == lines && may_decode_to(data, Ok(picture))
                            && forall|text: Seq<char>| !#[trigger] may_decode_to(data, Err(text)),
                        StageView::Finished { outcome } => outcome is Err && outcome->Err_0 is Other
                            && may_decode_to(data, Err(outcome->Err_0->Other_0)) && forall|
                            picture: Raster,
                        |
                            !#[trigger] may_decode_to(data, Ok(picture)),
                        _ => false,
                    }
                },
            }
        }),
{
}

/// Once a file was decoded elsewhere, its picture is measured with the lines that were written; an
/// empty picture and an error end the job, each with its own error.
pub proof fn law_what_follows_the_decoding(
    screen: Screen,
    lines: Seq<Seq<char>>,
    data: Seq<u8>,
    outcome: Result<Raster, PictureErrorView>,
    info: InfoView,
    options: OptionsView,
    next: StageView,
)
    ensures
        may_follow(
            StageView::Decode { screen, lines, data },
            info,
            options,
            EventView::Decoded(outcome),
            next,
        ) <==> match outcome {
            Ok(picture) => next == (StageView::Measure { screen, lines, picture }),
            Err(PictureErrorView::Empty) => next == (StageView::Finished {
                outcome: Err(ErrorView::EmptyWallpaper),
            }),
            Err(PictureErrorView::Undecodable(text)) => next == (StageView::Finished {
                outcome: Err(ErrorView::Other(text)),
            }),
        },
        may_follow(
            StageView::Decode { screen, lines, data },
            info,
            options,
            EventView::Decoded(outcome),
            next,
        ) <==> next == once_decoded(screen, lines, outcome),
{
}

/// Once the picture was measured, it fills the screen and the lines go on top of it: the picture
/// that was decoded, scaled here to the size that was measured, or the one that was scaled
/// elsewhere.
pub proof fn law_what_follows_the_measuring(
    screen: Screen,
    lines: Seq<Seq<char>>,
    picture: Raster,
    measures: MeasuresView,
    canvas: CanvasView,
    info: InfoView,
    options: OptionsView,
    next: StageView,
)
    ensures
        ({
            let measuring = StageView::Measure { screen, lines, picture };
            let drawing = |shown: CanvasView|
                StageView::DrawTexts {
                    canvas: filled(shown, screen.width, screen.height),
                    draws: draws_of(lines, measures),
                };
            &&& may_follow(measuring, info, options, EventView::Measured(measures), next) <==> next
                == drawing(scaled(picture, measures.fill_width, measures.fill_height))
            &&& may_follow(
                measuring,
                info,
                options,
                EventView::Scaled { measures, picture: canvas },
                next,
            ) <==> next == drawing(canvas)
            &&& once_scaled(screen, lines, measures, canvas) == drawing(canvas)
        }),
{
}

/// An encoded file is what is written next, and a failure to encode ends the job with what was said
/// of it.
pub proof fn law_what_follows_the_encoding(file: Seq<u8>, text: Seq<char>)
    ensures
        once_created(Ok(file)) == (StageView::WriteOutput { file }),
        once_created(Err(text)) == (StageView::Finished { outcome: Err(ErrorView::Other(text)) }),
{
}

/// Each stage takes every outcome of what it asks for, and nothing else; a finished job takes
/// nothing.
pub proof fn law_stages_take_every_outcome(
    screen: Screen,
    lines: Seq<Seq<char>>,
    data: Seq<u8>,
    canvas: CanvasView,
    outcome: Result<(), ErrorView>,
    event: EventView,
)
    ensures
        StageView::MeasureScreen.awaits(event) <==> event is Screen,
        (StageView::FindOutputDirectory { screen }).awaits(event) <==> event is Exists,
        (StageView::MakeOutputDirectory { screen }).awaits(event) <==> event is Done,
        (StageView::FindWallpaper { screen }).awaits(event) <==> event is Exists,
        (StageView::BackUp { screen }).awaits(event) <==> event is Done,
        (StageView::ReadWallpaper { screen }).awaits(event) <==> event is Read,
        (StageView::Decode { screen, lines, data }).awaits(event) <==> event is Decoded,
        (StageView::CreateOutput { canvas }).awaits(event) <==> event is Done,
        (StageView::WriteOutput { file: data }).awaits(event) <==> event is Done,
        StageView::SetWallpaper.awaits(event) <==> event is Done,
        !(StageView::Finished { outcome }).awaits(event),
{
}

/// A picture is measured where a canvas of the size of the screen can be allocated and the lines
/// can be drawn. It is scaled elsewhere exactly where it cannot be here, and then to the size that
/// was measured. A drawn canvas must have the size of the one that was to be drawn on.
pub proof fn law_measuring_and_drawing_keep_sizes(
    screen: Screen,
    lines: Seq<Seq<char>>,
    picture: Raster,
    measures: MeasuresView,
    canvas: CanvasView,
    drawn: CanvasView,
    draws: Seq<DrawView>,
)
    ensures
        ({
            let measuring = StageView::Measure { screen, lines, picture };
            let fits = 4 * (screen.width * screen.height) <= isize::MAX && 4 * screen.width
                <= usize::MAX && measures.drawable(lines.len());
            let here = can_resize(picture, measures.fill_width, measures.fill_height);
            &&& measuring.awaits(EventView::Measured(measures)) <==> fits && here
            &&& measuring.awaits(EventView::Scaled { measures, picture: canvas }) <==> fits && !here
                && canvas.width == measures.fill_width && canvas.height == measures.fill_height
            &&& (StageView::DrawTexts { canvas, draws }).awaits(EventView::Drawn(drawn))
                <==> drawn.width == canvas.width && drawn.height == canvas.height
        }),
{
}

} // verus!
