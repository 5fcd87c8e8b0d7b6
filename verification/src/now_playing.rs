//! The panel of the track that plays: the cover, the tags, and how much
//! room they take.

use vstd::prelude::*;
use image::DynamicImage;
use crate::layout::Rect;
use crate::meta::TrackMeta;
use crate::text::{nat_text, push_char, push_nat};
use crate::transport::order::{list_place, track_names};

verus! {

/// Rows of the cover in terminal cells.
pub const ART_ROWS: u16 = 16;

/// Columns of the cover in terminal cells: two for every row, so that it looks square.
pub const ART_COLS: u16 = 32;

/// A pixel by its red, green and blue parts.
pub type Pixel = (u8, u8, u8);

/// A terminal cell of the cover: an upper half block, whose colour is the
/// upper pixel, on a ground of the colour of the lower pixel.
#[derive(Clone, Copy, PartialEq, Eq, Debug)]
pub struct ArtCell {
    pub top: Pixel,
    pub bottom: Pixel,
}

/// The cover of an album as the panel shows it.
pub struct AlbumArtWidget<'a> {
    pixels: &'a Vec<Vec<Pixel>>,
}

/// True if every row of pixels is as long as the first.
pub open spec fn is_grid(pixels: Seq<Vec<Pixel>>) -> bool {
    forall|r: int| 0 <= r < pixels.len() ==> (#[trigger] pixels[r])@.len() == pixels[0]@.len()
}

impl<'a> AlbumArtWidget<'a> {
    /// The rows of pixels that the widget shows.
    pub closed spec fn spec_pixels(&self) -> Seq<Vec<Pixel>> {
        self.pixels@
    }

    /// Rows of terminal cells that the pixels fill: two rows of pixels to a cell.
    pub open spec fn art_rows(&self) -> int {
        self.spec_pixels().len() as int / 2
    }

    /// Columns that the pixels fill.
    pub open spec fn art_cols(&self) -> int {
        if self.spec_pixels().len() > 0 {
            self.spec_pixels()[0]@.len() as int
        } else {
            0
        }
    }

    /// A widget that shows rows of pixels, two rows to a row of cells.
    pub fn new(pixels: &'a Vec<Vec<Pixel>>) -> (w: Self)
        ensures
            w.spec_pixels() == pixels@,
    {
        AlbumArtWidget { pixels }
    }

    /// The number of columns and rows that are drawn in an area: as much of the cover as fits.
    pub fn size(&self, width: u16, height: u16) -> (r: (u16, u16))
        ensures
            r.0 == (if (width as int) < self.art_cols() {
                width as int
            } else {
                self.art_cols()
            }),
            r.1 == (if (height as int) < self.art_rows() {
                height as int
            } else {
                self.art_rows()
            }),
    {
        let art_rows = self.pixels.len() / 2;
        let art_cols = if self.pixels.len() > 0 {
            self.pixels[0].len()
        } else {
            0
        };
        let cols = if (width as usize) < art_cols {
            width
        } else {
            art_cols as u16
        };
        let rows = if (height as usize) < art_rows {
            height
        } else {
            art_rows as u16
        };
        (cols, rows)
    }

    /// The cell in column `cx` and row `cy`: the pixel of row `2 * cy`
    /// above the pixel of the row below it.
    pub fn cell(&self, cx: u16, cy: u16) -> (c: ArtCell)
        requires
            is_grid(self.spec_pixels()),
            cx < self.art_cols(),
            cy < self.art_rows(),
        ensures
            c.top == self.spec_pixels()[2 * cy]@[cx as int],
            c.bottom == self.spec_pixels()[2 * cy + 1]@[cx as int],
    {
        let top_y = cy as usize * 2;
        let top = self.pixels[top_y][cx as usize];
        let bottom = self.pixels[top_y + 1][cx as usize];
        ArtCell { top, bottom }
    }
}

/// The rows that the panel takes of the main area: none where the cover
/// has a column of its own, and else three, or four with tags.
pub fn now_playing_rows(has_art: bool, has_meta: bool) -> (rows: u16)
    ensures
        rows == (if has_art {
            0int
        } else if has_meta {
            4int
        } else {
            3int
        }),
{
    if has_art {
        0
    } else if has_meta {
        4
    } else {
        3
    }
}

/// Tells whether a track has one of the tags that the panel shows below its title.
pub fn has_meta(meta: &TrackMeta) -> (b: bool)
    ensures
        b == (meta.artist is Some || meta.album is Some || meta.date is Some || meta.genre
            is Some),
{
    meta.artist.is_some() || meta.album.is_some() || meta.date.is_some() || meta.genre.is_some()
}

/// What the panel says of playback.
pub fn status_label(paused: bool) -> (s: &'static str)
    ensures
        s@ == (if paused {
            "Paused"@
        } else {
            "Playing"@
        }),
{
    if paused {
        "Paused"
    } else {
        "Playing"
    }
}

/// The place of the current track in the list, counted from one, and the length of the list.
pub fn track_position(files: &Vec<String>, current: &String) -> (r: Option<(usize, usize)>)
    ensures
        r == (match list_place(track_names(files@), current@) {
            Some(i) => Some(((i + 1) as usize, files@.len() as usize)),
            None => None,
        }),
{
    let ghost names = track_names(files@);
    let mut i: usize = 0;
    while i < files.len()
        invariant
            i <= files@.len(),
            names == track_names(files@),
            forall|j: int| 0 <= j < i ==> names[j] != current@,
        decreases files@.len() - i,
    {
        if files[i] == *current {
            assert(crate::transport::order::is_list_place(names, current@, i as int));
            return Some((i + 1, files.len()));
        }
        i += 1;
    }
    None
}

/// The place of a track as the panel shows it: two blanks, the place, a slash, and the count.
pub fn position_label(place: usize, count: usize) -> (s: String)
    ensures
        s@ == seq![' ', ' '] + nat_text(place as nat) + seq!['/'] + nat_text(count as nat),
{
    let mut s = String::new();
    push_char(&mut s, ' ');
    push_char(&mut s, ' ');
    push_nat(&mut s, place as u64);
    push_char(&mut s, '/');
    push_nat(&mut s, count as u64);
    proof {
        assert(s@ =~= seq![' ', ' '] + nat_text(place as nat) + seq!['/'] + nat_text(count as nat));
    }
    s
}

/// The box of the cover within the panel: below the status, the title
/// and an empty row, and as much of the cover as fits.
pub fn art_rect(inner: Rect) -> (r: Rect)
    requires
        inner.y <= u16::MAX - 3,
    ensures
        r.x == inner.x,
        r.y == inner.y + 3,
        r.width == (if inner.width < ART_COLS {
            inner.width
        } else {
            ART_COLS
        }),
        r.height == (if inner.height < 3 {
            0int
        } else if inner.height - 3 < ART_ROWS {
            inner.height - 3
        } else {
            ART_ROWS as int
        }),
{
    let room = if inner.height >= 3 {
        inner.height - 3
    } else {
        0
    };
    Rect {
        x: inner.x,
        y: inner.y + 3,
        width: if inner.width < ART_COLS {
            inner.width
        } else {
            ART_COLS
        },
        height: if room < ART_ROWS {
            room
        } else {
            ART_ROWS
        },
    }
}

/// The box of the tags below the cover, if the panel is high enough for
/// them and they are still on the screen.
pub fn tags_rect(inner: Rect) -> (r: Option<Rect>)
    ensures
        r == (if inner.y + 3 + ART_ROWS + 1 < inner.y + inner.height && inner.y + 3 + ART_ROWS + 1
            <= u16::MAX {
            Some(
                Rect {
                    x: inner.x,
                    y: (inner.y + 3 + ART_ROWS + 1) as u16,
                    width: inner.width,
                    height: (inner.height - (3 + ART_ROWS + 1)) as u16,
                },
            )
        } else {
            None
        }),
{
    let tags_y: u32 = inner.y as u32 + 3 + ART_ROWS as u32 + 1;
    let bottom: u32 = inner.y as u32 + inner.height as u32;
    if tags_y < bottom && tags_y <= 0xFFFF {
        Some(
            Rect {
                x: inner.x,
                y: tags_y as u16,
                width: inner.width,
                height: (bottom - tags_y) as u16,
            },
        )
    } else {
        None
    }
}

/// A decoded picture, as the image crate holds it.
#[verifier::external_type_specification]
#[verifier::external_body]
pub struct ExDynamicImage(image::DynamicImage);

/// True if `image::load_from_memory` reads a picture from these bytes:
/// they begin as one of the formats that the crate is built with, and
/// that format's decoder accepts them.
pub uninterp spec fn decodes_as_picture(bytes: Seq<u8>) -> bool;

/// Calls `image::load_from_memory`; `None` stands for an error. Trusted:
/// whether there is a picture depends on the bytes alone. That leaves
/// out a program that registers format hooks with the image crate,
/// which neither this library nor the player does.
#[verifier::external_body]
fn load_image(bytes: &Vec<u8>) -> (r: Option<DynamicImage>)
    ensures
        r is Some <==> decodes_as_picture(bytes@),
{
    image::load_from_memory(bytes).ok()
}

/// Calls `DynamicImage::resize_exact` with the Lanczos filter, and takes
/// the bytes of the result as RGB. Trusted: the result has three bytes
/// for every pixel of the size that was asked for, and none for a size
/// without pixels. The limits are those of the machine: up to them the
/// lengths of the resampler's buffers stay within 64 bits, whatever the
/// size of the picture. They admit every panel of cells.
#[verifier::external_body]
fn resized_rgb(picture: &DynamicImage, width: u32, height: u32) -> (rgb: Vec<u8>)
    requires
        width <= 0xFFFF,
        height <= 0x1_FFFE,
    ensures
        rgb@.len() == width * height * 3,
{
    picture.resize_exact(width, height, image::imageops::FilterType::Lanczos3).to_rgb8().into_raw()
}

proof fn lemma_pixel_index(x: int, y: int, width: int, height: int)
    by (nonlinear_arith)
    requires
        0 <= x < width,
        0 <= y < height,
    ensures
        0 <= y * width <= y * width + x,
        0 <= 3 * (y * width + x),
        3 * (y * width + x) + 2 < width * height * 3,
        y * width + x < width * height,
{
}

/// True if `rows` holds the picture that `rgb` holds as bytes: `height`
/// rows of `width` pixels, each with the three bytes of its place.
pub open spec fn is_picture(rows: Seq<Vec<Pixel>>, rgb: Seq<u8>, width: int, height: int) -> bool {
    &&& rows.len() == height
    &&& forall|y: int| 0 <= y < height ==> (#[trigger] rows[y])@.len() == width
    &&& forall|x: int, y: int|
        0 <= x < width && 0 <= y < height ==> #[trigger] rows[y]@[x] == (
            rgb[3 * (y * width + x)],
            rgb[3 * (y * width + x) + 1],
            rgb[3 * (y * width + x) + 2],
        )
}

/// The rows of pixels of a picture that is given as bytes, three to a pixel, row by row.
pub fn pixel_rows(rgb: &Vec<u8>, width: u32, height: u32) -> (rows: Vec<Vec<Pixel>>)
    requires
        rgb@.len() == width * height * 3,
    ensures
        is_picture(rows@, rgb@, width as int, height as int),
{
    let mut rows: Vec<Vec<Pixel>> = Vec::new();
    let n = rgb.len();
    let mut y: u32 = 0;
    while y < height
        invariant
            y <= height,
            n == rgb@.len(),
            rgb@.len() == width * height * 3,
            is_picture(rows@, rgb@, width as int, y as int),
        decreases height - y,
    {
        let mut row: Vec<Pixel> = Vec::new();
        let mut x: u32 = 0;
        while x < width
            invariant
                x <= width,
                y < height,
                n == rgb@.len(),
                rgb@.len() == width * height * 3,
                row@.len() == x,
                forall|k: int|
                    0 <= k < x ==> #[trigger] row@[k] == (
                        rgb@[3 * (y * width + k)],
                        rgb@[3 * (y * width + k) + 1],
                        rgb@[3 * (y * width + k) + 2],
                    ),
            decreases width - x,
        {
            proof {
                lemma_pixel_index(x as int, y as int, width as int, height as int);
            }
            let i: usize = 3 * (y as usize * width as usize + x as usize);
            row.push((rgb[i], rgb[i + 1], rgb[i + 2]));
            x += 1;
        }
        rows.push(row);
        y += 1;
    }
    rows
}

/// The cover of an album for a panel of `cols` by `rows` cells, made
/// from the bytes of a picture file: two rows of pixels for every row of
/// cells. There is a cover exactly if the bytes are a picture, whatever
/// the size of the panel; it is a grid of `2 * rows` rows of `cols`
/// pixels, which is empty for a panel without cells.
pub fn album_art(bytes: &Vec<u8>, cols: u16, rows: u16) -> (art: Option<Vec<Vec<Pixel>>>)
    ensures
        art is Some <==> decodes_as_picture(bytes@),
        art matches Some(pixels) ==> {
            &&& pixels@.len() == 2 * rows
            &&& forall|y: int| 0 <= y < 2 * rows ==> (#[trigger] pixels@[y])@.len() == cols
            &&& is_grid(pixels@)
        },
{
    let picture = match load_image(bytes) {
        Some(p) => p,
        None => {
            return None;
        },
    };
    let width = cols as u32;
    let height = rows as u32 * 2;
    let rgb = resized_rgb(&picture, width, height);
    Some(pixel_rows(&rgb, width, height))
}

} // verus!
