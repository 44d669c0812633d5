//! Drawing: background, heat overlay, grid lines and point markers.
//!
//! Each function states, for every pixel of the canvas, what it holds
//! afterwards in terms of what it held before.

use vstd::prelude::*;
use crate::canvas::{Canvas, Color};
use crate::error::{size_mismatch, size_mismatch_text, Error};
use crate::heat::{
    build_heatmap, heat_grid_of, intensity, intensity_of, is_peak, lemma_cell_in_range, peak_of,
    HeatGrid, PixelPoint,
};

verus! {

/// Width of the rendered frame in pixels.
pub const CANVAS_WIDTH: u32 = 1920;

/// Height of the rendered frame in pixels.
pub const CANVAS_HEIGHT: u32 = 1080;

/// Edge length of a heat cell in the rendered frame.
pub const CELL_SIZE: u32 = 30;

/// The colour of grid lines: opaque green.
pub open spec fn grid_line_color() -> Color {
    (0u8, 255u8, 0u8, 255u8)
}

/// The colour of point markers: opaque red.
pub open spec fn marker_color() -> Color {
    (255u8, 0u8, 0u8, 255u8)
}

/// The ramp: red grows and blue falls with the intensity; alpha is 128.
pub open spec fn heat_color_of(level: int) -> Color {
    (level as u8, 0u8, (255 - level) as u8, 128u8)
}

/// The even mix of two colours, channel by channel, made opaque.
pub open spec fn blended(existing: Color, heat: Color) -> Color {
    (
        ((existing.0 + heat.0) / 2) as u8,
        ((existing.1 + heat.1) / 2) as u8,
        ((existing.2 + heat.2) / 2) as u8,
        255u8,
    )
}

/// What the pixel at `(x, y)` holds after the heat overlay: mixed with the
/// heat colour of its cell where the cell has points, untouched elsewhere.
pub open spec fn heated(existing: Color, cells: Seq<Seq<nat>>, cell: int, x: int, y: int) -> Color {
    let count = cells[x / cell][y / cell];
    if count > 0 {
        blended(existing, heat_color_of(intensity_of(count, peak_of(cells))))
    } else {
        existing
    }
}

/// Whether `(x, y)` lies on a grid line: in a column or a row whose index is
/// a multiple of the cell size.
pub open spec fn on_grid_line(cell: int, x: int, y: int) -> bool {
    x % cell == 0 || y % cell == 0
}

/// What the pixel at `(x, y)` holds after the grid lines are drawn.
pub open spec fn lined(existing: Color, cell: int, x: int, y: int) -> Color {
    if on_grid_line(cell, x, y) {
        grid_line_color()
    } else {
        existing
    }
}

/// Whether one of the first `k` points lies exactly on pixel `(x, y)`.
pub open spec fn marked_by(points: Seq<PixelPoint>, k: int, x: int, y: int) -> bool {
    exists|i: int| 0 <= i < k && (#[trigger] points[i]).0 == x && points[i].1 == y
}

/// Whether one of `points` lies exactly on pixel `(x, y)`.
pub open spec fn marked(points: Seq<PixelPoint>, x: int, y: int) -> bool {
    marked_by(points, points.len() as int, x, y)
}

/// What the pixel at `(x, y)` holds after the markers are drawn.
pub open spec fn marked_pixel(existing: Color, points: Seq<PixelPoint>, x: int, y: int) -> Color {
    if marked(points, x, y) {
        marker_color()
    } else {
        existing
    }
}

/// The heat colour for an intensity.
pub fn heat_color(level: u8) -> (color: Color)
    ensures
        color == heat_color_of(level as int),
{
    (level, 0, 255 - level, 128)
}

/// Mixes a heat colour into an existing pixel: the mean of each colour
/// channel, rounded down, with full opacity.
pub fn blend_pixel(existing: Color, heat: Color) -> (mixed: Color)
    ensures
        mixed == blended(existing, heat),
{
    (
        ((existing.0 as u16 + heat.0 as u16) / 2) as u8,
        ((existing.1 as u16 + heat.1 as u16) / 2) as u8,
        ((existing.2 as u16 + heat.2 as u16) / 2) as u8,
        255,
    )
}

/// Overwrites every pixel of the canvas with `color`.
pub fn bg(color: Color, img: &mut Canvas)
    ensures
        final(img).same_size(*old(img)),
        forall|x: int, y: int|
            old(img).contains(x, y) ==> #[trigger] final(img).spec_pixel(x, y) == color,
{
    let width: u32 = img.width();
    let height: u32 = img.height();
    let mut y: u32 = 0;
    while y < height
        invariant
            img.same_size(*old(img)),
            width == img.spec_width(),
            height == img.spec_height(),
            y <= height,
            forall|px: int, py: int|
                0 <= px < width && 0 <= py < y ==> #[trigger] img.spec_pixel(px, py) == color,
        decreases height - y,
    {
        let mut x: u32 = 0;
        while x < width
            invariant
                img.same_size(*old(img)),
                width == img.spec_width(),
                height == img.spec_height(),
                y < height,
                x <= width,
                forall|px: int, py: int|
                    0 <= px < width && (0 <= py < y || (py == y && px < x))
                        ==> #[trigger] img.spec_pixel(px, py) == color,
            decreases width - x,
        {
            img.put_pixel(x, y, color);
            x = x + 1;
        }
        y = y + 1;
    }
}

/// Draws the grid lines: every pixel whose column or row index is a multiple
/// of `cell_size` becomes green, all others keep their colour. A zero cell
/// size is a configuration error and leaves the canvas as it was.
pub fn grid(img: &mut Canvas, cell_size: u32) -> (res: Result<(), Error>)
    ensures
        final(img).same_size(*old(img)),
        res.is_err() <==> cell_size == 0,
        res.is_err() ==> res.unwrap_err() is ConfigurationError && *final(img) == *old(img),
        res.is_ok() ==> forall|x: int, y: int|
            old(img).contains(x, y) ==> #[trigger] final(img).spec_pixel(x, y) == lined(
                old(img).spec_pixel(x, y),
                cell_size as int,
                x,
                y,
            ),
{
    if cell_size == 0 {
        return Err(Error::ConfigurationError);
    }
    let width: u32 = img.width();
    let height: u32 = img.height();
    let ghost c = cell_size as int;
    let mut y: u32 = 0;
    while y < height
        invariant
            img.same_size(*old(img)),
            width == img.spec_width(),
            height == img.spec_height(),
            y <= height,
            c == cell_size,
            c > 0,
            forall|px: int, py: int|
                0 <= px < width && 0 <= py < height ==> #[trigger] img.spec_pixel(px, py) == if py
                    < y {
                    lined(old(img).spec_pixel(px, py), c, px, py)
                } else {
                    old(img).spec_pixel(px, py)
                },
        decreases height - y,
    {
        let mut x: u32 = 0;
        while x < width
            invariant
                img.same_size(*old(img)),
                width == img.spec_width(),
                height == img.spec_height(),
                y < height,
                x <= width,
                c == cell_size,
                c > 0,
                forall|px: int, py: int|
                    0 <= px < width && 0 <= py < height ==> #[trigger] img.spec_pixel(px, py)
                        == if py < y || (py == y && px < x) {
                        lined(old(img).spec_pixel(px, py), c, px, py)
                    } else {
                        old(img).spec_pixel(px, py)
                    },
            decreases width - x,
        {
            if x % cell_size == 0 || y % cell_size == 0 {
                img.put_pixel(x, y, (0, 255, 0, 255));
            }
            x = x + 1;
        }
        y = y + 1;
    }
    Ok(())
}

/// Blends the heat colours of `heat` into the canvas: each pixel of a cell
/// that holds points is mixed with the cell's heat colour, pixels of empty
/// cells are left untouched. A grid made for another canvas size is a
/// configuration error and leaves the canvas as it was.
pub fn blend(img: &mut Canvas, heat: &HeatGrid) -> (res: Result<(), Error>)
    requires
        heat.wf(),
    ensures
        final(img).same_size(*old(img)),
        res.is_err() <==> !(heat.width == old(img).spec_width() && heat.height == old(
            img,
        ).spec_height()),
        res.is_err() ==> res.unwrap_err() is ConfigurationError && *final(img) == *old(img),
        res.is_ok() ==> forall|x: int, y: int|
            old(img).contains(x, y) ==> #[trigger] final(img).spec_pixel(x, y) == heated(
                old(img).spec_pixel(x, y),
                heat.cells(),
                heat.cell_size as int,
                x,
                y,
            ),
{
    let width: u32 = img.width();
    let height: u32 = img.height();
    if heat.width != width || heat.height != height {
        return Err(Error::ConfigurationError);
    }
    let peak: u64 = heat.max_count();
    let cell_size: u32 = heat.cell_size;
    let ghost c = cell_size as int;
    let ghost cells = heat.cells();
    let mut y: u32 = 0;
    while y < height
        invariant
            img.same_size(*old(img)),
            width == img.spec_width(),
            height == img.spec_height(),
            heat.wf(),
            heat.width == width,
            heat.height == height,
            heat.cell_size == cell_size,
            cells == heat.cells(),
            c == cell_size,
            is_peak(cells, peak as nat),
            peak == peak_of(cells),
            y <= height,
            forall|px: int, py: int|
                0 <= px < width && 0 <= py < height ==> #[trigger] img.spec_pixel(px, py) == if py
                    < y {
                    heated(old(img).spec_pixel(px, py), cells, c, px, py)
                } else {
                    old(img).spec_pixel(px, py)
                },
        decreases height - y,
    {
        let mut x: u32 = 0;
        while x < width
            invariant
                img.same_size(*old(img)),
                width == img.spec_width(),
                height == img.spec_height(),
                heat.wf(),
                heat.width == width,
                heat.height == height,
                heat.cell_size == cell_size,
                cells == heat.cells(),
                c == cell_size,
                is_peak(cells, peak as nat),
                peak == peak_of(cells),
                y < height,
                x <= width,
                forall|px: int, py: int|
                    0 <= px < width && 0 <= py < height ==> #[trigger] img.spec_pixel(px, py)
                        == if py < y || (py == y && px < x) {
                        heated(old(img).spec_pixel(px, py), cells, c, px, py)
                    } else {
                        old(img).spec_pixel(px, py)
                    },
            decreases width - x,
        {
            let gx: u32 = x / cell_size;
            let gy: u32 = y / cell_size;
            proof {
                lemma_cell_in_range(x as int, width as int, c);
                lemma_cell_in_range(y as int, height as int, c);
                assert(heat.counts@[gx as int]@.len() == heat.rows());
            }
            let count: u64 = heat.counts[gx as usize][gy as usize];
            proof {
                assert(cells[gx as int][gy as int] == count as nat);
                assert(cells[gx as int][gy as int] <= peak as nat);
            }
            if count > 0 {
                let level: u8 = intensity(count, peak);
                let existing: Color = img.get_pixel(x, y);
                img.put_pixel(x, y, blend_pixel(existing, heat_color(level)));
            }
            x = x + 1;
        }
        y = y + 1;
    }
    Ok(())
}


/// Copies `background` onto the canvas, pixel for pixel. A background of
/// another size is an error and leaves the canvas as it was: it is never
/// scaled or cropped.
pub fn img_bg(img: &mut Canvas, background: &Canvas) -> (res: Result<(), Error>)
    ensures
        final(img).same_size(*old(img)),
        res.is_ok() <==> background.same_size(*old(img)),
        res.is_ok() ==> forall|x: int, y: int|
            old(img).contains(x, y) ==> #[trigger] final(img).spec_pixel(x, y)
                == background.spec_pixel(x, y),
        res.is_err() ==> *final(img) == *old(img),
        res.is_err() ==> (res.unwrap_err() matches Error::ImageSizeError(text) && text@
            == size_mismatch_text(
            (old(img).spec_width() as u32, old(img).spec_height() as u32),
            (background.spec_width() as u32, background.spec_height() as u32),
        )),
{
    let width: u32 = img.width();
    let height: u32 = img.height();
    if background.width() != width || background.height() != height {
        return Err(size_mismatch((width, height), (background.width(), background.height())));
    }
    let mut y: u32 = 0;
    while y < height
        invariant
            img.same_size(*old(img)),
            background.same_size(*img),
            width == img.spec_width(),
            height == img.spec_height(),
            y <= height,
            forall|px: int, py: int|
                0 <= px < width && 0 <= py < y ==> #[trigger] img.spec_pixel(px, py)
                    == background.spec_pixel(px, py),
        decreases height - y,
    {
        let mut x: u32 = 0;
        while x < width
            invariant
                img.same_size(*old(img)),
                background.same_size(*img),
                width == img.spec_width(),
                height == img.spec_height(),
                y < height,
                x <= width,
                forall|px: int, py: int|
                    0 <= px < width && (0 <= py < y || (py == y && px < x))
                        ==> #[trigger] img.spec_pixel(px, py) == background.spec_pixel(px, py),
            decreases width - x,
        {
            let color: Color = background.get_pixel(x, y);
            img.put_pixel(x, y, color);
            x = x + 1;
        }
        y = y + 1;
    }
    Ok(())
}

/// Buckets `points` over the canvas, blends the heat colours in, then draws
/// the grid lines over them. Points off the canvas are ignored. A zero-sized
/// canvas or a zero cell size is a configuration error and leaves the canvas
/// as it was.
pub fn grid_with_heatmap(img: &mut Canvas, cell_size: u32, points: &Vec<PixelPoint>) -> (res:
    Result<(), Error>)
    ensures
        final(img).same_size(*old(img)),
        res.is_err() <==> (old(img).spec_width() == 0 || old(img).spec_height() == 0 || cell_size
            == 0),
        res.is_err() ==> res.unwrap_err() is ConfigurationError && *final(img) == *old(img),
        res.is_ok() ==> forall|x: int, y: int|
            old(img).contains(x, y) ==> #[trigger] final(img).spec_pixel(x, y) == lined(
                heated(
                    old(img).spec_pixel(x, y),
                    heat_grid_of(
                        points@,
                        old(img).spec_width(),
                        old(img).spec_height(),
                        cell_size as int,
                    ),
                    cell_size as int,
                    x,
                    y,
                ),
                cell_size as int,
                x,
                y,
            ),
{
    let width: u32 = img.width();
    let height: u32 = img.height();
    let heat = match build_heatmap(points, width, height, cell_size) {
        Ok(heat) => heat,
        Err(e) => {
            return Err(e);
        },
    };
    match blend(img, &heat) {
        Ok(()) => {},
        Err(e) => {
            return Err(e);
        },
    }
    grid(img, cell_size)
}

/// Marks every point that lies on the canvas with one red pixel; points off
/// the canvas are ignored. Always succeeds.
pub fn draw_points(img: &mut Canvas, points: &Vec<PixelPoint>) -> (res: Result<(), Error>)
    ensures
        res.is_ok(),
        final(img).same_size(*old(img)),
        forall|x: int, y: int|
            old(img).contains(x, y) ==> #[trigger] final(img).spec_pixel(x, y) == marked_pixel(
                old(img).spec_pixel(x, y),
                points@,
                x,
                y,
            ),
{
    let width: u32 = img.width();
    let height: u32 = img.height();
    let mut k: usize = 0;
    while k < points.len()
        invariant
            img.same_size(*old(img)),
            width == img.spec_width(),
            height == img.spec_height(),
            k <= points@.len(),
            forall|px: int, py: int|
                0 <= px < width && 0 <= py < height ==> #[trigger] img.spec_pixel(px, py)
                    == if marked_by(points@, k as int, px, py) {
                    marker_color()
                } else {
                    old(img).spec_pixel(px, py)
                },
        decreases points@.len() - k,
    {
        let p: PixelPoint = points[k];
        let ghost before = *img;
        if 0 <= p.0 && p.0 < width as i64 && 0 <= p.1 && p.1 < height as i64 {
            img.put_pixel(p.0 as u32, p.1 as u32, (255, 0, 0, 255));
        }
        proof {
            assert forall|px: int, py: int| 0 <= px < width && 0 <= py < height implies (
            marked_by(points@, k + 1, px, py) <==> marked_by(points@, k as int, px, py) || (p.0
                == px && p.1 == py)) by {
                if p.0 == px && p.1 == py {
                    assert(points@[k as int].0 == px && points@[k as int].1 == py);
                }
            }
            assert forall|px: int, py: int|
                0 <= px < width && 0 <= py < height implies #[trigger] img.spec_pixel(px, py)
                == if marked_by(points@, k + 1, px, py) {
                marker_color()
            } else {
                old(img).spec_pixel(px, py)
            } by {
                assert(before.spec_pixel(px, py) == if marked_by(points@, k as int, px, py) {
                    marker_color()
                } else {
                    old(img).spec_pixel(px, py)
                });
            }
        }
        k = k + 1;
    }
    Ok(())
}

/// Whether `(x, y)` lies within `radius` of `center`, by Euclidean distance.
pub open spec fn in_disc(center: (u32, u32), radius: u32, x: int, y: int) -> bool {
    (x - center.0) * (x - center.0) + (y - center.1) * (y - center.1) <= radius * radius
}

/// The square of the distance between two coordinates.
fn squared_gap(a: u32, b: u32) -> (s: u64)
    ensures
        s == (a - b) * (a - b),
{
    let gap: u64 = if a >= b {
        (a - b) as u64
    } else {
        (b - a) as u64
    };
    assert(gap * gap == (a - b) * (a - b) && gap * gap <= 0xffff_ffff * 0xffff_ffff)
        by (nonlinear_arith)
        requires
            gap == a - b || gap == b - a,
            0 <= gap <= 0xffff_ffff,
    ;
    gap * gap
}

/// Draws a filled disc: every pixel of the canvas within `radius` of `center`
/// takes `color`, all others keep theirs. The centre may lie off the canvas.
pub fn circle(img: &mut Canvas, radius: u32, center: (u32, u32), color: Color)
    ensures
        final(img).same_size(*old(img)),
        forall|x: int, y: int|
            old(img).contains(x, y) ==> #[trigger] final(img).spec_pixel(x, y) == if in_disc(
                center,
                radius,
                x,
                y,
            ) {
                color
            } else {
                old(img).spec_pixel(x, y)
            },
{
    let width: u32 = img.width();
    let height: u32 = img.height();
    let reach: u64 = squared_gap(radius, 0);
    let mut y: u32 = 0;
    while y < height
        invariant
            img.same_size(*old(img)),
            width == img.spec_width(),
            height == img.spec_height(),
            reach == radius * radius,
            y <= height,
            forall|px: int, py: int|
                0 <= px < width && 0 <= py < height ==> #[trigger] img.spec_pixel(px, py) == if py
                    < y && in_disc(center, radius, px, py) {
                    color
                } else {
                    old(img).spec_pixel(px, py)
                },
        decreases height - y,
    {
        let dy: u64 = squared_gap(y, center.1);
        let mut x: u32 = 0;
        while x < width
            invariant
                img.same_size(*old(img)),
                width == img.spec_width(),
                height == img.spec_height(),
                reach == radius * radius,
                dy == (y - center.1) * (y - center.1),
                y < height,
                x <= width,
                forall|px: int, py: int|
                    0 <= px < width && 0 <= py < height ==> #[trigger] img.spec_pixel(px, py)
                        == if (py < y || (py == y && px < x)) && in_disc(center, radius, px, py) {
                        color
                    } else {
                        old(img).spec_pixel(px, py)
                    },
            decreases width - x,
        {
            let dx: u64 = squared_gap(x, center.0);
            if (dx as u128) + (dy as u128) <= reach as u128 {
                img.put_pixel(x, y, color);
            }
            x = x + 1;
        }
        y = y + 1;
    }
}

/// What the pixel at `(x, y)` of a rendered frame holds: a marker where a
/// point lies, else the grid line, else the background with the heat of its
/// cell mixed in.
pub open spec fn frame_pixel(background: Color, points: Seq<PixelPoint>, x: int, y: int) -> Color {
    marked_pixel(
        lined(
            heated(
                background,
                heat_grid_of(points, CANVAS_WIDTH as int, CANVAS_HEIGHT as int, CELL_SIZE as int),
                CELL_SIZE as int,
                x,
                y,
            ),
            CELL_SIZE as int,
            x,
            y,
        ),
        points,
        x,
        y,
    )
}

/// Renders one frame: the background, the heat overlay of `points`, the grid
/// lines and one marker per point, on a fresh canvas of the fixed frame size.
/// A background of any other size is an error and no frame is produced.
pub fn plot(background: &Canvas, points: &Vec<PixelPoint>) -> (res: Result<Canvas, Error>)
    ensures
        res.is_ok() <==> (background.spec_width() == CANVAS_WIDTH && background.spec_height()
            == CANVAS_HEIGHT),
        res.is_err() ==> (res.unwrap_err() matches Error::ImageSizeError(text) && text@
            == size_mismatch_text(
            (CANVAS_WIDTH, CANVAS_HEIGHT),
            (background.spec_width() as u32, background.spec_height() as u32),
        )),
        res.is_ok() ==> {
            let frame = res.unwrap();
            &&& frame.spec_width() == CANVAS_WIDTH
            &&& frame.spec_height() == CANVAS_HEIGHT
            &&& forall|x: int, y: int|
                frame.contains(x, y) ==> #[trigger] frame.spec_pixel(x, y) == frame_pixel(
                    background.spec_pixel(x, y),
                    points@,
                    x,
                    y,
                )
        },
{
    let mut img = match Canvas::new(CANVAS_WIDTH, CANVAS_HEIGHT) {
        Some(img) => img,
        None => {
            return Err(Error::ConfigurationError);
        },
    };
    match img_bg(&mut img, background) {
        Ok(()) => {},
        Err(e) => {
            return Err(e);
        },
    }
    match grid_with_heatmap(&mut img, CELL_SIZE, points) {
        Ok(()) => {},
        Err(e) => {
            return Err(e);
        },
    }
    match draw_points(&mut img, points) {
        Ok(()) => {},
        Err(e) => {
            return Err(e);
        },
    }
    Ok(img)
}

} // verus!
