use vstd::prelude::*;

use crate::camera::{on_canvas, HEIGHT, WIDTH};
use crate::color::{from_u8_rgb, packed_rgb, Color};
use crate::render::{pixel_color, render_pixel, Scene};

verus! {

/// The index in a row-major `WIDTH x HEIGHT` buffer of canvas pixel
/// `(x, y)`, or `None` where the pixel falls outside the image.
pub open spec fn buffer_index(x: int, y: int) -> Option<int> {
    let bx = WIDTH as int / 2 + x;
    let by = HEIGHT as int / 2 - y - 1;
    if 0 <= bx < WIDTH as int && 0 <= by < HEIGHT as int {
        Some(by * WIDTH as int + bx)
    } else {
        None
    }
}

/// The display word of a colour.
pub open spec fn color_word(c: Color) -> u32 {
    packed_rgb(c.r, c.g, c.b) as u32
}

/// Writes `color` at canvas pixel `(x, y)` of the buffer; a pixel outside
/// the image leaves the buffer as it was.
pub fn put_pixel(x: i32, y: i32, color: Color, buffer: &mut Vec<u32>)
    requires
        old(buffer)@.len() == WIDTH * HEIGHT,
    ensures
        final(buffer)@ == match buffer_index(x as int, y as int) {
            None => old(buffer)@,
            Some(i) => old(buffer)@.update(i, color_word(color)),
        },
{
    let bx = (WIDTH / 2) as i64 + x as i64;
    let by = (HEIGHT / 2) as i64 - y as i64 - 1;
    if bx < 0 || bx >= WIDTH as i64 || by < 0 || by >= HEIGHT as i64 {
        return;
    }
    buffer.set(by as usize * WIDTH + bx as usize, from_u8_rgb(color.r, color.g, color.b));
}

/// The word shown at column `bx`, row `by` of the image (row 0 at the top).
pub open spec fn image_word(scene: &Scene, bx: int, by: int) -> u32 {
    color_word(pixel_color(scene, bx - WIDTH as int / 2, HEIGHT as int / 2 - 1 - by))
}

/// Renders the scene into a row-major `WIDTH x HEIGHT` buffer of display
/// words, the top row first.
pub fn render_image(scene: &Scene) -> (buffer: Vec<u32>)
    requires
        scene.wf(),
    ensures
        buffer@.len() == WIDTH * HEIGHT,
        forall|bx: int, by: int|
            0 <= bx < WIDTH && 0 <= by < HEIGHT ==> buffer@[by * WIDTH + bx] == #[trigger] image_word(
                scene,
                bx,
                by,
            ),
{
    let mut buffer: Vec<u32> = Vec::new();
    let mut by: usize = 0;
    while by < HEIGHT
        invariant
            scene.wf(),
            by <= HEIGHT,
            buffer@.len() == by * WIDTH,
            forall|bx: int, row: int|
                0 <= bx < WIDTH && 0 <= row < by ==> buffer@[row * WIDTH + bx]
                    == #[trigger] image_word(scene, bx, row),
        decreases HEIGHT - by,
    {
        let mut bx: usize = 0;
        while bx < WIDTH
            invariant
                scene.wf(),
                by < HEIGHT,
                bx <= WIDTH,
                buffer@.len() == by * WIDTH + bx,
                forall|col: int, row: int|
                    0 <= col < WIDTH && 0 <= row < by ==> buffer@[row * WIDTH + col]
                        == #[trigger] image_word(scene, col, row),
                forall|col: int|
                    0 <= col < bx ==> buffer@[by * WIDTH + col] == #[trigger] image_word(
                        scene,
                        col,
                        by as int,
                    ),
            decreases WIDTH - bx,
        {
            let px = bx as i64 - (WIDTH / 2) as i64;
            let py = (HEIGHT / 2) as i64 - 1 - by as i64;
            let c = render_pixel(scene, px, py);
            buffer.push(from_u8_rgb(c.r, c.g, c.b));
            bx = bx + 1;
        }
        by = by + 1;
    }
    buffer
}

} // verus!
