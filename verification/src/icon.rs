//! The tray icon: a camera, drawn pixel by pixel.

use vstd::prelude::*;

verus! {

/// Edge of the square icon, in pixels.
pub const ICON_SIZE: usize = 48;

/// Distance, squared, of pixel `(x, y)` from the centre of the lens.
pub open spec fn lens_distance(x: int, y: int) -> int {
    (x - 24) * (x - 24) + (y - 29) * (y - 29)
}

/// Whether pixel `(x, y)` belongs to the camera's body or to the
/// viewfinder on top of it.
pub open spec fn on_camera(x: int, y: int) -> bool {
    (5 <= x <= 42 && 14 <= y <= 41) || (14 <= x <= 33 && 8 <= y <= 14)
}

/// Alpha, red, green and blue of pixel `(x, y)`: the lens with its
/// highlight and rings, the blue camera around it, nothing elsewhere.
pub open spec fn icon_pixel(x: int, y: int) -> (u8, u8, u8, u8) {
    let d = lens_distance(x, y);
    if d <= 4 {
        (255, 255, 255, 255)
    } else if d <= 16 {
        (255, 107, 181, 255)
    } else if d <= 49 {
        (255, 44, 90, 110)
    } else if d <= 81 {
        (255, 26, 61, 110)
    } else if on_camera(x, y) {
        (255, 74, 144, 217)
    } else {
        (0, 0, 0, 0)
    }
}

/// Byte `i` of the icon's data: four bytes per pixel, row by row.
pub open spec fn icon_byte(i: int) -> u8 {
    let pixel = icon_pixel((i / 4) % 48, (i / 4) / 48);
    let c = i % 4;
    if c == 0 {
        pixel.0
    } else if c == 1 {
        pixel.1
    } else if c == 2 {
        pixel.2
    } else {
        pixel.3
    }
}

fn pixel_at(x: usize, y: usize) -> (pixel: (u8, u8, u8, u8))
    requires
        x < ICON_SIZE,
        y < ICON_SIZE,
    ensures
        pixel == icon_pixel(x as int, y as int),
{
    let dx: i64 = x as i64 - 24;
    let dy: i64 = y as i64 - 29;
    assert(dx * dx + dy * dy == lens_distance(x as int, y as int) && 0 <= dx * dx <= 576 && 0
        <= dy * dy <= 841) by (nonlinear_arith)
        requires
            dx == x - 24,
            dy == y - 29,
            0 <= x < 48,
            0 <= y < 48,
    ;
    let d: i64 = dx * dx + dy * dy;
    let camera: bool = (5 <= x && x <= 42 && 14 <= y && y <= 41) || (14 <= x && x <= 33 && 8 <= y
        && y <= 14);
    if d <= 4 {
        (255, 255, 255, 255)
    } else if d <= 16 {
        (255, 107, 181, 255)
    } else if d <= 49 {
        (255, 44, 90, 110)
    } else if d <= 81 {
        (255, 26, 61, 110)
    } else if camera {
        (255, 74, 144, 217)
    } else {
        (0, 0, 0, 0)
    }
}

/// The icon's data: [`ICON_SIZE`] rows of as many pixels, each as alpha,
/// red, green, blue.
pub fn generate_icon() -> (data: Vec<u8>)
    ensures
        data@.len() == 4 * ICON_SIZE * ICON_SIZE,
        forall|i: int| 0 <= i < data@.len() ==> #[trigger] data@[i] == icon_byte(i),
{
    let mut data: Vec<u8> = Vec::new();
    let mut y: usize = 0;
    while y < ICON_SIZE
        invariant
            y <= ICON_SIZE,
            data@.len() == 4 * (48 * y),
            forall|i: int| 0 <= i < data@.len() ==> #[trigger] data@[i] == icon_byte(i),
        decreases ICON_SIZE - y,
    {
        let mut x: usize = 0;
        while x < ICON_SIZE
            invariant
                y < ICON_SIZE,
                x <= ICON_SIZE,
                data@.len() == 4 * (48 * y + x),
                forall|i: int| 0 <= i < data@.len() ==> #[trigger] data@[i] == icon_byte(i),
            decreases ICON_SIZE - x,
        {
            let ghost before = data@;
            let pixel = pixel_at(x, y);
            data.push(pixel.0);
            data.push(pixel.1);
            data.push(pixel.2);
            data.push(pixel.3);
            assert forall|i: int| 0 <= i < data@.len() implies #[trigger] data@[i] == icon_byte(
                i,
            ) by {
                if i >= before.len() {
                    assert(i / 4 == 48 * y + x);
                    assert((i / 4) % 48 == x && (i / 4) / 48 == y);
                } else {
                    assert(data@[i] == before[i]);
                }
            }
            x = x + 1;
        }
        y = y + 1;
    }
    data
}

} // verus!
