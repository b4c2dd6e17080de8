//! The picture of a framebuffer: one square of the window for each pixel
//! that is on.

use vstd::prelude::*;
use crate::machine::Chip8;

verus! {

/// Side of the square that shows one pixel, in window units.
pub const SCALE_FACTOR: u32 = 15;

/// Width of the window: 64 pixels of `SCALE_FACTOR` each.
pub const WINDOW_WIDTH: u32 = 960;

/// Height of the window: 32 pixels of `SCALE_FACTOR` each.
pub const WINDOW_HEIGHT: u32 = 480;

/// A rectangle of the window: its top left corner and its size.
#[derive(Clone, Copy, Debug, PartialEq, Eq, Structural)]
pub struct PixelRect {
    pub x: i32,
    pub y: i32,
    pub width: u32,
    pub height: u32,
}

/// The square of the window that shows the pixel at framebuffer index `i`.
pub open spec fn pixel_rect(i: int) -> PixelRect {
    PixelRect { x: ((i % 64) * 15) as i32, y: ((i / 64) * 15) as i32, width: 15, height: 15 }
}

/// The squares of the pixels that are on among the first `n`, in the order
/// of their indices.
pub open spec fn lit_rects(video: Seq<bool>, n: nat) -> Seq<PixelRect>
    decreases n,
{
    if n == 0 {
        Seq::empty()
    } else {
        let before: Seq<PixelRect> = lit_rects(video, (n - 1) as nat);
        if video[n - 1] {
            before.push(pixel_rect(n - 1))
        } else {
            before
        }
    }
}

/// The rectangles to fill, on a cleared window, to show the framebuffer of
/// `emu`: the square of each pixel that is on, in index order.
pub fn draw_screen(emu: &Chip8) -> (rects: Vec<PixelRect>)
    ensures
        rects@ == lit_rects(emu@.video, 2048),
{
    let screen: &[bool] = emu.get_display();
    let mut rects: Vec<PixelRect> = Vec::new();
    let mut i: usize = 0;
    while i < screen.len()
        invariant
            i <= 2048,
            screen@ == emu@.video,
            screen@.len() == 2048,
            rects@ == lit_rects(screen@, i as nat),
        decreases 2048 - i,
    {
        if screen[i] {
            let x: u32 = (i % 64) as u32;
            let y: u32 = (i / 64) as u32;
            rects.push(
                PixelRect {
                    x: (x * SCALE_FACTOR) as i32,
                    y: (y * SCALE_FACTOR) as i32,
                    width: SCALE_FACTOR,
                    height: SCALE_FACTOR,
                },
            );
        }
        i += 1;
    }
    rects
}

/// Two pixels have the same square only if they are the same pixel.
pub proof fn lemma_pixel_rect_injective(i: int, j: int)
    requires
        0 <= i < 2048,
        0 <= j < 2048,
        pixel_rect(i) == pixel_rect(j),
    ensures
        i == j,
{
    assert((i % 64) * 15 == (j % 64) * 15);
    assert((i / 64) * 15 == (j / 64) * 15);
}

/// What `lit_rects` holds: the square of pixel `i` is among the squares of
/// the first `n` pixels exactly when `i` is one of them and is on; and every
/// square lies inside the window.
pub proof fn law_lit_rects(video: Seq<bool>, n: nat)
    requires
        n <= 2048,
    ensures
        forall|i: int|
            0 <= i < 2048 ==> (lit_rects(video, n).contains(#[trigger] pixel_rect(i)) <==> (i < n
                && video[i])),
        forall|k: int|
            0 <= k < lit_rects(video, n).len() ==> {
                let r: PixelRect = #[trigger] lit_rects(video, n)[k];
                &&& 0 <= r.x
                &&& 0 <= r.y
                &&& r.x + r.width <= WINDOW_WIDTH
                &&& r.y + r.height <= WINDOW_HEIGHT
                &&& exists|i: int| 0 <= i < n && video[i] && r == pixel_rect(i)
            },
    decreases n,
{
    if n > 0 {
        let before: Seq<PixelRect> = lit_rects(video, (n - 1) as nat);
        let now: Seq<PixelRect> = lit_rects(video, n);
        law_lit_rects(video, (n - 1) as nat);
        assert forall|i: int| 0 <= i < 2048 implies (now.contains(#[trigger] pixel_rect(i)) <==> (i
            < n && video[i])) by {
            if video[n - 1] {
                if now.contains(pixel_rect(i)) {
                    let k: int = choose|k: int| 0 <= k < now.len() && now[k] == pixel_rect(i);
                    if k < before.len() {
                        assert(before[k] == pixel_rect(i));
                        assert(before.contains(pixel_rect(i)));
                    } else {
                        lemma_pixel_rect_injective(i, n - 1);
                    }
                }
                if i < n && video[i] {
                    if i == n - 1 {
                        assert(now[before.len() as int] == pixel_rect(i));
                    } else {
                        assert(before.contains(pixel_rect(i)));
                        let k: int = choose|k: int|
                            0 <= k < before.len() && before[k] == pixel_rect(i);
                        assert(now[k] == pixel_rect(i));
                    }
                }
            }
        }
        assert forall|k: int| 0 <= k < now.len() implies {
            let r: PixelRect = #[trigger] now[k];
            &&& 0 <= r.x
            &&& 0 <= r.y
            &&& r.x + r.width <= WINDOW_WIDTH
            &&& r.y + r.height <= WINDOW_HEIGHT
            &&& exists|i: int| 0 <= i < n && video[i] && r == pixel_rect(i)
        } by {
            if video[n - 1] && k == before.len() {
                assert(now[k] == pixel_rect(n - 1));
            } else {
                assert(now[k] == before[k]);
                let i: int = choose|i: int| 0 <= i < n - 1 && video[i] && before[k] == pixel_rect(i);
                assert(0 <= i < n && video[i] && now[k] == pixel_rect(i));
            }
        }
    }
}

} // verus!
