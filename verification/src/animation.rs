//! The eyelid animation: the order of its steps, where the two lids go on
//! screen, and the pixels that fill them.

use vstd::prelude::*;

verus! {

/// Milliseconds each animation frame stays on screen.
pub const FRAME_MS: u64 = 16;

/// Milliseconds the eyes stay fully closed between the two sweeps.
pub const HOLD_MS: u64 = 150;

/// Milliseconds to let freshly mapped X11 windows settle before the first frame.
pub const SETTLE_MS: u64 = 50;

/// One step of a blink.
#[derive(PartialEq, Eq, Structural, Debug, Clone, Copy)]
pub enum BlinkStep {
    /// Draw frame `frame` (of `0..=frames`) of the closing or the opening sweep,
    /// then wait `FRAME_MS`.
    Frame { closing: bool, frame: u32, frames: u32 },
    /// Keep the eyes closed for `HOLD_MS`.
    Hold,
    /// The blink is over.
    Done,
}

/// The step at position `k` of a blink with `frames` frames per sweep: the
/// closing frames `0..=frames`, the hold, the opening frames `0..=frames`, then
/// nothing more.
pub open spec fn schedule_step(frames: u32, k: nat) -> BlinkStep {
    if k <= frames {
        BlinkStep::Frame { closing: true, frame: k as u32, frames }
    } else if k == frames + 1 {
        BlinkStep::Hold
    } else if k <= 2 * frames + 2 {
        BlinkStep::Frame { closing: false, frame: (k - frames - 2) as u32, frames }
    } else {
        BlinkStep::Done
    }
}

/// The number of steps of a blink before it is done.
pub open spec fn schedule_len(frames: u32) -> nat {
    (2 * frames + 3) as nat
}

/// A blink in progress: which step comes next.
pub struct Blink {
    frames: u32,
    pos: u64,
}

impl Blink {
    /// Frames per sweep.
    pub closed spec fn frames(&self) -> u32 {
        self.frames
    }

    /// How many steps have been taken.
    pub closed spec fn position(&self) -> nat {
        self.pos as nat
    }

    /// The step position never goes past the end of the schedule.
    #[verifier::type_invariant]
    spec fn wf(&self) -> bool {
        self.pos <= schedule_len(self.frames)
    }

    /// A blink with `frames` frames per sweep, not yet started.
    pub fn new(frames: u32) -> (res: Blink)
        ensures
            res.frames() == frames,
            res.position() == 0,
    {
        Blink { frames, pos: 0 }
    }

    /// The next step of the blink; once the blink is done it stays done.
    pub fn next_step(&mut self) -> (step: BlinkStep)
        ensures
            step == schedule_step(old(self).frames(), old(self).position()),
            old(self).position() == old(self).frames() + 1 ==> step == BlinkStep::Hold,
            final(self).frames() == old(self).frames(),
            final(self).position() == if step is Done {
                old(self).position()
            } else {
                old(self).position() + 1
            },
    {
        proof {
            use_type_invariant(&*self);
        }
        let f = self.frames as u64;
        let k = self.pos;
        if k <= f {
            self.pos = k + 1;
            BlinkStep::Frame { closing: true, frame: k as u32, frames: self.frames }
        } else if k == f + 1 {
            self.pos = k + 1;
            BlinkStep::Hold
        } else if k <= 2 * f + 2 {
            self.pos = k + 1;
            BlinkStep::Frame { closing: false, frame: (k - f - 2) as u32, frames: self.frames }
        } else {
            BlinkStep::Done
        }
    }
}

/// A blink takes exactly `2 * frames + 3` steps: every position before that
/// is a frame or the hold, every position from there on is the end.
pub proof fn law_schedule_length(frames: u32, k: nat)
    ensures
        k < schedule_len(frames) ==> !(schedule_step(frames, k) is Done),
        k >= schedule_len(frames) ==> schedule_step(frames, k) is Done,
{
}

/// Every frame of the closing sweep comes before the hold, and the hold
/// before every frame of the opening sweep; each sweep shows its frames
/// `0..=frames` once each, in increasing order.
pub proof fn law_schedule_order(frames: u32, j: nat, k: nat)
    requires
        j < k < schedule_len(frames),
    ensures
        schedule_step(frames, k) matches BlinkStep::Frame { closing: true, .. } ==> (
        schedule_step(frames, j) matches BlinkStep::Frame { closing: true, .. }),
        schedule_step(frames, j) matches BlinkStep::Frame { closing: false, .. } ==> (
        schedule_step(frames, k) matches BlinkStep::Frame { closing: false, .. }),
        schedule_step(frames, j) is Frame && schedule_step(frames, k) is Frame && schedule_step(
            frames,
            j,
        )->closing == schedule_step(frames, k)->closing ==> schedule_step(frames, j)->frame
            < schedule_step(frames, k)->frame,
        forall|f: u32|
            f <= frames ==> schedule_step(frames, f as nat) == (BlinkStep::Frame {
                closing: true,
                frame: f,
                frames,
            }) && schedule_step(frames, (frames + 2 + f) as nat) == (BlinkStep::Frame {
                closing: false,
                frame: f,
                frames,
            }),
{
}

/// Exactly one step of a blink is the hold: the one right after the last
/// closing frame (frame `frames`) and right before the first opening frame
/// (frame 0). Every frame shown is one of `0..=frames`.
pub proof fn law_one_hold(frames: u32, k: nat)
    ensures
        schedule_step(frames, (frames + 1) as nat) == BlinkStep::Hold,
        schedule_step(frames, k) is Hold <==> k == frames + 1,
        schedule_step(frames, frames as nat) == (BlinkStep::Frame {
            closing: true,
            frame: frames,
            frames,
        }),
        schedule_step(frames, (frames + 2) as nat) == (BlinkStep::Frame {
            closing: false,
            frame: 0,
            frames,
        }),
        schedule_step(frames, k) is Frame ==> schedule_step(frames, k)->frame <= frames
            && schedule_step(frames, k)->frames == frames,
{
}

/// How thick a lid is drawn for a computed thickness `raw`: at least one pixel.
pub open spec fn spec_lid_thickness(raw: nat) -> nat {
    if raw < 1 {
        1
    } else {
        raw
    }
}

/// The thickness a lid is drawn with: `raw`, but at least one pixel.
pub fn lid_thickness(raw: u32) -> (res: u32)
    ensures
        res == spec_lid_thickness(raw as nat),
        raw >= 1 ==> res == raw,
        raw == 0 ==> res == 1,
{
    if raw < 1 {
        1
    } else {
        raw
    }
}

/// Where the two X11 lid windows go on a screen `screen_height` pixels high:
/// the top lid at row 0, the bottom lid ending at the bottom edge; both `height` high.
pub struct LidPlacement {
    pub height: u16,
    pub bottom_y: i32,
}

/// Places the lids for the computed thickness `raw`.
pub fn place_lids(screen_height: u16, raw: u16) -> (res: LidPlacement)
    requires
        1 <= screen_height,
        raw <= screen_height,
    ensures
        res.height == spec_lid_thickness(raw as nat),
        res.bottom_y == screen_height - res.height,
        raw >= 1 ==> res.height == raw,
        raw == 0 ==> res.height == 1,
{
    let height = lid_thickness(raw as u32) as u16;
    LidPlacement { height, bottom_y: (screen_height - height) as i32 }
}

/// A lid is exactly as thick as computed, but never thinner than one pixel.
pub proof fn law_lid_thickness(raw: nat)
    ensures
        raw >= 1 ==> spec_lid_thickness(raw) == raw,
        raw == 0 ==> spec_lid_thickness(raw) == 1,
{
}

/// At full closure (each lid computed as half the screen, rounded down) the
/// two lids meet: together they cover every row but the middle one of an odd
/// screen height.
pub proof fn law_lids_close_fully(screen_height: u16)
    requires
        2 <= screen_height,
    ensures
        ({
            let height = spec_lid_thickness((screen_height / 2) as nat);
            let bottom_y = screen_height - height;
            &&& height == screen_height / 2
            &&& bottom_y - height == screen_height % 2
        }),
{
}

/// While each lid covers at most half the screen, the top lid (rows
/// `0..height`) and the bottom lid (rows `bottom_y..screen_height`) lie
/// within the screen and do not overlap.
pub proof fn law_lids_apart(screen_height: u16, raw: u16)
    requires
        2 <= screen_height,
        raw <= screen_height / 2,
    ensures
        ({
            let height = spec_lid_thickness(raw as nat);
            let bottom_y = screen_height - height;
            &&& 0 <= height <= bottom_y
            &&& bottom_y + height == screen_height
        }),
{
}


/// Byte `k` (`0..4`) of a pixel of colour `color` (`0xRRGGBB`) in an ARGB8888
/// buffer, in memory order: blue, green, red, then an opaque alpha.
pub open spec fn pixel_byte(color: u32, k: int) -> int {
    if k == 0 {
        (color % 256) as int
    } else if k == 1 {
        ((color / 256) % 256) as int
    } else if k == 2 {
        ((color / 65536) % 256) as int
    } else {
        255
    }
}

/// Every pixel is opaque, and its four bytes read as a little-endian `u32`
/// give `0xFF000000` with the colour in the low three bytes: blue first, then
/// green, then red, then an alpha of 255.
pub proof fn law_pixel_is_opaque_argb(color: u32)
    requires
        color <= 0xFFFFFF,
    ensures
        pixel_byte(color, 3) == 255,
        0 <= pixel_byte(color, 0) < 256 && 0 <= pixel_byte(color, 1) < 256 && 0 <= pixel_byte(
            color,
            2,
        ) < 256,
        pixel_byte(color, 0) + 256 * pixel_byte(color, 1) + 65536 * pixel_byte(color, 2)
            + 16777216 * pixel_byte(color, 3) == 0xFF000000 + color,
{
}

/// The red, green and blue channels of `color` (`0xRRGGBB`).
pub fn color_channels(color: u32) -> (rgb: (u8, u8, u8))
    ensures
        rgb.0 == (color / 65536) % 256,
        rgb.1 == (color / 256) % 256,
        rgb.2 == color % 256,
{
    let r = ((color >> 16u32) & 0xFF) as u8;
    let g = ((color >> 8u32) & 0xFF) as u8;
    let b = (color & 0xFF) as u8;
    assert((color >> 16u32) & 0xFF == (color / 65536) % 256) by (bit_vector);
    assert((color >> 8u32) & 0xFF == (color / 256) % 256) by (bit_vector);
    assert(color & 0xFF == color % 256) by (bit_vector);
    (r, g, b)
}

/// The three channels of a colour put together give the colour back.
pub proof fn law_channels_recombine(color: u32)
    requires
        color <= 0xFFFFFF,
    ensures
        ((color / 65536) % 256) * 65536 + ((color / 256) % 256) * 256 + color % 256 == color,
{
}

/// Paints every whole pixel (every complete group of four bytes) of `canvas`
/// in `color`; trailing bytes that make no whole pixel stay as they are.
pub fn fill_lid_pixels(canvas: &mut [u8], color: u32)
    ensures
        final(canvas)@.len() == old(canvas)@.len(),
        forall|i: int|
            0 <= i < old(canvas)@.len() - old(canvas)@.len() % 4 ==> #[trigger] final(canvas)@[i]
                == pixel_byte(color, i % 4),
        forall|i: int|
            old(canvas)@.len() - old(canvas)@.len() % 4 <= i < old(canvas)@.len()
                ==> #[trigger] final(canvas)@[i] == old(canvas)@[i],
        forall|i: int|
            0 <= i < old(canvas)@.len() - old(canvas)@.len() % 4 && i % 4 == 3
                ==> #[trigger] final(canvas)@[i] == 0xFF,
        forall|i: int|
            0 <= i < old(canvas)@.len() - old(canvas)@.len() % 4 && i % 4 == 0
                ==> #[trigger] final(canvas)@[i] == color % 256,
{
    let (r, g, b) = color_channels(color);
    let n = canvas.len();
    let mut i: usize = 0;
    while i < n && n - i >= 4
        invariant
            n == canvas@.len(),
            n == old(canvas)@.len(),
            i <= n,
            i % 4 == 0,
            r == (color / 65536) % 256,
            g == (color / 256) % 256,
            b == color % 256,
            forall|j: int| 0 <= j < i ==> #[trigger] canvas@[j] == pixel_byte(color, j % 4),
            forall|j: int| i <= j < n ==> #[trigger] canvas@[j] == old(canvas)@[j],
        decreases n - i,
    {
        let ghost prev = canvas@;
        canvas[i] = b;
        canvas[i + 1] = g;
        canvas[i + 2] = r;
        canvas[i + 3] = 0xFF;
        assert forall|j: int| 0 <= j < i + 4 implies #[trigger] canvas@[j] == pixel_byte(
            color,
            j % 4,
        ) by {
            if j >= i {
                assert(j % 4 == j - i);
                if j == i {
                    assert(canvas@[j] == b);
                } else if j == i + 1 {
                    assert(canvas@[j] == g);
                } else if j == i + 2 {
                    assert(canvas@[j] == r);
                } else {
                    assert(canvas@[j] == 0xFF);
                }
            } else {
                assert(canvas@[j] == prev[j]);
            }
        }
        i = i + 4;
    }
}

/// The geometry of the pixel buffer for one lid: width and height in pixels
/// and the bytes per row, four per pixel.
pub struct LidBuffer {
    pub width: i32,
    pub height: i32,
    pub stride: i32,
}

/// The buffer for a lid `width` by `height` pixels; `None` when the lid is
/// empty, in which case nothing is drawn. A non-empty lid must be small enough
/// that its row length in bytes and its height fit in an `i32`.
pub fn lid_buffer(width: u32, height: u32) -> (res: Option<LidBuffer>)
    requires
        width == 0 || height == 0 || (width <= 0x1FFF_FFFF && height <= 0x7FFF_FFFF),
    ensures
        res is None <==> (width == 0 || height == 0),
        res matches Some(buf) ==> buf.width == width && buf.height == height && buf.stride == 4
            * width,
{
    if width == 0 || height == 0 {
        return None;
    }
    let w = width as i32;
    Some(LidBuffer { width: w, height: height as i32, stride: w * 4 })
}

/// Bytes of shared memory for the lids on a screen `width` by `height`
/// pixels: four per pixel of the whole screen.
pub fn pool_len(width: u32, height: u32) -> (res: usize)
    requires
        width * height * 4 <= u32::MAX,
    ensures
        res == width * height * 4,
{
    (width * height * 4) as usize
}

/// Which of the two lid surfaces the compositor has configured, and the
/// size of the screen (the output the lids are drawn on).
///
/// Every configuration of the top lid is taken as the screen size. The top
/// lid is requested to cover the whole output (anchored to all four edges with
/// no size of its own) until both lids are configured, so the size it reports
/// then is the output's.
pub struct LidSurfaces {
    pub top_configured: bool,
    pub bottom_configured: bool,
    pub screen_width: u32,
    pub screen_height: u32,
}

impl LidSurfaces {
    /// Neither surface configured yet.
    pub fn new() -> (res: LidSurfaces)
        ensures
            !res.top_configured,
            !res.bottom_configured,
            res.screen_width == 0,
            res.screen_height == 0,
    {
        LidSurfaces {
            top_configured: false,
            bottom_configured: false,
            screen_width: 0,
            screen_height: 0,
        }
    }

    /// Records a configuration of size `width` by `height` for a surface
    /// that is the top lid (`is_top`), the bottom lid (`is_bottom`), or neither.
    /// A configuration of the top lid sets the screen size.
    pub fn configure(&mut self, is_top: bool, is_bottom: bool, width: u32, height: u32)
        ensures
            final(self).top_configured == (old(self).top_configured || is_top),
            final(self).bottom_configured == (old(self).bottom_configured || is_bottom),
            final(self).screen_width == if is_top {
                width
            } else {
                old(self).screen_width
            },
            final(self).screen_height == if is_top {
                height
            } else {
                old(self).screen_height
            },
    {
        if is_top {
            self.screen_width = width;
            self.screen_height = height;
            self.top_configured = true;
        }
        if is_bottom {
            self.bottom_configured = true;
        }
    }

    /// Both lids are configured, so drawing can start.
    pub fn ready(&self) -> (res: bool)
        ensures
            res == (self.top_configured && self.bottom_configured),
    {
        self.top_configured && self.bottom_configured
    }
}

} // verus!
