use vstd::prelude::*;

verus! {

/// Bytes per pixel: red, green, blue and alpha.
pub const CHANNELS: usize = 4;

/// Number of whole pixels in a row of `len` bytes; trailing bytes that do
/// not make a whole pixel are no pixel.
pub open spec fn pixel_count(len: nat) -> nat {
    len / 4
}

/// `bytes` with the alpha byte of every whole pixel set to fully opaque.
pub open spec fn opaque(bytes: Seq<u8>) -> Seq<u8> {
    Seq::new(
        bytes.len(),
        |k: int|
            if k < 4 * pixel_count(bytes.len()) && k % 4 == 3 {
                255u8
            } else {
                bytes[k]
            },
    )
}

/// `bytes` with the red, green and blue bytes of pixel `x` set to `c`.
pub open spec fn with_gray(bytes: Seq<u8>, x: int, c: u8) -> Seq<u8> {
    bytes.update(4 * x, c).update(4 * x + 1, c).update(4 * x + 2, c)
}

/// One pixel of a row: its position and its color channels.
#[derive(Debug, Clone, Copy, PartialEq, Eq, Structural)]
pub struct Pixel {
    pub x: usize,
    pub r: u8,
    pub g: u8,
    pub b: u8,
}

/// The bytes of one row of pixels, four per pixel (RGBA).
pub struct LineData {
    bytes: Vec<u8>,
}

impl View for LineData {
    type V = Seq<u8>;

    closed spec fn view(&self) -> Seq<u8> {
        self.bytes@
    }
}

impl LineData {
    /// Wraps the given RGBA bytes.
    pub fn new(bytes: Vec<u8>) -> (r: LineData)
        ensures
            r@ == bytes@,
    {
        LineData { bytes }
    }

    /// Gives the bytes back.
    pub fn into_bytes(self) -> (r: Vec<u8>)
        ensures
            r@ == self@,
    {
        self.bytes
    }

    /// The bytes of the row.
    pub fn as_bytes(&self) -> (r: &[u8])
        ensures
            r@ == self@,
    {
        self.bytes.as_slice()
    }

    /// Number of whole pixels in the row.
    pub fn len(&self) -> (r: usize)
        ensures
            r == pixel_count(self@.len()),
    {
        self.bytes.len() / CHANNELS
    }

    /// Makes every whole pixel fully opaque and lists the pixels in order,
    /// each with its position and current color.
    pub fn iter_mut(&mut self) -> (r: Vec<Pixel>)
        ensures
            final(self)@ == opaque(old(self)@),
            r@.len() == pixel_count(old(self)@.len()),
            forall|x: int|
                0 <= x < r@.len() ==> (#[trigger] r@[x]) == (Pixel {
                    x: x as usize,
                    r: old(self)@[4 * x],
                    g: old(self)@[4 * x + 1],
                    b: old(self)@[4 * x + 2],
                }),
    {
        let len = self.bytes.len();
        let n = len / CHANNELS;
        let ghost start = self.bytes@;
        let mut pixels: Vec<Pixel> = Vec::with_capacity(n);
        let mut x: usize = 0;
        while x < n
            invariant
                n == pixel_count(start.len()),
                len == start.len(),
                x <= n,
                self.bytes@.len() == start.len(),
                forall|k: int|
                    0 <= k < start.len() ==> #[trigger] self.bytes@[k] == if k < 4 * x && k % 4
                        == 3 {
                        255u8
                    } else {
                        start[k]
                    },
                pixels@.len() == x,
                forall|y: int|
                    0 <= y < x ==> (#[trigger] pixels@[y]) == (Pixel {
                        x: y as usize,
                        r: start[4 * y],
                        g: start[4 * y + 1],
                        b: start[4 * y + 2],
                    }),
            decreases n - x,
        {
            let base = x * CHANNELS;
            pixels.push(
                Pixel {
                    x,
                    r: self.bytes[base],
                    g: self.bytes[base + 1],
                    b: self.bytes[base + 2],
                },
            );
            self.bytes[base + 3] = 255;
            x = x + 1;
        }
        assert(self.bytes@ =~= opaque(start));
        pixels
    }

    /// Sets the red, green and blue bytes of pixel `x` to `c`.
    pub fn set_gray(&mut self, x: usize, c: u8)
        requires
            x < pixel_count(old(self)@.len()),
        ensures
            final(self)@ == with_gray(old(self)@, x as int, c),
    {
        let len = self.bytes.len();
        let base = x * CHANNELS;
        self.bytes[base] = c;
        self.bytes[base + 1] = c;
        self.bytes[base + 2] = c;
    }
}

/// A row of pixels handed to a renderer: its width in pixels and its bytes.
pub struct Line {
    pub len: usize,
    pub data: LineData,
}

} // verus!
