//! Pixel data as the GUI hands it over: colors, images and texture deltas.

use vstd::prelude::*;
use vstd::arithmetic::div_mod::lemma_fundamental_div_mod;
use vstd::arithmetic::div_mod::lemma_fundamental_div_mod_converse;

verus! {

/// Number of bytes one pixel occupies in GPU memory.
pub const BYTES_PER_PIXEL: usize = 4;

/// Identifies a texture. The two variants are disjoint namespaces: `Managed`
/// ids come with the GUI's upload instructions, `User` ids are handed out when
/// a caller registers a resource view of its own.
#[derive(Clone, Copy, Debug, PartialEq, Eq, Structural)]
pub enum TextureId {
    Managed(u64),
    User(u64),
}

/// One pixel: four 8-bit channels.
#[derive(Clone, Copy, Debug, PartialEq, Eq, Structural)]
pub struct Color32 {
    pub r: u8,
    pub g: u8,
    pub b: u8,
    pub a: u8,
}

impl Color32 {
    /// The channel with the given position in memory order (red first).
    pub open spec fn channel(self, k: int) -> u8 {
        if k == 0 {
            self.r
        } else if k == 1 {
            self.g
        } else if k == 2 {
            self.b
        } else {
            self.a
        }
    }

    /// The four channels in memory order.
    pub fn to_array(&self) -> (bytes: [u8; 4])
        ensures
            forall|k: int| 0 <= k < 4 ==> bytes@[k] == self.channel(k),
    {
        [self.r, self.g, self.b, self.a]
    }
}

/// The bytes of a run of pixels, four per pixel, in order.
pub open spec fn pixel_bytes(pixels: Seq<Color32>) -> Seq<u8> {
    Seq::new(4 * pixels.len(), |i: int| pixels[i / 4].channel(i % 4))
}

/// What `dst`, a row-major buffer of rows `dst_width` wide, holds after the
/// image `src` of width `src_width` was written with its top-left corner at
/// column `nx`, row `ny`: inside the rectangle the image's pixel, elsewhere
/// what was there.
pub open spec fn blit(
    dst: Seq<Color32>,
    dst_width: int,
    src: Seq<Color32>,
    src_width: int,
    src_height: int,
    nx: int,
    ny: int,
) -> Seq<Color32> {
    Seq::new(
        dst.len(),
        |i: int|
            {
                let col = i % dst_width - nx;
                let row = i / dst_width - ny;
                if 0 <= col < src_width && 0 <= row < src_height {
                    src[row * src_width + col]
                } else {
                    dst[i]
                }
            },
    )
}

/// The creation of a GPU texture with its first content: the size in texels
/// and the pixel data, `row_pitch` bytes per row.
#[derive(Debug, PartialEq, Eq)]
pub struct TextureUpload {
    pub width: usize,
    pub height: usize,
    pub row_pitch: usize,
    pub data: Vec<u8>,
}

/// A copy of pixel data into a rectangle of a GPU texture. The rectangle
/// spans the columns `left..right` and the rows `top..bottom`; `data` holds
/// its rows, `row_pitch` bytes each.
#[derive(Debug, PartialEq, Eq)]
pub struct RegionUpdate {
    pub left: usize,
    pub top: usize,
    pub right: usize,
    pub bottom: usize,
    pub row_pitch: usize,
    pub data: Vec<u8>,
}

impl TextureUpload {
    /// Whether this is the upload that creates a texture holding `image`.
    pub open spec fn carries(&self, image: &ColorImage) -> bool {
        &&& self.width == image.width
        &&& self.height == image.height
        &&& self.row_pitch == image.width * 4
        &&& self.data@ == pixel_bytes(image.pixels@)
    }
}

impl RegionUpdate {
    /// Whether this is the copy of `image` to the rectangle whose top-left
    /// corner is at column `nx`, row `ny`.
    pub open spec fn carries(&self, image: &ColorImage, nx: usize, ny: usize) -> bool {
        &&& self.left == nx
        &&& self.top == ny
        &&& self.right == nx + image.width
        &&& self.bottom == ny + image.height
        &&& self.row_pitch == image.width * 4
        &&& self.data@ == pixel_bytes(image.pixels@)
    }
}

/// A rectangular image, row by row from the top.
#[derive(Debug, PartialEq, Eq)]
pub struct ColorImage {
    pub width: usize,
    pub height: usize,
    pub pixels: Vec<Color32>,
}

impl ColorImage {
    /// The pixel buffer has one entry per texel, and its bytes can be counted
    /// in a `usize`.
    pub open spec fn wf(&self) -> bool {
        &&& self.pixels@.len() == self.width * self.height
        &&& self.width * 4 <= usize::MAX
        &&& self.width * self.height * 4 <= usize::MAX
    }

    /// Tests `wf`.
    pub fn is_wf(&self) -> (ok: bool)
        ensures
            ok == self.wf(),
    {
        let row_ok = self.width.checked_mul(BYTES_PER_PIXEL).is_some();
        match self.width.checked_mul(self.height) {
            Some(count) => row_ok && count == self.pixels.len() && count.checked_mul(
                BYTES_PER_PIXEL,
            ).is_some(),
            None => false,
        }
    }

    /// Builds an image, or nothing if the buffer does not hold exactly
    /// `width * height` pixels or is too large to address byte by byte.
    pub fn new(width: usize, height: usize, pixels: Vec<Color32>) -> (image: Option<ColorImage>)
        ensures
            match image {
                Some(img) => img.wf() && img.width == width && img.height == height
                    && img.pixels == pixels,
                None => !(ColorImage { width, height, pixels }).wf(),
            },
    {
        let image = ColorImage { width, height, pixels };
        if image.is_wf() {
            Some(image)
        } else {
            None
        }
    }

    /// A copy of the image.
    pub fn duplicate(&self) -> (copy: ColorImage)
        ensures
            copy.width == self.width,
            copy.height == self.height,
            copy.pixels@ == self.pixels@,
    {
        let n: usize = self.pixels.len();
        let mut pixels: Vec<Color32> = Vec::with_capacity(n);
        let mut i: usize = 0;
        while i < n
            invariant
                n == self.pixels@.len(),
                i <= n,
                pixels@ == self.pixels@.take(i as int),
            decreases n - i,
        {
            pixels.push(self.pixels[i]);
            assert(pixels@ =~= self.pixels@.take(i + 1));
            i += 1;
        }
        assert(self.pixels@.take(n as int) =~= self.pixels@);
        ColorImage { width: self.width, height: self.height, pixels }
    }

    /// What the GPU needs to create a texture that holds this image.
    pub fn upload(&self) -> (upload: TextureUpload)
        requires
            self.wf(),
        ensures
            upload.carries(self),
    {
        TextureUpload {
            width: self.width,
            height: self.height,
            row_pitch: self.row_pitch(),
            data: self.to_bytes(),
        }
    }

    /// What the GPU needs to copy this image into a texture with its
    /// top-left corner at column `nx`, row `ny`.
    pub fn region(&self, nx: usize, ny: usize) -> (region: RegionUpdate)
        requires
            self.wf(),
            nx + self.width <= usize::MAX,
            ny + self.height <= usize::MAX,
        ensures
            region.carries(self, nx, ny),
    {
        RegionUpdate {
            left: nx,
            top: ny,
            right: nx + self.width,
            bottom: ny + self.height,
            row_pitch: self.row_pitch(),
            data: self.to_bytes(),
        }
    }

    /// Row pitch of the image in GPU memory: the bytes of one row.
    pub fn row_pitch(&self) -> (pitch: usize)
        requires
            self.wf(),
        ensures
            pitch == self.width * 4,
    {
        self.width * BYTES_PER_PIXEL
    }

    /// The image as the bytes a GPU upload takes: pixel after pixel, four
    /// channels each, rows `row_pitch()` bytes apart.
    pub fn to_bytes(&self) -> (bytes: Vec<u8>)
        requires
            self.wf(),
        ensures
            bytes@ == pixel_bytes(self.pixels@),
    {
        let n: usize = self.pixels.len();
        let mut bytes: Vec<u8> = Vec::with_capacity(n * BYTES_PER_PIXEL);
        let mut i: usize = 0;
        while i < n
            invariant
                n == self.pixels@.len(),
                i <= n,
                bytes@ == pixel_bytes(self.pixels@.take(i as int)),
            decreases n - i,
        {
            let c = self.pixels[i].to_array();
            let ghost before = bytes@;
            bytes.push(c[0]);
            bytes.push(c[1]);
            bytes.push(c[2]);
            bytes.push(c[3]);
            proof {
                let p = self.pixels@;
                let now = pixel_bytes(p.take(i + 1));
                assert(bytes@.len() == now.len());
                assert forall|j: int| 0 <= j < now.len() implies bytes@[j] == now[j] by {
                    if j < 4 * i {
                        assert(bytes@[j] == before[j]);
                        assert(p.take(i as int)[j / 4] == p.take(i + 1)[j / 4]);
                    } else {
                        assert(j / 4 == i as int);
                        assert(p.take(i + 1)[i as int] == p[i as int]);
                    }
                }
                assert(bytes@ =~= now);
            }
            i += 1;
        }
        proof {
            assert(self.pixels@.take(n as int) =~= self.pixels@);
        }
        bytes
    }
}

/// A change to the content of one texture: an image, and where it goes.
/// Without a position the image is the whole texture; with one it replaces
/// the rectangle whose top-left corner is at that column and row.
#[derive(Debug, PartialEq, Eq)]
pub struct ImageDelta {
    pub image: ColorImage,
    pub pos: Option<(usize, usize)>,
}

impl ImageDelta {
    pub open spec fn spec_is_whole(&self) -> bool {
        self.pos is None
    }

    /// Whether the image stands for the whole texture.
    #[verifier::when_used_as_spec(spec_is_whole)]
    pub fn is_whole(&self) -> (whole: bool)
        ensures
            whole == self.spec_is_whole(),
    {
        self.pos.is_none()
    }

    pub open spec fn spec_is_full_upload(&self) -> bool {
        self.pos is None && self.image.width > 0 && self.image.height > 0
    }

    /// Whether the delta creates a texture anew: it stands for the whole
    /// texture and has at least one texel.
    #[verifier::when_used_as_spec(spec_is_full_upload)]
    pub fn is_full_upload(&self) -> (full: bool)
        ensures
            full == self.spec_is_full_upload(),
    {
        self.pos.is_none() && self.image.width > 0 && self.image.height > 0
    }
}

/// The texture changes of one frame: contents to set, in order, and ids to
/// free.
#[derive(Debug, PartialEq, Eq)]
pub struct TexturesDelta {
    pub set: Vec<(TextureId, ImageDelta)>,
    pub free: Vec<TextureId>,
}

/// The state of a buffer while `blit` is under way: the rows of the image
/// before `rows_done` are written, and of the row `rows_done` the columns
/// before `cols_done`.
pub open spec fn blit_upto(
    dst: Seq<Color32>,
    dst_width: int,
    src: Seq<Color32>,
    src_width: int,
    src_height: int,
    nx: int,
    ny: int,
    rows_done: int,
    cols_done: int,
) -> Seq<Color32> {
    Seq::new(
        dst.len(),
        |i: int|
            {
                let col = i % dst_width - nx;
                let row = i / dst_width - ny;
                if 0 <= col < src_width && 0 <= row < src_height && (row < rows_done || (row
                    == rows_done && col < cols_done)) {
                    src[row * src_width + col]
                } else {
                    dst[i]
                }
            },
    )
}

impl ColorImage {
    /// Whether `src`, placed with its top-left corner at column `nx`, row
    /// `ny`, lies within this image.
    pub open spec fn region_fits(&self, src: &ColorImage, nx: usize, ny: usize) -> bool {
        nx + src.width <= self.width && ny + src.height <= self.height
    }

    /// Tests `region_fits`.
    pub fn fits(&self, src: &ColorImage, nx: usize, ny: usize) -> (ok: bool)
        ensures
            ok == self.region_fits(src, nx, ny),
    {
        let right_ok = match nx.checked_add(src.width) {
            Some(right) => right <= self.width,
            None => false,
        };
        let bottom_ok = match ny.checked_add(src.height) {
            Some(bottom) => bottom <= self.height,
            None => false,
        };
        right_ok && bottom_ok
    }

    /// Overwrites the rectangle of this image whose top-left corner is at
    /// column `nx`, row `ny` with `src`. Every pixel outside it stays.
    pub fn write_region(&mut self, src: &ColorImage, nx: usize, ny: usize)
        requires
            old(self).wf(),
            src.wf(),
            old(self).region_fits(src, nx, ny),
        ensures
            final(self).wf(),
            final(self).width == old(self).width,
            final(self).height == old(self).height,
            final(self).pixels@ == blit(
                old(self).pixels@,
                old(self).width as int,
                src.pixels@,
                src.width as int,
                src.height as int,
                nx as int,
                ny as int,
            ),
    {
        let ghost start = self.pixels@;
        let ghost w = self.width as int;
        let ghost sw = src.width as int;
        let ghost sh = src.height as int;
        let mut y: usize = 0;
        proof {
            assert(self.pixels@ =~= blit_upto(start, w, src.pixels@, sw, sh, nx as int, ny as int, 0, 0));
        }
        while y < src.height
            invariant
                y <= src.height,
                src.wf(),
                self.wf(),
                self.width == w,
                self.height == old(self).height,
                src.width == sw,
                src.height == sh,
                start.len() == w * self.height,
                nx + sw <= w,
                ny + sh <= self.height,
                self.pixels@ == blit_upto(start, w, src.pixels@, sw, sh, nx as int, ny as int, y as int, 0),
            decreases src.height - y,
        {
            let mut x: usize = 0;
            while x < src.width
                invariant
                    y < src.height,
                    x <= src.width,
                    src.wf(),
                    self.wf(),
                    self.width == w,
                    self.height == old(self).height,
                    src.width == sw,
                    src.height == sh,
                    start.len() == w * self.height,
                    nx + sw <= w,
                    ny + sh <= self.height,
                    self.pixels@ == blit_upto(start, w, src.pixels@, sw, sh, nx as int, ny as int, y as int, x as int),
                decreases src.width - x,
            {
                proof {
                    lemma_cell_in_bounds(sw, sh, y as int, x as int);
                    lemma_cell_in_bounds(w, self.height as int, ny + y, nx + x);
                    lemma_row_major(w, ny + y, nx + x);
                    assert((ny + y) * w <= (ny + y) * w + nx + x);
                }
                let frac = y * src.width + x;
                let whole = (ny + y) * self.width + nx + x;
                let ghost before = self.pixels@;
                self.pixels[whole] = src.pixels[frac];
                proof {
                    let after = blit_upto(start, w, src.pixels@, sw, sh, nx as int, ny as int, y as int, x + 1);
                    assert forall|i: int| 0 <= i < start.len() implies self.pixels@[i] == after[i] by {
                        if i != whole {
                            lemma_row_major_unique(w, i);
                            assert(self.pixels@[i] == before[i]);
                        }
                    }
                    assert(self.pixels@ =~= after);
                }
                x += 1;
            }
            proof {
                assert(self.pixels@ =~= blit_upto(start, w, src.pixels@, sw, sh, nx as int, ny as int, y + 1, 0));
            }
            y += 1;
        }
        proof {
            assert(self.pixels@ =~= blit(start, w, src.pixels@, sw, sh, nx as int, ny as int));
        }
    }
}

/// A cell of a `width` by `height` grid has a position below `width * height`.
proof fn lemma_cell_in_bounds(width: int, height: int, row: int, col: int)
    requires
        0 <= col < width,
        0 <= row < height,
    ensures
        0 <= row * width,
        row * width + col < width * height,
        row * width + col < height * width,
{
    assert(row * width + col < width * height) by (nonlinear_arith)
        requires
            0 <= col < width,
            0 <= row < height,
    ;
    assert(0 <= row * width) by (nonlinear_arith)
        requires
            0 <= row,
            0 < width,
    ;
    assert(width * height == height * width) by (nonlinear_arith);
}

/// Row and column of a position in a row-major buffer.
proof fn lemma_row_major(width: int, row: int, col: int)
    requires
        0 <= col < width,
        0 <= row,
    ensures
        (row * width + col) / width == row,
        (row * width + col) % width == col,
{
    lemma_fundamental_div_mod_converse(row * width + col, width, row, col);
}

/// A position in a row-major buffer is given by its row and column.
proof fn lemma_row_major_unique(width: int, i: int)
    requires
        0 < width,
    ensures
        i == (i / width) * width + i % width,
{
    lemma_fundamental_div_mod(i, width);
    assert(width * (i / width) == (i / width) * width) by (nonlinear_arith);
}

} // verus!
