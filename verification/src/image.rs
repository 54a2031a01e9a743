//! Luma image access and the Sobel gradient probe.
//!
//! Only the Y channel of the segmented image is read.  The probe returns the
//! raw integer Sobel response; its direction enters the pipeline only through
//! the exact alignment comparison in the admissibility check, so no
//! normalization is needed.

use vstd::prelude::*;

verus! {

/// A luma image, `width * height` bytes in row-major order.
#[derive(Clone, Debug)]
pub struct LumaImage {
    pub width: u16,
    pub height: u16,
    pub data: Vec<u8>,
}

/// An unnormalized luma gradient at a pixel.
#[derive(Clone, Copy, Debug, PartialEq, Eq, Structural)]
pub struct Gradient {
    pub x: i64,
    pub y: i64,
}

impl LumaImage {
    pub open spec fn wf(&self) -> bool {
        self.data@.len() == self.width as int * self.height as int
    }

    /// Luma at `(x, y)`; zero outside the image, so the spec is total.
    pub open spec fn luma(&self, x: int, y: int) -> int {
        if 0 <= x < self.width as int && 0 <= y < self.height as int {
            self.data@[y * self.width as int + x] as int
        } else {
            0
        }
    }

    /// An image of the given size with every luma sample zero.
    pub fn zero(width: u16, height: u16) -> (img: LumaImage)
        ensures
            img.wf(),
            img.width == width,
            img.height == height,
            forall|x: int, y: int| img.luma(x, y) == 0,
    {
        proof {
            crate::math::lemma_mul_bound(width as int, height as int, 0xffff, 0xffff);
        }
        let n: usize = width as usize * height as usize;
        let mut data: Vec<u8> = Vec::new();
        let mut i: usize = 0;
        while i < n
            invariant
                data@.len() == i,
                i <= n,
                forall|k: int| 0 <= k < i ==> data@[k] == 0u8,
            decreases n - i,
        {
            data.push(0);
            i = i + 1;
        }
        let img = LumaImage { width, height, data };
        proof {
            assert forall|x: int, y: int| img.luma(x, y) == 0 by {
                if 0 <= x < width as int && 0 <= y < height as int {
                    assert(0 <= y * width as int + x < width as int * height as int)
                        by (nonlinear_arith)
                        requires
                            0 <= x < width as int,
                            0 <= y < height as int,
                    ;
                }
            }
        }
        img
    }

    /// Luma at `(x, y)`, which must lie inside the image.
    pub fn at(&self, x: u16, y: u16) -> (l: u8)
        requires
            self.wf(),
            x < self.width,
            y < self.height,
        ensures
            l as int == self.luma(x as int, y as int),
    {
        proof {
            crate::math::lemma_mul_bound(
                y as int,
                self.width as int,
                0xffff,
                self.width as int,
            );
            assert(y as int * self.width as int + x < self.width as int * self.height as int)
                by (nonlinear_arith)
                requires
                    0 <= x < self.width as int,
                    0 <= y < self.height as int,
            ;
        }
        let idx: usize = y as usize * self.width as usize + x as usize;
        self.data[idx]
    }
}

/// The Sobel response of the luma plane at `(x, y)`: zero within one pixel of
/// the border, otherwise the 3x3 transposed Sobel pair.
pub open spec fn gradient_spec(img: LumaImage, x: int, y: int) -> Gradient {
    if x < 1 || y < 1 || x + 2 > img.width as int || y + 2 > img.height as int {
        Gradient { x: 0, y: 0 }
    } else {
        Gradient {
            x: (-img.luma(x - 1, y - 1) - 2 * img.luma(x, y - 1) - img.luma(x + 1, y - 1)
                + img.luma(x - 1, y + 1) + 2 * img.luma(x, y + 1) + img.luma(
                x + 1,
                y + 1,
            )) as i64,
            y: (img.luma(x - 1, y - 1) - img.luma(x + 1, y - 1) + 2 * img.luma(x - 1, y) - 2
                * img.luma(x + 1, y) + img.luma(x - 1, y + 1) - img.luma(x + 1, y + 1)) as i64,
        }
    }
}

/// Bounds on any Sobel response: at most four full-scale luma steps.
pub proof fn lemma_gradient_bounds(img: LumaImage, x: int, y: int)
    ensures
        -1020 <= gradient_spec(img, x, y).x <= 1020,
        -1020 <= gradient_spec(img, x, y).y <= 1020,
{
}

/// A luma-zero image has a zero gradient everywhere.
pub proof fn lemma_zero_image_gradient(img: LumaImage, x: int, y: int)
    requires
        forall|u: int, v: int| img.luma(u, v) == 0,
    ensures
        gradient_spec(img, x, y) == (Gradient { x: 0, y: 0 }),
{
}

/// Sobel probe at a pixel, exactly `gradient_spec`.
pub fn get_gradient(image: &LumaImage, point: crate::geometry::PixelPoint) -> (g: Gradient)
    requires
        image.wf(),
    ensures
        g == gradient_spec(*image, point.x as int, point.y as int),
{
    let x = point.x;
    let y = point.y;
    if x < 1 || y < 1 || x as u32 + 2 > image.width as u32 || y as u32 + 2 > image.height as u32 {
        return Gradient { x: 0, y: 0 };
    }
    let a: i64 = image.at(x - 1, y - 1) as i64;
    let b: i64 = image.at(x, y - 1) as i64;
    let c: i64 = image.at(x + 1, y - 1) as i64;
    let d: i64 = image.at(x - 1, y) as i64;
    let e: i64 = image.at(x + 1, y) as i64;
    let f: i64 = image.at(x - 1, y + 1) as i64;
    let g: i64 = image.at(x, y + 1) as i64;
    let h: i64 = image.at(x + 1, y + 1) as i64;
    Gradient { x: -a - 2 * b - c + f + 2 * g + h, y: a - c + 2 * d - 2 * e + f - h }
}

} // verus!
