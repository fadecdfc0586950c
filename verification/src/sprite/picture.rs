//! Pictures: the bytes of an image file, decoded into rows of pixels.
//!
//! Decoding is the work of the `image` crate. What it hands back is held to
//! the shape that a texture needs before anything is made of it.

use vstd::prelude::*;
use vstd::string::StringExecFns;
use crate::util::{Error, Result};

verus! {

/// The error with which the `image` crate refuses the bytes of a file.
#[verifier::external_type_specification]
#[verifier::external_body]
pub struct ExImageError(image::ImageError);

/// Decodes the bytes of an image file with `image::load_from_memory`, which
/// tells the format by the first bytes, and turns the image into eight-bit
/// red, green, blue and alpha with `DynamicImage::into_rgba8`: the width,
/// the height and the samples. Nothing is claimed of the outcome: which
/// formats are known is a matter of the running program.
#[verifier::external_body]
fn decode(data: &[u8]) -> (outcome: core::result::Result<(u32, u32, Vec<u8>), image::ImageError>) {
    let image = image::load_from_memory(data)?.into_rgba8();
    let (width, height) = image.dimensions();
    Ok((width, height, image.into_raw()))
}

/// The text of an error of the `image` crate, as its `Display` gives it.
/// Nothing is claimed of the text.
#[verifier::external_body]
fn describe(error: &image::ImageError) -> (text: String) {
    error.to_string()
}

/// A picture: four bytes (red, green, blue, alpha) for each pixel, row after
/// row from the top.
#[derive(Debug, Clone)]
pub struct Picture {
    pub width: u32,
    pub height: u32,
    pub pixels: Vec<u8>,
}

/// Whether samples make a picture of a width and a height: four for each
/// pixel, and a row that can be counted in 32 bits.
pub open spec fn fits(width: u32, height: u32, samples: Seq<u8>) -> bool {
    &&& width * 4 <= u32::MAX
    &&& samples.len() == width * height * 4
}

/// What is said of samples that do not fit.
pub open spec fn misfit() -> Seq<char> {
    "Picture does not hold four bytes for each pixel"@
}

/// Whether a count of samples is the one that a width and a height ask for.
fn holds(width: u32, height: u32, held: usize) -> (whole: bool)
    ensures
        whole <==> width * 4 <= u32::MAX && held == width * height * 4,
{
    assert(width * height <= 0xffff_ffff * 0xffff_ffff) by (nonlinear_arith);
    let area: u64 = (width as u64) * (height as u64);
    if width > u32::MAX / 4 || area > u64::MAX / 4 {
        return false;
    }
    assert(area * 4 == width * height * 4) by (nonlinear_arith)
        requires
            area == width * height,
    ;
    held as u64 == area * 4
}

impl Picture {
    /// Whether the picture holds what its width and height ask for.
    pub open spec fn wf(self) -> bool {
        fits(self.width, self.height, self.pixels@)
    }

    /// Makes a picture of samples, where they fit the width and the height.
    pub fn new(width: u32, height: u32, pixels: Vec<u8>) -> (made: Result<Picture>)
        ensures
            fits(width, height, pixels@) ==> made == Ok::<Picture, Error>(
                (Picture { width, height, pixels }),
            ),
            !fits(width, height, pixels@) ==> made is Err && made->Err_0 is SpriteLoading
                && made->Err_0.message()@ == misfit(),
    {
        if holds(width, height, pixels.len()) {
            Ok(Picture { width, height, pixels })
        } else {
            Err(Error::SpriteLoading(String::from_str("Picture does not hold four bytes for each pixel")))
        }
    }

    /// Whether the picture holds what its width and height ask for.
    pub fn is_whole(&self) -> (whole: bool)
        ensures
            whole == self.wf(),
    {
        holds(self.width, self.height, self.pixels.len())
    }

    /// The bytes of one row.
    pub fn pitch(&self) -> (bytes: u32)
        requires
            self.wf(),
        ensures
            bytes == self.width * 4,
    {
        self.width * 4
    }

    /// The four bytes of the pixel in a column and a row.
    pub fn pixel(&self, column: u32, row: u32) -> (found: Option<(u8, u8, u8, u8)>)
        requires
            self.wf(),
        ensures
            found is Some <==> column < self.width && row < self.height,
            found is Some ==> {
                let at = (row * self.width + column) * 4;
                found == Some(
                    (
                        self.pixels@[at],
                        self.pixels@[at + 1],
                        self.pixels@[at + 2],
                        self.pixels@[at + 3],
                    ),
                )
            },
    {
        if column >= self.width || row >= self.height {
            return None;
        }
        assert((row * self.width + column) * 4 + 3 < self.width * self.height * 4) by (nonlinear_arith)
            requires
                column < self.width,
                row < self.height,
        ;
        let held: usize = self.pixels.len();
        assert(self.width * self.height * 4 == held);
        let at: usize = ((row as usize) * (self.width as usize) + (column as usize)) * 4;
        Some((self.pixels[at], self.pixels[at + 1], self.pixels[at + 2], self.pixels[at + 3]))
    }
}

/// What loading makes of an outcome of decoding: the picture where the
/// samples fit, else an error of sprite loading.
pub fn picture_from(outcome: core::result::Result<(u32, u32, Vec<u8>), String>) -> (loaded: Result<Picture>)
    ensures
        match outcome {
            Ok((width, height, samples)) => {
                &&& fits(width, height, samples@) ==> loaded == Ok::<Picture, Error>(
                    (Picture { width, height, pixels: samples }),
                )
                &&& !fits(width, height, samples@) ==> loaded is Err && loaded->Err_0 is SpriteLoading
                    && loaded->Err_0.message()@ == misfit()
            },
            Err(text) => loaded == Err::<Picture, Error>(Error::SpriteLoading(text)),
        },
{
    match outcome {
        Ok((width, height, samples)) => Picture::new(width, height, samples),
        Err(text) => Err(Error::SpriteLoading(text)),
    }
}

/// Loads a picture from the bytes of an image file. Whether the bytes are
/// an image is for the decoder to say: a picture that is loaded is whole, and
/// what fails is an error of sprite loading, with the decoder's words where
/// it refused the bytes. What is made of each outcome of decoding is said by
/// `picture_from`.
pub fn load_picture(data: &[u8]) -> (loaded: Result<Picture>)
    ensures
        loaded is Ok ==> loaded->Ok_0.wf(),
        loaded is Err ==> loaded->Err_0 is SpriteLoading,
{
    match decode(data) {
        Ok(found) => picture_from(Ok(found)),
        Err(error) => picture_from(Err(describe(&error))),
    }
}

} // verus!
