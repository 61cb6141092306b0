//! The picture that is handed to a display.
use crate::kernel::Download;
use vstd::prelude::*;

verus! {

/// A picture: its pixels on the host or the name of its texture on the
/// device, and its size.
#[derive(Debug)]
pub struct ImageData<T> {
    pub data_cpu: Option<Vec<T>>,
    pub data_gl: Option<u32>,
    pub width: u32,
    pub height: u32,
}

impl<T> ImageData<T> {
    /// A picture of the given parts.
    pub fn new(data_cpu: Option<Vec<T>>, data_gl: Option<u32>, width: u32, height: u32) -> (image:
        ImageData<T>)
        ensures
            image.data_cpu == data_cpu,
            image.data_gl == data_gl,
            image.width == width,
            image.height == height,
    {
        ImageData { data_cpu, data_gl, width, height }
    }
}

/// The picture of a download: nothing of size zero where nothing was
/// rendered, the texture where it is shared, the pixels where they were
/// copied. `None` where a side of the picture does not fit 32 bits.
pub fn picture(download: Download) -> (image: Option<ImageData<u8>>)
    ensures
        match download {
            Download::Empty => image matches Some(i) && i.data_cpu is None && i.data_gl is None
                && i.width == 0 && i.height == 0,
            Download::Interop(texture) => if texture.width <= u32::MAX && texture.height
                <= u32::MAX {
                image matches Some(i) && i.data_cpu is None && i.data_gl == Some(texture.id)
                    && i.width == texture.width && i.height == texture.height
            } else {
                image is None
            },
            Download::HostBuffer { pixels, width, height } => if width <= u32::MAX && height
                <= u32::MAX {
                image matches Some(i) && i.data_cpu == Some(pixels) && i.data_gl is None && i.width
                    == width && i.height == height
            } else {
                image is None
            },
        },
{
    match download {
        Download::Empty => Some(ImageData::new(None, None, 0, 0)),
        Download::Interop(texture) => {
            if texture.width > u32::MAX as usize || texture.height > u32::MAX as usize {
                None
            } else {
                Some(ImageData::new(None, Some(texture.id), texture.width as u32, texture.height as u32))
            }
        },
        Download::HostBuffer { pixels, width, height } => {
            if width > u32::MAX as usize || height > u32::MAX as usize {
                None
            } else {
                Some(ImageData::new(Some(pixels), None, width as u32, height as u32))
            }
        },
    }
}

} // verus!
