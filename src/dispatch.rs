use vstd::prelude::*;

use crate::error::CaptureError;

verus! {

/// Where a monitor sits on the desktop and how large it is.
#[derive(Clone, Copy, Debug, PartialEq, Eq, Structural)]
pub struct MonitorGeometry {
    pub x: i32,
    pub y: i32,
    pub width: u32,
    pub height: u32,
}

/// The rectangle of an image-fetch request, in the ranges the wire carries.
#[derive(Clone, Copy, Debug, PartialEq, Eq, Structural)]
pub struct ImageRequest {
    pub x: i16,
    pub y: i16,
    pub width: u16,
    pub height: u16,
}

/// A desktop rectangle handed to the compositor's capture.
#[derive(Clone, Copy, Debug, PartialEq, Eq, Structural)]
pub struct CaptureRect {
    pub x: i32,
    pub y: i32,
    pub width: i32,
    pub height: i32,
}

/// How one capture is carried out.
#[derive(Clone, Copy, Debug, PartialEq, Eq, Structural)]
pub enum CapturePlan {
    /// The compositor captures the rectangle and returns a finished image.
    Compositor(CaptureRect),
    /// The X server is asked for the raw pixels of the rectangle.
    XServer(ImageRequest),
}

/// The request for a rectangle at (`x`, `y`): refused when it is empty or
/// does not fit the wire's ranges.
pub open spec fn request_for(x: int, y: int, width: int, height: int) -> Result<
    ImageRequest,
    CaptureError,
> {
    if 0 < width <= u16::MAX && 0 < height <= u16::MAX && i16::MIN <= x <= i16::MAX && i16::MIN
        <= y <= i16::MAX {
        Ok(ImageRequest { x: x as i16, y: y as i16, width: width as u16, height: height as u16 })
    } else {
        Err(CaptureError::InvalidRegion)
    }
}

/// The plan for capturing the desktop rectangle at (`x`, `y`).
pub open spec fn plan_for(x: int, y: int, width: int, height: int, compositor: bool) -> Result<
    CapturePlan,
    CaptureError,
> {
    if compositor {
        if 0 < width <= i32::MAX && 0 < height <= i32::MAX && i32::MIN <= x <= i32::MAX
            && i32::MIN <= y <= i32::MAX {
            Ok(
                CapturePlan::Compositor(
                    CaptureRect {
                        x: x as i32,
                        y: y as i32,
                        width: width as i32,
                        height: height as i32,
                    },
                ),
            )
        } else {
            Err(CaptureError::InvalidRegion)
        }
    } else {
        match request_for(x, y, width, height) {
            Ok(req) => Ok(CapturePlan::XServer(req)),
            Err(e) => Err(e),
        }
    }
}

/// Builds the image-fetch request for a rectangle of a drawable.
pub fn image_request(x: i32, y: i32, width: u32, height: u32) -> (r: Result<
    ImageRequest,
    CaptureError,
>)
    ensures
        r == request_for(x as int, y as int, width as int, height as int),
{
    if 0 < width && width <= 0xffff && 0 < height && height <= 0xffff && -0x8000 <= x && x <= 0x7fff
        && -0x8000 <= y && y <= 0x7fff {
        Ok(ImageRequest { x: x as i16, y: y as i16, width: width as u16, height: height as u16 })
    } else {
        Err(CaptureError::InvalidRegion)
    }
}

fn plan_desktop_rect(x: i64, y: i64, width: u32, height: u32, compositor: bool) -> (r: Result<
    CapturePlan,
    CaptureError,
>)
    ensures
        r == plan_for(x as int, y as int, width as int, height as int, compositor),
{
    if compositor {
        if 0 < width && width <= 0x7fff_ffff && 0 < height && height <= 0x7fff_ffff && -0x8000_0000
            <= x && x <= 0x7fff_ffff && -0x8000_0000 <= y && y <= 0x7fff_ffff {
            Ok(
                CapturePlan::Compositor(
                    CaptureRect {
                        x: x as i32,
                        y: y as i32,
                        width: width as i32,
                        height: height as i32,
                    },
                ),
            )
        } else {
            Err(CaptureError::InvalidRegion)
        }
    } else if -0x8000 <= x && x <= 0x7fff && -0x8000 <= y && y <= 0x7fff {
        match image_request(x as i32, y as i32, width, height) {
            Ok(req) => Ok(CapturePlan::XServer(req)),
            Err(e) => Err(e),
        }
    } else {
        Err(CaptureError::InvalidRegion)
    }
}

/// Plans the capture of a whole monitor.
pub fn plan_monitor_capture(monitor: MonitorGeometry, compositor: bool) -> (r: Result<
    CapturePlan,
    CaptureError,
>)
    ensures
        r == plan_for(
            monitor.x as int,
            monitor.y as int,
            monitor.width as int,
            monitor.height as int,
            compositor,
        ),
{
    plan_desktop_rect(monitor.x as i64, monitor.y as i64, monitor.width, monitor.height, compositor)
}

/// Plans the capture of the rectangle at (`x`, `y`) relative to a monitor's
/// origin: the rectangle is moved by that origin onto the desktop.
pub fn plan_region_capture(
    monitor: MonitorGeometry,
    x: i32,
    y: i32,
    width: u32,
    height: u32,
    compositor: bool,
) -> (r: Result<CapturePlan, CaptureError>)
    ensures
        r == plan_for(monitor.x + x, monitor.y + y, width as int, height as int, compositor),
{
    plan_desktop_rect(
        monitor.x as i64 + x as i64,
        monitor.y as i64 + y as i64,
        width,
        height,
        compositor,
    )
}

/// Plans the capture of a whole window: its own content from its origin.
pub fn plan_window_capture(width: u32, height: u32) -> (r: Result<ImageRequest, CaptureError>)
    ensures
        r == request_for(0, 0, width as int, height as int),
{
    image_request(0, 0, width, height)
}

} // verus!
