use xcap_decode::dispatch::{
    image_request, plan_monitor_capture, plan_region_capture, plan_window_capture, CapturePlan,
    CaptureRect, ImageRequest, MonitorGeometry,
};
use xcap_decode::error::CaptureError;
use xcap_decode::pixel::ByteOrder;
use xcap_decode::reply::{decode_reply_rgba, PixmapFormat};

const SECOND: MonitorGeometry = MonitorGeometry { x: 1920, y: -200, width: 1280, height: 1024 };

#[test]
fn region_is_moved_by_monitor_origin() {
    assert_eq!(
        plan_region_capture(SECOND, 10, 20, 400, 300, false),
        Ok(CapturePlan::XServer(ImageRequest { x: 1930, y: -180, width: 400, height: 300 }))
    );
    assert_eq!(
        plan_region_capture(SECOND, 10, 20, 400, 300, true),
        Ok(CapturePlan::Compositor(CaptureRect { x: 1930, y: -180, width: 400, height: 300 }))
    );
}

#[test]
fn whole_monitor_plan() {
    assert_eq!(
        plan_monitor_capture(SECOND, false),
        Ok(CapturePlan::XServer(ImageRequest { x: 1920, y: -200, width: 1280, height: 1024 }))
    );
    assert_eq!(
        plan_monitor_capture(SECOND, true),
        Ok(CapturePlan::Compositor(CaptureRect { x: 1920, y: -200, width: 1280, height: 1024 }))
    );
}

#[test]
fn empty_region_is_refused() {
    assert_eq!(plan_region_capture(SECOND, 0, 0, 0, 300, false), Err(CaptureError::InvalidRegion));
    assert_eq!(plan_region_capture(SECOND, 0, 0, 400, 0, true), Err(CaptureError::InvalidRegion));
    assert_eq!(plan_window_capture(0, 10), Err(CaptureError::InvalidRegion));
}

#[test]
fn region_outside_wire_range_is_refused() {
    assert_eq!(
        plan_region_capture(SECOND, 31_000, 0, 10, 10, false),
        Err(CaptureError::InvalidRegion)
    );
    assert_eq!(image_request(0, 0, 65_536, 1), Err(CaptureError::InvalidRegion));
    assert_eq!(image_request(-32_769, 0, 1, 1), Err(CaptureError::InvalidRegion));
    assert_eq!(
        image_request(-32_768, 32_767, 65_535, 1),
        Ok(ImageRequest { x: -32_768, y: 32_767, width: 65_535, height: 1 })
    );
    let far = MonitorGeometry { x: i32::MAX, y: 0, width: 10, height: 10 };
    assert_eq!(plan_region_capture(far, 1, 0, 10, 10, true), Err(CaptureError::InvalidRegion));
}

#[test]
fn window_plan_starts_at_origin() {
    assert_eq!(
        plan_window_capture(640, 480),
        Ok(ImageRequest { x: 0, y: 0, width: 640, height: 480 })
    );
}

#[test]
fn region_400_by_300_through_x_path() {
    let primary = MonitorGeometry { x: 0, y: 0, width: 1920, height: 1080 };
    let req = match plan_region_capture(primary, 100, 50, 400, 300, false) {
        Ok(CapturePlan::XServer(req)) => req,
        other => panic!("unexpected plan {:?}", other),
    };
    assert_eq!(req, ImageRequest { x: 100, y: 50, width: 400, height: 300 });
    let data = vec![0u8; req.width as usize * req.height as usize * 4];
    let formats = [PixmapFormat { depth: 24, bits_per_pixel: 32 }];
    let img = decode_reply_rgba(
        &data,
        24,
        &formats,
        ByteOrder::LsbFirst,
        req.width as u32,
        req.height as u32,
    )
    .unwrap();
    assert_eq!(img.image.width(), 400);
    assert_eq!(img.image.height(), 300);
}
