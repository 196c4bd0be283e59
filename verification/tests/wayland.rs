use slope::wayland::{DisplayLease, InputKind, InputRecord, PixelFormat, SurfaceLease, WAYLAND_WIRE_VERSION};

const DISPLAY: DisplayLease = DisplayLease {
    version: WAYLAND_WIRE_VERSION,
    format: PixelFormat::Bgra8888,
    width: 1280,
    height: 800,
    pitch: 5120,
    generation: 7,
    capability: 11,
};

#[test]
fn display_and_surface_records_bind_to_one_generation() {
    assert!(DISPLAY.valid());
    let surface = SurfaceLease {
        surface_id: 1,
        buffer_id: 2,
        x: 0,
        y: 0,
        width: 640,
        height: 400,
        stride: 2560,
        generation: 7,
        capability: 12,
    };
    assert!(surface.valid_for(DISPLAY));
    assert!(
        !SurfaceLease {
            generation: 8,
            ..surface
        }
        .valid_for(DISPLAY)
    );
}

#[test]
fn malformed_records_fail_closed() {
    assert!(
        !DisplayLease {
            pitch: 1,
            ..DISPLAY
        }
        .valid()
    );
    assert!(
        !InputRecord {
            kind: InputKind::Motion,
            state: 0,
            reserved: [0; 2],
            code: 0,
            x: 0,
            y: 0,
            value: 0,
            serial: 0,
        }
        .valid()
    );
    assert!(
        InputRecord {
            kind: InputKind::Touch,
            state: 1,
            reserved: [0; 2],
            code: 0,
            x: 100,
            y: 200,
            value: 0,
            serial: 1,
        }
        .valid()
    );
    assert!(
        InputRecord {
            kind: InputKind::Gesture,
            state: 1,
            reserved: [0; 2],
            code: 0,
            x: 0,
            y: 0,
            value: 0,
            serial: 2,
        }
        .valid()
    );
}

#[test]
fn pitch_saturates_for_huge_widths() {
    let huge = DisplayLease {
        width: u32::MAX,
        pitch: u32::MAX,
        ..DISPLAY
    };
    assert!(huge.valid());
    assert!(!DisplayLease { pitch: u32::MAX - 1, ..huge }.valid());
    assert!(!DisplayLease { generation: 0, ..DISPLAY }.valid());
    let surface = SurfaceLease {
        surface_id: 1,
        buffer_id: 1,
        x: -5,
        y: -5,
        width: 1,
        height: 1,
        stride: 3,
        generation: 7,
        capability: 1,
    };
    assert!(!surface.valid_for(DISPLAY));
    assert!(SurfaceLease { stride: 4, ..surface }.valid_for(DISPLAY));
    assert!(!SurfaceLease { stride: 4, ..surface }.valid_for(DisplayLease { height: 0, ..DISPLAY }));
}
