use neopult::screen::{
    choose_output_mode, is_vnc_output, new_mode, plan_screen_resize, resize_steps,
    InvalidResolution, ModeChoice, ModeInfo, NewMode, ResizeStep, ScreenSizeRange,
};

fn range() -> ScreenSizeRange {
    ScreenSizeRange { min_width: 32, min_height: 16, max_width: 8192, max_height: 4096 }
}

fn screen(width: u16, height: u16) -> ResizeStep {
    ResizeStep::SetScreenSize { width, height }
}

fn output(width: u16, height: u16) -> ResizeStep {
    ResizeStep::SetOutputSize { width, height }
}

#[test]
fn no_step_where_the_size_stays() {
    assert_eq!(resize_steps(800, 600, 800, 600), vec![]);
    assert_eq!(plan_screen_resize(&range(), 800, 600, 800, 600), Ok(vec![]));
}

#[test]
fn growing_sets_screen_then_output() {
    assert_eq!(resize_steps(800, 600, 1024, 768), vec![screen(1024, 768), output(1024, 768)]);
    assert_eq!(resize_steps(800, 600, 1024, 600), vec![screen(1024, 600), output(1024, 600)]);
}

#[test]
fn shrinking_shrinks_the_output_first() {
    assert_eq!(
        resize_steps(1024, 768, 800, 600),
        vec![output(800, 600), screen(800, 600), output(800, 600)]
    );
    assert_eq!(
        resize_steps(1024, 768, 1024, 600),
        vec![output(1024, 600), screen(1024, 600), output(1024, 600)]
    );
}

#[test]
fn mixed_changes_grow_the_screen_first() {
    assert_eq!(
        resize_steps(200, 300, 300, 200),
        vec![screen(300, 300), output(300, 200), screen(300, 200), output(300, 200)]
    );
    assert_eq!(
        resize_steps(300, 200, 200, 300),
        vec![screen(300, 300), output(200, 300), screen(200, 300), output(200, 300)]
    );
}

fn stays_within(steps: &[ResizeStep], start: (u16, u16), target: (u16, u16)) -> bool {
    let mut s = start;
    let mut o = start;
    for step in steps {
        match *step {
            ResizeStep::SetScreenSize { width, height } => {
                if o.0 > width || o.1 > height {
                    return false;
                }
                s = (width, height);
            }
            ResizeStep::SetOutputSize { width, height } => {
                if width > s.0 || height > s.1 {
                    return false;
                }
                o = (width, height);
            }
        }
    }
    s == target && o == target
}

#[test]
fn every_step_keeps_the_output_within_the_screen() {
    let sizes = [(32u16, 16u16), (200, 300), (300, 200), (800, 600), (1024, 768), (65535, 1)];
    for a in sizes {
        for b in sizes {
            assert!(stays_within(&resize_steps(a.0, a.1, b.0, b.1), a, b));
        }
    }
}

#[test]
fn sizes_outside_the_bounds_are_turned_down() {
    let r = range();
    let err = |width, height| Err(InvalidResolution { width, height, range: r });
    assert_eq!(plan_screen_resize(&r, 800, 600, 31, 600), err(31, 600));
    assert_eq!(plan_screen_resize(&r, 800, 600, 8193, 600), err(8193, 600));
    assert_eq!(plan_screen_resize(&r, 800, 600, 800, 15), err(800, 15));
    assert_eq!(plan_screen_resize(&r, 800, 600, 800, 4097), err(800, 4097));
    assert!(plan_screen_resize(&r, 800, 600, 32, 16).is_ok());
    assert!(plan_screen_resize(&r, 800, 600, 8192, 4096).is_ok());
    assert!(plan_screen_resize(&r, 800, 600, 40, 20).is_ok());
    assert!(r.contains(32, 16));
    assert!(!r.contains(32, 15));
}

#[test]
fn a_new_mode_for_a_size() {
    assert_eq!(
        new_mode(1920, 1080),
        NewMode {
            name: "1920x1080".to_string(),
            width: 1920,
            height: 1080,
            dot_clock: 124416000,
            hsync_start: 0,
            hsync_end: 0,
            htotal: 1920,
            hskew: 0,
            vsync_start: 0,
            vsync_end: 0,
            vtotal: 1080,
        }
    );
    assert_eq!(new_mode(65535, 65535).dot_clock, 257690173500);
    assert_eq!(new_mode(0, 5).name, "0x5");
    assert_eq!(new_mode(0, 5).dot_clock, 0);
}

#[test]
fn an_existing_mode_is_preferred() {
    let modes = vec![
        ModeInfo { id: 70, width: 1024, height: 768 },
        ModeInfo { id: 71, width: 800, height: 600 },
        ModeInfo { id: 72, width: 800, height: 600 },
    ];
    assert_eq!(choose_output_mode(&modes, 800, 600), ModeChoice::Existing { id: 71 });
    assert_eq!(choose_output_mode(&modes, 1024, 768), ModeChoice::Existing { id: 70 });
    assert_eq!(choose_output_mode(&modes, 600, 800), ModeChoice::Create(new_mode(600, 800)));
    assert_eq!(choose_output_mode(&vec![], 1, 1), ModeChoice::Create(new_mode(1, 1)));
}

#[test]
fn vnc_outputs_are_named_vnc() {
    assert!(is_vnc_output("VNC-0"));
    assert!(is_vnc_output("VNC"));
    assert!(!is_vnc_output("vnc-0"));
    assert!(!is_vnc_output("HDMI-VNC"));
    assert!(!is_vnc_output("VN"));
    assert!(!is_vnc_output(""));
}
