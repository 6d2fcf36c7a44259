use neopult::geometry::{
    AlignedGeometry, Alignment, Margin, MinGeometry, Mode, PrimaryDemotionAction, MAX_Z, MIN_Z,
};
use neopult::screen::{InvalidResolution, ResizeStep, ScreenSizeRange};
use neopult::window_manager::{
    VirtualWindowCallbacks, WindowManager, WindowProperties, WindowTarget, WindowVariant,
    WmAction, WmError,
};

fn range() -> ScreenSizeRange {
    ScreenSizeRange { min_width: 32, min_height: 32, max_width: 8192, max_height: 4096 }
}

fn manager() -> WindowManager {
    WindowManager::init(1024, 768, range(), "VNC-0").unwrap()
}

fn callbacks(base: u64) -> VirtualWindowCallbacks {
    VirtualWindowCallbacks { set_geometry_key: base, map_key: base + 1, unmap_key: base + 2 }
}

fn no_margin() -> Margin {
    Margin::default()
}

fn full(width: u16, height: u16) -> MinGeometry {
    MinGeometry::Fixed(AlignedGeometry::from_width_height(width, height))
}

#[test]
fn init_needs_a_vnc_output() {
    assert_eq!(WindowManager::init(800, 600, range(), "HDMI-1").err(), Some(WmError::NotVnc));
    assert_eq!(WindowManager::init(800, 600, range(), "").err(), Some(WmError::NotVnc));
    let wm = WindowManager::init(800, 600, range(), "VNC-0").unwrap();
    assert_eq!(wm.screen_size(), (800, 600));
    assert_eq!(wm.primary_window(), None);
}

#[test]
fn managing_an_x_window_marks_and_places_it() {
    let mut wm = manager();
    let (id, actions) = wm.manage_x_window(77, MinGeometry::default()).unwrap();
    assert_eq!(id, 0);
    assert_eq!(
        actions,
        vec![
            WmAction::MarkManaged { window: 77 },
            WmAction::Place {
                wid: 0,
                target: WindowTarget::X { window: 77 },
                placement: MinGeometry::default(),
                z: MIN_Z,
                screen_width: 1024,
                screen_height: 768,
            },
        ]
    );
    let w = wm.window(0).unwrap();
    assert_eq!(w.id(), 0);
    assert_eq!(w.mode(), Mode::Min);
    assert_eq!(w.variant(), &WindowVariant::XWindow { window: 77 });
    let (second, _) = wm.manage_x_window(78, MinGeometry::default()).unwrap();
    assert_eq!(second, 1);
}

#[test]
fn managing_a_virtual_window_places_it_through_its_callback() {
    let mut wm = manager();
    let min = MinGeometry::from_str("400x300+200-100").unwrap();
    let (id, actions) = wm
        .manage_virtual_window("cam".to_string(), callbacks(10), min, PrimaryDemotionAction::Hide)
        .unwrap();
    assert_eq!(id, 0);
    assert_eq!(
        actions,
        vec![WmAction::Place {
            wid: 0,
            target: WindowTarget::Virtual { callback: 10 },
            placement: min,
            z: MIN_Z,
            screen_width: 1024,
            screen_height: 768,
        }]
    );
}

#[test]
fn primary_single_tenancy() {
    let mut wm = manager();
    let min_a = MinGeometry::from_str("480x360-0-0").unwrap();
    let min_b = MinGeometry::from_str("320x240+0+0").unwrap();
    let (a, _) = wm
        .manage_virtual_window("A".to_string(), callbacks(10), min_a, PrimaryDemotionAction::default())
        .unwrap();
    let (b, _) = wm
        .manage_virtual_window("B".to_string(), callbacks(20), min_b, PrimaryDemotionAction::default())
        .unwrap();

    let first = wm.max_window(a, (1280, 720), no_margin()).unwrap();
    assert!(wm.is_primary_window(a));
    assert_eq!(wm.screen_size(), (1280, 720));
    assert_eq!(
        first,
        vec![
            WmAction::Place {
                wid: a,
                target: WindowTarget::Virtual { callback: 10 },
                placement: full(1280, 720),
                z: MAX_Z,
                screen_width: 1024,
                screen_height: 768,
            },
            WmAction::Resize(ResizeStep::SetScreenSize { width: 1280, height: 768 }),
            WmAction::Resize(ResizeStep::SetOutputSize { width: 1280, height: 720 }),
            WmAction::Resize(ResizeStep::SetScreenSize { width: 1280, height: 720 }),
            WmAction::Resize(ResizeStep::SetOutputSize { width: 1280, height: 720 }),
            WmAction::Place {
                wid: b,
                target: WindowTarget::Virtual { callback: 20 },
                placement: min_b,
                z: MIN_Z,
                screen_width: 1280,
                screen_height: 720,
            },
        ]
    );

    let second = wm.max_window(b, (1920, 1080), no_margin()).unwrap();
    assert!(!wm.is_primary_window(a));
    assert!(wm.is_primary_window(b));
    assert_eq!(wm.screen_size(), (1920, 1080));
    assert_eq!(wm.window(a).unwrap().mode(), Mode::Min);
    assert_eq!(wm.window(b).unwrap().mode(), Mode::Max { width: 1920, height: 1080 });
    assert_eq!(
        second,
        vec![
            WmAction::Place {
                wid: b,
                target: WindowTarget::Virtual { callback: 20 },
                placement: full(1920, 1080),
                z: MAX_Z,
                screen_width: 1280,
                screen_height: 720,
            },
            WmAction::Resize(ResizeStep::SetScreenSize { width: 1920, height: 1080 }),
            WmAction::Resize(ResizeStep::SetOutputSize { width: 1920, height: 1080 }),
            WmAction::Place {
                wid: a,
                target: WindowTarget::Virtual { callback: 10 },
                placement: min_a,
                z: MIN_Z,
                screen_width: 1920,
                screen_height: 1080,
            },
        ]
    );
}

#[test]
fn max_of_an_x_window_keeps_the_margin_free() {
    let mut wm = manager();
    let (id, _) = wm.manage_x_window(5, MinGeometry::default()).unwrap();
    let margin = Margin { top: 40, right: 10, bottom: 20, left: 30 };
    let actions = wm.max_window(id, (1024, 768), margin).unwrap();
    assert_eq!(
        actions,
        vec![WmAction::Place {
            wid: id,
            target: WindowTarget::X { window: 5 },
            placement: MinGeometry::Fixed(AlignedGeometry {
                x_offset: 30,
                y_offset: 40,
                width: 1024,
                height: 768,
                alignment: Alignment::TopLeft,
            }),
            z: MAX_Z,
            screen_width: 1024,
            screen_height: 768,
        }]
    );
    assert_eq!(wm.screen_size(), (1024, 768));
    assert!(wm.is_primary_window(id));
}

#[test]
fn max_of_a_virtual_window_ignores_the_margin() {
    let mut wm = manager();
    let (id, _) = wm
        .manage_virtual_window("v".to_string(), callbacks(1), MinGeometry::default(), PrimaryDemotionAction::Minimize)
        .unwrap();
    let margin = Margin { top: 40, right: 10, bottom: 20, left: 30 };
    let actions = wm.max_window(id, (1024, 768), margin).unwrap();
    assert_eq!(
        actions[0],
        WmAction::Place {
            wid: id,
            target: WindowTarget::Virtual { callback: 1 },
            placement: full(1024, 768),
            z: MAX_Z,
            screen_width: 1024,
            screen_height: 768,
        }
    );
}

#[test]
fn max_shows_a_hidden_window_first() {
    let mut wm = manager();
    let (id, _) = wm.manage_x_window(5, MinGeometry::default()).unwrap();
    assert_eq!(
        wm.hide_window(id).unwrap(),
        vec![WmAction::UnmapWindow { wid: id, target: WindowTarget::X { window: 5 } }]
    );
    assert_eq!(wm.window(id).unwrap().mode(), Mode::Hidden);
    let actions = wm.max_window(id, (640, 480), no_margin()).unwrap();
    assert_eq!(actions[0], WmAction::MapWindow { wid: id, target: WindowTarget::X { window: 5 } });
    assert_eq!(wm.screen_size(), (640, 480));
}

#[test]
fn a_primary_that_hides_on_demotion_is_unmapped() {
    let mut wm = manager();
    let (a, _) = wm
        .manage_virtual_window("a".to_string(), callbacks(10), MinGeometry::default(), PrimaryDemotionAction::Hide)
        .unwrap();
    let (b, _) = wm.manage_x_window(9, MinGeometry::default()).unwrap();
    wm.max_window(a, (1024, 768), no_margin()).unwrap();
    let actions = wm.max_window(b, (1024, 768), no_margin()).unwrap();
    assert_eq!(
        actions,
        vec![
            WmAction::UnmapWindow { wid: a, target: WindowTarget::Virtual { callback: 12 } },
            WmAction::Place {
                wid: b,
                target: WindowTarget::X { window: 9 },
                placement: full(1024, 768),
                z: MAX_Z,
                screen_width: 1024,
                screen_height: 768,
            },
        ]
    );
    assert_eq!(wm.window(a).unwrap().mode(), Mode::Hidden);
    assert_eq!(wm.primary_window(), Some(b));
}

#[test]
fn max_refuses_unknown_windows_and_invalid_sizes() {
    let mut wm = manager();
    assert_eq!(
        wm.max_window(3, (640, 480), no_margin()),
        Err(WmError::NotManaged { id: 3 })
    );
    let (id, _) = wm.manage_x_window(5, MinGeometry::default()).unwrap();
    let too_low = wm.max_window(id, (640, 16), no_margin());
    assert_eq!(
        too_low,
        Err(WmError::InvalidResolution(InvalidResolution { width: 640, height: 16, range: range() }))
    );
    let too_wide = wm.max_window(id, (9000, 480), no_margin());
    assert_eq!(
        too_wide,
        Err(WmError::InvalidResolution(InvalidResolution { width: 9000, height: 480, range: range() }))
    );
    assert_eq!(wm.primary_window(), None);
    assert_eq!(wm.screen_size(), (1024, 768));
    assert_eq!(wm.window(id).unwrap().mode(), Mode::Min);
}

#[test]
fn height_is_checked_against_the_height_bounds() {
    let narrow = ScreenSizeRange { min_width: 600, min_height: 100, max_width: 2000, max_height: 1200 };
    let mut wm = WindowManager::init(1024, 768, narrow, "VNC-0").unwrap();
    let (id, _) = wm.manage_x_window(5, MinGeometry::default()).unwrap();
    assert!(wm.max_window(id, (800, 200), no_margin()).is_ok());
    assert_eq!(wm.screen_size(), (800, 200));
}

#[test]
fn min_of_the_primary_leaves_no_primary() {
    let mut wm = manager();
    let min = MinGeometry::from_str("100x100+0+0").unwrap();
    let (id, _) = wm.manage_x_window(5, min).unwrap();
    wm.max_window(id, (640, 480), no_margin()).unwrap();
    let place = WmAction::Place {
        wid: id,
        target: WindowTarget::X { window: 5 },
        placement: min,
        z: MIN_Z,
        screen_width: 640,
        screen_height: 480,
    };
    assert_eq!(wm.min_window(id).unwrap(), vec![place, place]);
    assert_eq!(wm.primary_window(), None);
    assert!(!wm.is_primary_window(id));
    assert_eq!(wm.screen_size(), (640, 480));
    assert_eq!(wm.window(id).unwrap().mode(), Mode::Min);
}

#[test]
fn min_of_a_hidden_window_shows_it() {
    let mut wm = manager();
    let (id, _) = wm.manage_x_window(5, MinGeometry::default()).unwrap();
    wm.hide_window(id).unwrap();
    assert_eq!(
        wm.min_window(id).unwrap(),
        vec![
            WmAction::MapWindow { wid: id, target: WindowTarget::X { window: 5 } },
            WmAction::Place {
                wid: id,
                target: WindowTarget::X { window: 5 },
                placement: MinGeometry::default(),
                z: MIN_Z,
                screen_width: 1024,
                screen_height: 768,
            },
        ]
    );
}

#[test]
fn hide_of_the_primary_repositions_the_rest() {
    let mut wm = manager();
    let (a, _) = wm.manage_x_window(5, MinGeometry::default()).unwrap();
    let (b, _) = wm.manage_x_window(6, MinGeometry::default()).unwrap();
    wm.max_window(a, (640, 480), no_margin()).unwrap();
    assert_eq!(
        wm.hide_window(a).unwrap(),
        vec![
            WmAction::UnmapWindow { wid: a, target: WindowTarget::X { window: 5 } },
            WmAction::Place {
                wid: b,
                target: WindowTarget::X { window: 6 },
                placement: MinGeometry::default(),
                z: MIN_Z,
                screen_width: 640,
                screen_height: 480,
            },
        ]
    );
    assert_eq!(wm.primary_window(), None);
    assert_eq!(wm.hide_window(a).unwrap(), vec![]);
}

#[test]
fn release_forgets_the_window() {
    let mut wm = manager();
    let (a, _) = wm.manage_x_window(5, MinGeometry::default()).unwrap();
    let (b, _) = wm.manage_x_window(6, MinGeometry::default()).unwrap();
    wm.max_window(a, (640, 480), no_margin()).unwrap();
    let actions = wm.release_window(a).unwrap();
    assert_eq!(actions.len(), 1);
    assert_eq!(wm.primary_window(), None);
    assert!(wm.window(a).is_none());
    assert_eq!(wm.ensure_managed(a), Err(WmError::NotManaged { id: a }));
    assert_eq!(wm.ensure_managed(b), Ok(()));
    assert_eq!(wm.release_window(a), Err(WmError::NotManaged { id: a }));
    let (c, _) = wm.manage_x_window(7, MinGeometry::default()).unwrap();
    assert_eq!(c, 2);
}

#[test]
fn operations_on_unknown_windows_fail() {
    let mut wm = manager();
    assert_eq!(wm.min_window(0), Err(WmError::NotManaged { id: 0 }));
    assert_eq!(wm.hide_window(4), Err(WmError::NotManaged { id: 4 }));
    assert_eq!(wm.release_window(9), Err(WmError::NotManaged { id: 9 }));
}

#[test]
fn at_most_one_primary_after_a_sequence_of_calls() {
    let mut wm = manager();
    let mut ids = Vec::new();
    for n in 0..4u32 {
        ids.push(wm.manage_x_window(100 + n, MinGeometry::default()).unwrap().0);
    }
    let sizes = [(640u16, 480u16), (800, 600), (1280, 720), (1920, 1080)];
    for step in 0..40usize {
        let id = ids[(step * 7 + 3) % 4];
        let _ = match step % 5 {
            0 | 3 => wm.max_window(id, sizes[step % 4], no_margin()),
            1 => wm.min_window(id),
            2 => wm.hide_window(id),
            _ => wm.release_window(id),
        };
        let primaries: Vec<usize> =
            ids.iter().copied().filter(|i| wm.is_primary_window(*i)).collect();
        assert!(primaries.len() <= 1);
        if let Some(p) = primaries.first() {
            let (w, h) = wm.screen_size();
            assert_eq!(wm.window(*p).unwrap().mode(), Mode::Max { width: w, height: h });
        }
    }
}

#[test]
fn reposition_places_primary_and_min_windows() {
    let mut wm = manager();
    let (a, _) = wm.manage_x_window(5, MinGeometry::default()).unwrap();
    let (b, _) = wm.manage_x_window(6, MinGeometry::default()).unwrap();
    let (c, _) = wm.manage_x_window(7, MinGeometry::default()).unwrap();
    wm.max_window(b, (800, 600), no_margin()).unwrap();
    wm.hide_window(c).unwrap();
    assert_eq!(
        wm.reposition_windows(),
        vec![
            WmAction::Place {
                wid: b,
                target: WindowTarget::X { window: 6 },
                placement: full(800, 600),
                z: MAX_Z,
                screen_width: 800,
                screen_height: 600,
            },
            WmAction::Place {
                wid: a,
                target: WindowTarget::X { window: 5 },
                placement: MinGeometry::default(),
                z: MIN_Z,
                screen_width: 800,
                screen_height: 600,
            },
        ]
    );
}

fn props(window: u32, class: Option<&str>, hint: Option<&str>) -> WindowProperties {
    WindowProperties {
        window,
        class: class.map(|s| s.to_string()),
        managed_hint: hint.map(|s| s.to_string()),
    }
}

#[test]
fn claims_the_first_unmanaged_window_of_the_class() {
    let children = vec![
        props(1, Some("xterm\0XTerm\0"), Some("")),
        props(2, None, None),
        props(3, Some("ssvncviewer\0Ssvnc\0"), Some("MANAGED")),
        props(4, Some("ssvncviewer\0Ssvnc\0"), Some("")),
        props(5, Some("ssvncviewer\0Ssvnc\0"), Some("")),
    ];
    assert_eq!(WindowManager::get_window_by_class(&children, "ssvnc", false), Ok(Some(4)));
    assert_eq!(WindowManager::get_window_by_class(&children, "ssvnc", true), Ok(Some(3)));
    assert_eq!(WindowManager::get_window_by_class(&children, "XTerm", false), Ok(Some(1)));
    assert_eq!(WindowManager::get_window_by_class(&children, "firefox", false), Ok(None));
    assert_eq!(WindowManager::get_window_by_class(&children, "", false), Ok(Some(1)));
    assert_eq!(WindowManager::get_window_by_class(&Vec::new(), "x", false), Ok(None));
}

#[test]
fn claiming_fails_where_the_mark_is_not_known() {
    let children = vec![props(8, Some("zoom"), None), props(9, Some("zoom"), Some(""))];
    assert_eq!(
        WindowManager::get_window_by_class(&children, "zoom", false),
        Err(WmError::PropertyUnavailable { window: 8 })
    );
    assert_eq!(WindowManager::get_window_by_class(&children, "zoom", true), Ok(Some(8)));
}

#[test]
fn a_reported_screen_size_is_where_the_next_change_starts() {
    let mut wm = manager();
    let (id, _) = wm.manage_x_window(5, MinGeometry::default()).unwrap();
    wm.max_window(id, (1280, 720), no_margin()).unwrap();
    assert_eq!(wm.screen_size(), (1280, 720));

    // The server kept the old size: the manager is told, and repositioning asks again.
    wm.screen_reported(1024, 768);
    assert_eq!(wm.screen_size(), (1024, 768));
    assert_eq!(wm.primary_window(), Some(id));
    assert_eq!(wm.window(id).unwrap().mode(), Mode::Max { width: 1280, height: 720 });
    assert_eq!(
        wm.reposition_windows(),
        vec![
            WmAction::Place {
                wid: id,
                target: WindowTarget::X { window: 5 },
                placement: full(1280, 720),
                z: MAX_Z,
                screen_width: 1024,
                screen_height: 768,
            },
            WmAction::Resize(ResizeStep::SetScreenSize { width: 1280, height: 768 }),
            WmAction::Resize(ResizeStep::SetOutputSize { width: 1280, height: 720 }),
            WmAction::Resize(ResizeStep::SetScreenSize { width: 1280, height: 720 }),
            WmAction::Resize(ResizeStep::SetOutputSize { width: 1280, height: 720 }),
        ]
    );
    assert_eq!(wm.screen_size(), (1280, 720));
    assert_eq!(wm.reposition_windows().len(), 1);
}

#[test]
fn a_report_without_a_primary_only_changes_the_size() {
    let mut wm = manager();
    let (id, _) = wm.manage_x_window(5, MinGeometry::default()).unwrap();
    wm.screen_reported(640, 480);
    assert_eq!(wm.screen_size(), (640, 480));
    assert_eq!(wm.primary_window(), None);
    assert_eq!(
        wm.reposition_windows(),
        vec![WmAction::Place {
            wid: id,
            target: WindowTarget::X { window: 5 },
            placement: MinGeometry::default(),
            z: MIN_Z,
            screen_width: 640,
            screen_height: 480,
        }]
    );
}
