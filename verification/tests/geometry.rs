use neopult::geometry::{
    AlignedGeometry, Alignment, Geometry, GeometryParseError, Margin, MinGeometry,
    PrimaryDemotionAction,
};

#[test]
fn test_aligned_geometry_from_str() {
    let s = "400x300+200-100";
    let min_position = AlignedGeometry::from_str(s).unwrap();
    assert_eq!(
        min_position,
        AlignedGeometry {
            width: 400,
            height: 300,
            x_offset: 200,
            y_offset: 100,
            alignment: Alignment::BottomLeft
        }
    );

    let s = "480x360-0-0";
    let min_position = AlignedGeometry::from_str(s).unwrap();
    assert_eq!(
        min_position,
        AlignedGeometry {
            width: 480,
            height: 360,
            x_offset: 0,
            y_offset: 0,
            alignment: Alignment::BottomRight
        }
    );

    let s = "";
    assert!(AlignedGeometry::from_str(s).is_err());

    let s = "-100x-100-0-0";
    assert!(AlignedGeometry::from_str(s).is_err());

    let s = "480x360";
    assert!(AlignedGeometry::from_str(s).is_err());

    let s = "100x100-0-0 ";
    assert!(AlignedGeometry::from_str(s).is_err());
}

#[test]
fn geometry_signs_select_each_corner() {
    let corner = |s: &str| AlignedGeometry::from_str(s).unwrap().alignment;
    assert_eq!(corner("1x2+3+4"), Alignment::TopLeft);
    assert_eq!(corner("1x2-3+4"), Alignment::TopRight);
    assert_eq!(corner("1x2-3-4"), Alignment::BottomRight);
    assert_eq!(corner("1x2+3-4"), Alignment::BottomLeft);
}

#[test]
fn geometry_keeps_all_four_numbers() {
    let g = AlignedGeometry::from_str("65535x0010-7+65535").unwrap();
    assert_eq!(
        g,
        AlignedGeometry {
            width: 65535,
            height: 10,
            x_offset: 7,
            y_offset: 65535,
            alignment: Alignment::TopRight
        }
    );
}

#[test]
fn geometry_errors_name_the_first_shortcoming() {
    let err = |s: &str| AlignedGeometry::from_str(s).unwrap_err();
    assert_eq!(err(""), GeometryParseError::MissingWidthSeparator);
    assert_eq!(err("480"), GeometryParseError::MissingWidthSeparator);
    assert_eq!(err("-100x-100-0-0"), GeometryParseError::WidthNotNumeric);
    assert_eq!(err("x360-0-0"), GeometryParseError::WidthNotNumeric);
    assert_eq!(err("65536x360-0-0"), GeometryParseError::WidthNotNumeric);
    assert_eq!(err(" 480x360-0-0"), GeometryParseError::WidthNotNumeric);
    assert_eq!(err("480x360"), GeometryParseError::MissingXOffsetSign);
    assert_eq!(err("480x-0-0"), GeometryParseError::HeightNotNumeric);
    assert_eq!(err("480x3a0-0-0"), GeometryParseError::HeightNotNumeric);
    assert_eq!(err("480x360-0"), GeometryParseError::MissingYOffsetSign);
    assert_eq!(err("480x360--0"), GeometryParseError::XOffsetNotNumeric);
    assert_eq!(err("480x360-0-"), GeometryParseError::YOffsetNotNumeric);
    assert_eq!(err("100x100-0-0 "), GeometryParseError::YOffsetNotNumeric);
    assert_eq!(err("100x100-0-0-0"), GeometryParseError::YOffsetNotNumeric);
    assert_eq!(err("100x100-0-70000"), GeometryParseError::YOffsetNotNumeric);
}

#[test]
fn geometry_error_messages() {
    assert_eq!(
        GeometryParseError::MissingWidthSeparator.message(),
        "expected 'x' after width"
    );
    assert_eq!(GeometryParseError::WidthNotNumeric.message(), "width is not numeric");
    assert_eq!(
        GeometryParseError::MissingXOffsetSign.message(),
        "expected '+' or '-' after height"
    );
    assert_eq!(GeometryParseError::HeightNotNumeric.message(), "height is not numeric");
    assert_eq!(
        GeometryParseError::MissingYOffsetSign.message(),
        "expected '+' or '-' after x offset"
    );
    assert_eq!(GeometryParseError::XOffsetNotNumeric.message(), "x offset is not numeric");
    assert_eq!(GeometryParseError::YOffsetNotNumeric.message(), "y offset is not numeric");
}

#[test]
fn alignment_tags() {
    assert_eq!(Alignment::TopLeft.to_string(), "lt");
    assert_eq!(Alignment::TopRight.to_string(), "rt");
    assert_eq!(Alignment::BottomRight.to_string(), "rb");
    assert_eq!(Alignment::BottomLeft.to_string(), "lb");
    assert_eq!(Alignment::from_tag("lt"), Some(Alignment::TopLeft));
    assert_eq!(Alignment::from_tag("rt"), Some(Alignment::TopRight));
    assert_eq!(Alignment::from_tag("rb"), Some(Alignment::BottomRight));
    assert_eq!(Alignment::from_tag("lb"), Some(Alignment::BottomLeft));
    assert_eq!(Alignment::from_tag("tl"), None);
    assert_eq!(Alignment::from_tag(""), None);
}

#[test]
fn full_screen_placement() {
    assert_eq!(
        AlignedGeometry::from_width_height(1280, 720),
        AlignedGeometry {
            x_offset: 0,
            y_offset: 0,
            width: 1280,
            height: 720,
            alignment: Alignment::TopLeft
        }
    );
}

#[test]
fn absolute_placement_counts_from_the_aligned_corner() {
    let at = |alignment| {
        AlignedGeometry { x_offset: 10, y_offset: 20, width: 480, height: 360, alignment }
            .into_geometry(1920, 1080)
    };
    assert_eq!(at(Alignment::TopLeft), Geometry { x: 10, y: 20, width: 480, height: 360 });
    assert_eq!(at(Alignment::TopRight), Geometry { x: 1430, y: 20, width: 480, height: 360 });
    assert_eq!(at(Alignment::BottomRight), Geometry { x: 1430, y: 700, width: 480, height: 360 });
    assert_eq!(at(Alignment::BottomLeft), Geometry { x: 10, y: 700, width: 480, height: 360 });
}

#[test]
fn absolute_placement_of_a_window_wider_than_the_screen() {
    let g = AlignedGeometry {
        x_offset: 5,
        y_offset: 0,
        width: 800,
        height: 700,
        alignment: Alignment::BottomRight,
    }
    .into_geometry(640, 480);
    assert_eq!(g, Geometry { x: -165, y: -220, width: 800, height: 700 });
}

#[test]
fn default_min_geometry_is_bottom_right() {
    assert_eq!(
        MinGeometry::default(),
        MinGeometry::Fixed(AlignedGeometry {
            x_offset: 0,
            y_offset: 0,
            width: 480,
            height: 360,
            alignment: Alignment::BottomRight
        })
    );
    assert_eq!(MinGeometry::default().get_geometry(), AlignedGeometry::from_str("480x360-0-0").ok());
    assert_eq!(MinGeometry::Dynamic { callback_key: 3 }.get_geometry(), None);
}

#[test]
fn min_geometry_from_text() {
    assert_eq!(
        MinGeometry::from_str("400x300+200-100"),
        Ok(MinGeometry::Fixed(AlignedGeometry {
            x_offset: 200,
            y_offset: 100,
            width: 400,
            height: 300,
            alignment: Alignment::BottomLeft
        }))
    );
    assert_eq!(MinGeometry::from_str("400x300"), Err(GeometryParseError::MissingXOffsetSign));
}

#[test]
fn margin_and_demotion_defaults() {
    assert_eq!(Margin::default(), Margin { top: 0, right: 0, bottom: 0, left: 0 });
    assert_eq!(PrimaryDemotionAction::default(), PrimaryDemotionAction::Minimize);
    assert_eq!(PrimaryDemotionAction::from_str("minimize"), Some(PrimaryDemotionAction::Minimize));
    assert_eq!(PrimaryDemotionAction::from_str("hide"), Some(PrimaryDemotionAction::Hide));
    assert_eq!(PrimaryDemotionAction::from_str("Hide"), None);
}

#[test]
fn callback_results_become_placements() {
    assert_eq!(
        AlignedGeometry::from_callback_result(1, 2, 3, 4, "rb"),
        Some(AlignedGeometry {
            x_offset: 1,
            y_offset: 2,
            width: 3,
            height: 4,
            alignment: Alignment::BottomRight
        })
    );
    assert_eq!(AlignedGeometry::from_callback_result(1, 2, 3, 4, "center"), None);
}
