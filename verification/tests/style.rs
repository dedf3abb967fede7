use opencat::style::{
    AlignItems, BorderStyle, CssFilterKind, FlexDirection, FontWeight, JustifyContent, ObjectFit,
    Position, TextAlign, TextTransform,
};

#[test]
fn style_defaults() {
    assert_eq!(Position::default(), Position::Relative);
    assert_eq!(FlexDirection::default(), FlexDirection::Row);
    assert_eq!(TextTransform::default(), TextTransform::NoTransform);
    assert_eq!(BorderStyle::default(), BorderStyle::Solid);
    assert_eq!(JustifyContent::default(), JustifyContent::Start);
    assert_eq!(AlignItems::default(), AlignItems::Stretch);
    assert_eq!(ObjectFit::default(), ObjectFit::Contain);
    assert_eq!(TextAlign::default(), TextAlign::Left);
}

#[test]
fn font_weights() {
    assert_eq!(FontWeight::light().0, 300);
    assert_eq!(FontWeight::normal().0, 400);
    assert_eq!(FontWeight::medium().0, 500);
    assert_eq!(FontWeight::semibold().0, 600);
    assert_eq!(FontWeight::bold().0, 700);
}

#[test]
fn css_filter_names_round_trip() {
    let all = [
        CssFilterKind::Blur,
        CssFilterKind::Brightness,
        CssFilterKind::Contrast,
        CssFilterKind::Grayscale,
        CssFilterKind::HueRotate,
        CssFilterKind::Invert,
        CssFilterKind::Saturate,
        CssFilterKind::Sepia,
    ];
    for k in all {
        assert_eq!(CssFilterKind::from_property(k.css_name()), Some(k));
        assert_eq!(CssFilterKind::from_property(k.property_name()), Some(k));
    }
    assert_eq!(CssFilterKind::HueRotate.css_name(), "hue-rotate");
    assert_eq!(CssFilterKind::HueRotate.property_name(), "hueRotate");
    assert_eq!(CssFilterKind::from_property("blurSigma"), Some(CssFilterKind::Blur));
    assert_eq!(CssFilterKind::from_property("drop-shadow"), None);
}
