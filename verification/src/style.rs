//! Style keyword types shared by layout, paint and script bindings.

use vstd::prelude::*;
use crate::chars::text_eq;

verus! {

/// Position mode - Tailwind: relative, absolute.
#[derive(Debug, Clone, Copy, PartialEq, Eq, Structural, Hash)]
pub enum Position {
    Relative,
    Absolute,
}

impl Default for Position {
    fn default() -> (r: Self)
        ensures
            r == Position::Relative,
    {
        Position::Relative
    }
}

/// Flex direction - Tailwind: flex-row, flex-col.
#[derive(Debug, Clone, Copy, PartialEq, Eq, Structural, Hash)]
pub enum FlexDirection {
    Row,
    Col,
    RowReverse,
    ColReverse,
}

impl Default for FlexDirection {
    fn default() -> (r: Self)
        ensures
            r == FlexDirection::Row,
    {
        FlexDirection::Row
    }
}

#[derive(Debug, Clone, Copy, PartialEq, Eq, Structural, Hash)]
pub enum FlexWrap {
    NoWrap,
    Wrap,
    WrapReverse,
}

impl Default for FlexWrap {
    fn default() -> (r: Self)
        ensures
            r == FlexWrap::NoWrap,
    {
        FlexWrap::NoWrap
    }
}

/// Main axis alignment - Tailwind: justify-*.
#[derive(Debug, Clone, Copy, PartialEq, Eq, Structural, Hash)]
pub enum JustifyContent {
    Start,
    Center,
    End,
    Between,
    Around,
    Evenly,
    Stretch,
}

impl Default for JustifyContent {
    fn default() -> (r: Self)
        ensures
            r == JustifyContent::Start,
    {
        JustifyContent::Start
    }
}

/// Cross axis alignment - Tailwind: items-*.
#[derive(Debug, Clone, Copy, PartialEq, Eq, Structural, Hash)]
pub enum AlignItems {
    Start,
    Center,
    End,
    Baseline,
    Stretch,
}

impl Default for AlignItems {
    fn default() -> (r: Self)
        ensures
            r == AlignItems::Stretch,
    {
        AlignItems::Stretch
    }
}

#[derive(Debug, Clone, Copy, PartialEq, Eq, Structural, Hash)]
pub enum GridAutoFlow {
    Row,
    Column,
    RowDense,
    ColumnDense,
}

impl Default for GridAutoFlow {
    fn default() -> (r: Self)
        ensures
            r == GridAutoFlow::Row,
    {
        GridAutoFlow::Row
    }
}

#[derive(Debug, Clone, Copy, PartialEq, Eq, Structural, Hash)]
pub enum GridAutoRows {
    Auto,
    Min,
    Max,
    Fr,
}

#[derive(Debug, Clone, Copy, PartialEq, Eq, Structural, Hash)]
pub enum GridPlacement {
    Auto,
    Line(i16),
    Span(u16),
}

impl Default for GridPlacement {
    fn default() -> (r: Self)
        ensures
            r == GridPlacement::Auto,
    {
        GridPlacement::Auto
    }
}

#[derive(Debug, Clone, Copy, PartialEq, Eq, Structural, Hash)]
pub enum TextAlign {
    Left,
    Center,
    Right,
}

impl Default for TextAlign {
    fn default() -> (r: Self)
        ensures
            r == TextAlign::Left,
    {
        TextAlign::Left
    }
}

#[derive(Debug, Clone, Copy, PartialEq, Eq, Structural, Hash)]
pub enum ObjectFit {
    Contain,
    Cover,
    Fill,
}

impl Default for ObjectFit {
    fn default() -> (r: Self)
        ensures
            r == ObjectFit::Contain,
    {
        ObjectFit::Contain
    }
}

/// Numeric font weight (100..=900 in practice).
#[derive(Debug, Clone, Copy, PartialEq, Eq, Structural, Hash)]
pub struct FontWeight(pub u16);

impl FontWeight {
    pub fn light() -> (r: Self)
        ensures
            r.0 == 300,
    {
        FontWeight(300)
    }

    pub fn normal() -> (r: Self)
        ensures
            r.0 == 400,
    {
        FontWeight(400)
    }

    pub fn medium() -> (r: Self)
        ensures
            r.0 == 500,
    {
        FontWeight(500)
    }

    pub fn semibold() -> (r: Self)
        ensures
            r.0 == 600,
    {
        FontWeight(600)
    }

    pub fn bold() -> (r: Self)
        ensures
            r.0 == 700,
    {
        FontWeight(700)
    }
}

impl Default for FontWeight {
    fn default() -> (r: Self)
        ensures
            r.0 == 0,
    {
        FontWeight(0)
    }
}

#[derive(Debug, Clone, Copy, PartialEq, Eq, Structural, Hash)]
pub enum TextTransform {
    /// Text as written.
    NoTransform,
    Uppercase,
}

impl Default for TextTransform {
    fn default() -> (r: Self)
        ensures
            r == TextTransform::NoTransform,
    {
        TextTransform::NoTransform
    }
}

/// Border stroke style - Tailwind: border-solid / border-dashed / border-dotted.
#[derive(Debug, Clone, Copy, PartialEq, Eq, Structural, Hash)]
pub enum BorderStyle {
    Solid,
    Dashed,
    Dotted,
}

impl Default for BorderStyle {
    fn default() -> (r: Self)
        ensures
            r == BorderStyle::Solid,
    {
        BorderStyle::Solid
    }
}

#[derive(Debug, Clone, Copy, PartialEq, Eq, Structural, Hash)]
pub enum BoxShadowStyle {
    TwoXs,
    Xs,
    Sm,
    Base,
    Md,
    Lg,
    Xl,
    TwoXl,
    ThreeXl,
}

#[derive(Debug, Clone, Copy, PartialEq, Eq, Structural, Hash)]
pub enum DropShadowStyle {
    Xs,
    Sm,
    Base,
    Md,
    Lg,
    Xl,
    TwoXl,
    ThreeXl,
}

#[derive(Debug, Clone, Copy, PartialEq, Eq, Structural, Hash)]
pub enum InsetShadowStyle {
    TwoXs,
    Xs,
    Base,
    Sm,
    Md,
}

#[derive(Debug, Clone, Copy, PartialEq, Eq, Structural, Hash)]
pub enum GradientDirection {
    ToRight,
    ToLeft,
    ToBottom,
    ToTop,
    ToBottomRight,
}

/// CSS filter functions.
#[derive(Debug, Clone, Copy, PartialEq, Eq, Structural, Hash)]
pub enum CssFilterKind {
    Blur,
    Brightness,
    Contrast,
    Grayscale,
    HueRotate,
    Invert,
    Saturate,
    Sepia,
}

/// Filter kind named by a script property (CSS and camelCase spellings).
pub open spec fn filter_from_property_spec(name: Seq<char>) -> Option<CssFilterKind> {
    if name == "blur"@ || name == "blurSigma"@ {
        Some(CssFilterKind::Blur)
    } else if name == "brightness"@ {
        Some(CssFilterKind::Brightness)
    } else if name == "contrast"@ {
        Some(CssFilterKind::Contrast)
    } else if name == "grayscale"@ {
        Some(CssFilterKind::Grayscale)
    } else if name == "hue-rotate"@ || name == "hueRotate"@ {
        Some(CssFilterKind::HueRotate)
    } else if name == "invert"@ {
        Some(CssFilterKind::Invert)
    } else if name == "saturate"@ {
        Some(CssFilterKind::Saturate)
    } else if name == "sepia"@ {
        Some(CssFilterKind::Sepia)
    } else {
        None
    }
}

/// CSS function name of a filter kind.
pub open spec fn filter_css_name_spec(k: CssFilterKind) -> Seq<char> {
    match k {
        CssFilterKind::Blur => "blur"@,
        CssFilterKind::Brightness => "brightness"@,
        CssFilterKind::Contrast => "contrast"@,
        CssFilterKind::Grayscale => "grayscale"@,
        CssFilterKind::HueRotate => "hue-rotate"@,
        CssFilterKind::Invert => "invert"@,
        CssFilterKind::Saturate => "saturate"@,
        CssFilterKind::Sepia => "sepia"@,
    }
}

/// Script property name of a filter kind.
pub open spec fn filter_property_name_spec(k: CssFilterKind) -> Seq<char> {
    match k {
        CssFilterKind::HueRotate => "hueRotate"@,
        _ => filter_css_name_spec(k),
    }
}

impl CssFilterKind {
    pub fn from_property(name: &str) -> (r: Option<Self>)
        ensures
            r == filter_from_property_spec(name@),
    {
        if text_eq(name, "blur") || text_eq(name, "blurSigma") {
            Some(Self::Blur)
        } else if text_eq(name, "brightness") {
            Some(Self::Brightness)
        } else if text_eq(name, "contrast") {
            Some(Self::Contrast)
        } else if text_eq(name, "grayscale") {
            Some(Self::Grayscale)
        } else if text_eq(name, "hue-rotate") || text_eq(name, "hueRotate") {
            Some(Self::HueRotate)
        } else if text_eq(name, "invert") {
            Some(Self::Invert)
        } else if text_eq(name, "saturate") {
            Some(Self::Saturate)
        } else if text_eq(name, "sepia") {
            Some(Self::Sepia)
        } else {
            None
        }
    }

    pub fn css_name(self) -> (r: &'static str)
        ensures
            r@ == filter_css_name_spec(self),
    {
        match self {
            Self::Blur => "blur",
            Self::Brightness => "brightness",
            Self::Contrast => "contrast",
            Self::Grayscale => "grayscale",
            Self::HueRotate => "hue-rotate",
            Self::Invert => "invert",
            Self::Saturate => "saturate",
            Self::Sepia => "sepia",
        }
    }

    pub fn property_name(self) -> (r: &'static str)
        ensures
            r@ == filter_property_name_spec(self),
    {
        match self {
            Self::Blur => "blur",
            Self::Brightness => "brightness",
            Self::Contrast => "contrast",
            Self::Grayscale => "grayscale",
            Self::HueRotate => "hueRotate",
            Self::Invert => "invert",
            Self::Saturate => "saturate",
            Self::Sepia => "sepia",
        }
    }
}

/// Reading back a filter's CSS name or its script property name gives the
/// filter again.
pub proof fn lemma_filter_names_round_trip(k: CssFilterKind)
    ensures
        filter_from_property_spec(filter_css_name_spec(k)) == Some(k),
        filter_from_property_spec(filter_property_name_spec(k)) == Some(k),
{
    reveal_strlit("blur");
    reveal_strlit("blurSigma");
    reveal_strlit("brightness");
    reveal_strlit("contrast");
    reveal_strlit("grayscale");
    reveal_strlit("hue-rotate");
    reveal_strlit("hueRotate");
    reveal_strlit("invert");
    reveal_strlit("saturate");
    reveal_strlit("sepia");
    match k {
        CssFilterKind::Blur => {

        },
        CssFilterKind::Brightness => {
            assert("brightness"@.len() != "blur"@.len());
            assert("brightness"@.len() != "blurSigma"@.len());
        },
        CssFilterKind::Contrast => {
            assert("contrast"@.len() != "blur"@.len());
            assert("contrast"@.len() != "blurSigma"@.len());
            assert("contrast"@.len() != "brightness"@.len());
        },
        CssFilterKind::Grayscale => {
            assert("grayscale"@.len() != "blur"@.len());
            assert("grayscale"@[0] != "blurSigma"@[0]);
            assert("grayscale"@.len() != "brightness"@.len());
            assert("grayscale"@.len() != "contrast"@.len());
        },
        CssFilterKind::HueRotate => {
            assert("hue-rotate"@.len() != "blur"@.len());
            assert("hue-rotate"@.len() != "blurSigma"@.len());
            assert("hue-rotate"@[0] != "brightness"@[0]);
            assert("hue-rotate"@.len() != "contrast"@.len());
            assert("hue-rotate"@.len() != "grayscale"@.len());
            assert("hueRotate"@.len() != "blur"@.len());
            assert("hueRotate"@[0] != "blurSigma"@[0]);
            assert("hueRotate"@.len() != "brightness"@.len());
            assert("hueRotate"@.len() != "contrast"@.len());
            assert("hueRotate"@[0] != "grayscale"@[0]);
            assert("hueRotate"@.len() != "hue-rotate"@.len());
        },
        CssFilterKind::Invert => {
            assert("invert"@.len() != "blur"@.len());
            assert("invert"@.len() != "blurSigma"@.len());
            assert("invert"@.len() != "brightness"@.len());
            assert("invert"@.len() != "contrast"@.len());
            assert("invert"@.len() != "grayscale"@.len());
            assert("invert"@.len() != "hue-rotate"@.len());
            assert("invert"@.len() != "hueRotate"@.len());
        },
        CssFilterKind::Saturate => {
            assert("saturate"@.len() != "blur"@.len());
            assert("saturate"@.len() != "blurSigma"@.len());
            assert("saturate"@.len() != "brightness"@.len());
            assert("saturate"@[0] != "contrast"@[0]);
            assert("saturate"@.len() != "grayscale"@.len());
            assert("saturate"@.len() != "hue-rotate"@.len());
            assert("saturate"@.len() != "hueRotate"@.len());
            assert("saturate"@.len() != "invert"@.len());
        },
        CssFilterKind::Sepia => {
            assert("sepia"@.len() != "blur"@.len());
            assert("sepia"@.len() != "blurSigma"@.len());
            assert("sepia"@.len() != "brightness"@.len());
            assert("sepia"@.len() != "contrast"@.len());
            assert("sepia"@.len() != "grayscale"@.len());
            assert("sepia"@.len() != "hue-rotate"@.len());
            assert("sepia"@.len() != "hueRotate"@.len());
            assert("sepia"@.len() != "invert"@.len());
            assert("sepia"@.len() != "saturate"@.len());
        },
    }
}

} // verus!
