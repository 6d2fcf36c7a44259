//! Window placement: screen-anchored geometry, its textual grammar, the
//! modes a managed window can be in and the placement it falls back to when
//! it is not the primary window.

use vstd::prelude::*;
use vstd::string::*;
use crate::text::{
    chars_of, find_first, str_equals, first_of, is_digit, lemma_first_of_bounds, lemma_first_of_is, parse_u16,
    u16_of_text,
};

verus! {

/// Handle of a script-side callable, as the host keeps it.
pub type CallbackId = u64;

/// Stacking level given to a window shown at its minimum placement.
pub const MIN_Z: u16 = 1;

/// Stacking level given to the primary window.
pub const MAX_Z: u16 = 0;

/// What a managed window currently is on screen.
#[derive(Debug, PartialEq, Eq, Copy, Clone, Structural)]
pub enum Mode {
    /// Shown at the given size; the primary window is always in this mode.
    Max { width: u16, height: u16 },
    /// Shown at its minimum placement.
    Min,
    /// Not shown.
    Hidden,
}

/// Absolute placement of a window on the screen, in pixels.
#[derive(Debug, PartialEq, Eq, Copy, Clone, Structural)]
pub struct Geometry {
    pub x: i32,
    pub y: i32,
    pub width: u16,
    pub height: u16,
}

/// The screen corner that the offsets of an [`AlignedGeometry`] count from.
#[derive(Debug, PartialEq, Eq, Copy, Clone, Structural)]
pub enum Alignment {
    TopLeft,
    TopRight,
    BottomRight,
    BottomLeft,
}

impl Alignment {
    /// The two-letter tag handed to script callbacks.
    pub open spec fn tag(self) -> Seq<char> {
        match self {
            Alignment::TopLeft => "lt"@,
            Alignment::TopRight => "rt"@,
            Alignment::BottomRight => "rb"@,
            Alignment::BottomLeft => "lb"@,
        }
    }

    /// The corner selected by the signs of the x and the y offset: a minus
    /// sign counts from the right or the bottom edge.
    pub open spec fn from_signs(x_sign: char, y_sign: char) -> Alignment {
        if x_sign == '-' {
            if y_sign == '-' {
                Alignment::BottomRight
            } else {
                Alignment::TopRight
            }
        } else {
            if y_sign == '-' {
                Alignment::BottomLeft
            } else {
                Alignment::TopLeft
            }
        }
    }

    /// The two-letter tag of the corner: `lt`, `rt`, `rb` or `lb`.
    pub fn to_string(&self) -> (r: String)
        ensures
            r@ == self.tag(),
    {
        match self {
            Alignment::TopLeft => String::from_str("lt"),
            Alignment::TopRight => String::from_str("rt"),
            Alignment::BottomRight => String::from_str("rb"),
            Alignment::BottomLeft => String::from_str("lb"),
        }
    }

    /// The corner that a two-letter tag names, if it names one.
    pub fn from_tag(tag: &str) -> (r: Option<Alignment>)
        ensures
            match r {
                Some(a) => tag@ == a.tag(),
                None => forall|a: Alignment| tag@ != a.tag(),
            },
    {
        if str_equals(tag, "lt") {
            Some(Alignment::TopLeft)
        } else if str_equals(tag, "rt") {
            Some(Alignment::TopRight)
        } else if str_equals(tag, "rb") {
            Some(Alignment::BottomRight)
        } else if str_equals(tag, "lb") {
            Some(Alignment::BottomLeft)
        } else {
            None
        }
    }

    /// The corner for a pair of offset signs, each `+` or `-`.
    pub fn of_signs(x_sign: char, y_sign: char) -> (r: Alignment)
        ensures
            r == Alignment::from_signs(x_sign, y_sign),
    {
        if x_sign == '-' {
            if y_sign == '-' {
                Alignment::BottomRight
            } else {
                Alignment::TopRight
            }
        } else {
            if y_sign == '-' {
                Alignment::BottomLeft
            } else {
                Alignment::TopLeft
            }
        }
    }
}

/// A window size together with offsets from one corner of the screen.
#[derive(Debug, PartialEq, Eq, Copy, Clone, Structural)]
pub struct AlignedGeometry {
    pub x_offset: u16,
    pub y_offset: u16,
    pub width: u16,
    pub height: u16,
    pub alignment: Alignment,
}

/// Why a text is not a geometry.
#[derive(Debug, PartialEq, Eq, Copy, Clone, Structural)]
pub enum GeometryParseError {
    /// No `x` closes the width.
    MissingWidthSeparator,
    /// What stands before the `x` is not a number.
    WidthNotNumeric,
    /// No sign closes the height.
    MissingXOffsetSign,
    /// What stands between the `x` and the first sign is not a number.
    HeightNotNumeric,
    /// No second sign closes the x offset.
    MissingYOffsetSign,
    /// What stands between the two signs is not a number.
    XOffsetNotNumeric,
    /// What stands behind the second sign is not a number.
    YOffsetNotNumeric,
}

impl GeometryParseError {
    /// The wording of the error.
    pub open spec fn text(self) -> Seq<char> {
        match self {
            GeometryParseError::MissingWidthSeparator => "expected 'x' after width"@,
            GeometryParseError::WidthNotNumeric => "width is not numeric"@,
            GeometryParseError::MissingXOffsetSign => "expected '+' or '-' after height"@,
            GeometryParseError::HeightNotNumeric => "height is not numeric"@,
            GeometryParseError::MissingYOffsetSign => "expected '+' or '-' after x offset"@,
            GeometryParseError::XOffsetNotNumeric => "x offset is not numeric"@,
            GeometryParseError::YOffsetNotNumeric => "y offset is not numeric"@,
        }
    }

    /// The wording of the error, for a log line.
    pub fn message(&self) -> (r: String)
        ensures
            r@ == self.text(),
    {
        match self {
            GeometryParseError::MissingWidthSeparator => String::from_str(
                "expected 'x' after width",
            ),
            GeometryParseError::WidthNotNumeric => String::from_str("width is not numeric"),
            GeometryParseError::MissingXOffsetSign => String::from_str(
                "expected '+' or '-' after height",
            ),
            GeometryParseError::HeightNotNumeric => String::from_str("height is not numeric"),
            GeometryParseError::MissingYOffsetSign => String::from_str(
                "expected '+' or '-' after x offset",
            ),
            GeometryParseError::XOffsetNotNumeric => String::from_str("x offset is not numeric"),
            GeometryParseError::YOffsetNotNumeric => String::from_str("y offset is not numeric"),
        }
    }
}

/// Whether `c` is one of the two offset signs.
pub open spec fn is_sign(c: char) -> bool {
    c == '+' || c == '-'
}

/// What a text denotes under the grammar `W x H ± X ± Y`: the width runs up to
/// the first `x`, the height up to the first sign behind it, the x offset up to
/// the next sign, and the y offset to the end. Each of the four is a run of
/// decimal digits that fits 16 bits; nothing else, no blank either, may stand
/// anywhere. The first shortcoming met, reading left to right, is the error.
pub open spec fn parse_geometry(s: Seq<char>) -> Result<AlignedGeometry, GeometryParseError> {
    let i = first_of(s, 'x', 'x');
    let rest = s.skip(i + 1);
    let j = first_of(rest, '+', '-');
    let tail = rest.skip(j + 1);
    let k = first_of(tail, '+', '-');
    if i >= s.len() {
        Err(GeometryParseError::MissingWidthSeparator)
    } else if u16_of_text(s.take(i)) is None {
        Err(GeometryParseError::WidthNotNumeric)
    } else if j >= rest.len() {
        Err(GeometryParseError::MissingXOffsetSign)
    } else if u16_of_text(rest.take(j)) is None {
        Err(GeometryParseError::HeightNotNumeric)
    } else if k >= tail.len() {
        Err(GeometryParseError::MissingYOffsetSign)
    } else if u16_of_text(tail.take(k)) is None {
        Err(GeometryParseError::XOffsetNotNumeric)
    } else if u16_of_text(tail.skip(k + 1)) is None {
        Err(GeometryParseError::YOffsetNotNumeric)
    } else {
        Ok(
            AlignedGeometry {
                x_offset: u16_of_text(tail.take(k))->0,
                y_offset: u16_of_text(tail.skip(k + 1))->0,
                width: u16_of_text(s.take(i))->0,
                height: u16_of_text(rest.take(j))->0,
                alignment: Alignment::from_signs(rest[j], tail[k]),
            },
        )
    }
}

impl AlignedGeometry {
    /// Reads a geometry such as `480x360-0-0`.
    pub fn from_str(s: &str) -> (r: Result<AlignedGeometry, GeometryParseError>)
        ensures
            r == parse_geometry(s@),
    {
        let v = chars_of(s);
        let n: usize = v.len();
        let i: usize = find_first(&v, 0, 'x', 'x');
        assert(v@.skip(0) =~= v@);
        if i >= n {
            return Err(GeometryParseError::MissingWidthSeparator);
        }
        assert(v@.subrange(0, i as int) =~= v@.take(i as int));
        let width = match parse_u16(&v, 0, i) {
            Some(w) => w,
            None => {
                return Err(GeometryParseError::WidthNotNumeric);
            },
        };
        let ghost rest = v@.skip(i + 1);
        let j: usize = find_first(&v, i + 1, '+', '-');
        if j >= n {
            return Err(GeometryParseError::MissingXOffsetSign);
        }
        assert(v@.subrange(i + 1, j as int) =~= rest.take(j - (i + 1)));
        let height = match parse_u16(&v, i + 1, j) {
            Some(h) => h,
            None => {
                return Err(GeometryParseError::HeightNotNumeric);
            },
        };
        let ghost tail = rest.skip(j - (i + 1) + 1);
        assert(tail =~= v@.skip(j + 1));
        let k: usize = find_first(&v, j + 1, '+', '-');
        if k >= n {
            return Err(GeometryParseError::MissingYOffsetSign);
        }
        assert(v@.subrange(j + 1, k as int) =~= tail.take(k - (j + 1)));
        let x_offset = match parse_u16(&v, j + 1, k) {
            Some(x) => x,
            None => {
                return Err(GeometryParseError::XOffsetNotNumeric);
            },
        };
        assert(v@.subrange(k + 1, n as int) =~= tail.skip(k - (j + 1) + 1));
        let y_offset = match parse_u16(&v, k + 1, n) {
            Some(y) => y,
            None => {
                return Err(GeometryParseError::YOffsetNotNumeric);
            },
        };
        assert(rest[j - (i + 1)] == v[j as int]);
        assert(tail[k - (j + 1)] == v[k as int]);
        let alignment = Alignment::of_signs(v[j], v[k]);
        Ok(AlignedGeometry { x_offset, y_offset, width, height, alignment })
    }

    /// The placement that a script callback gave: two offsets, a size and the
    /// tag of a corner. A tag that names no corner gives nothing.
    pub fn from_callback_result(
        x_offset: u16,
        y_offset: u16,
        width: u16,
        height: u16,
        alignment_tag: &str,
    ) -> (r: Option<AlignedGeometry>)
        ensures
            match r {
                Some(g) => alignment_tag@ == g.alignment.tag() && g == (AlignedGeometry {
                    x_offset,
                    y_offset,
                    width,
                    height,
                    alignment: g.alignment,
                }),
                None => forall|a: Alignment| alignment_tag@ != a.tag(),
            },
    {
        match Alignment::from_tag(alignment_tag) {
            Some(alignment) => Some(AlignedGeometry { x_offset, y_offset, width, height, alignment }),
            None => None,
        }
    }

    /// Where the window's left edge lies on a screen of the given width.
    pub open spec fn left(self, screen_width: u16) -> int {
        match self.alignment {
            Alignment::TopLeft | Alignment::BottomLeft => self.x_offset as int,
            Alignment::TopRight | Alignment::BottomRight => screen_width - self.width
                - self.x_offset,
        }
    }

    /// Where the window's top edge lies on a screen of the given height.
    pub open spec fn top(self, screen_height: u16) -> int {
        match self.alignment {
            Alignment::TopLeft | Alignment::TopRight => self.y_offset as int,
            Alignment::BottomLeft | Alignment::BottomRight => screen_height - self.height
                - self.y_offset,
        }
    }

    /// The absolute placement on a screen of the given size: the offsets
    /// count from the left or top edge, or back from the right or bottom edge,
    /// as the alignment says. A window that does not fit gets a negative
    /// coordinate.
    pub fn into_geometry(&self, screen_width: u16, screen_height: u16) -> (r: Geometry)
        ensures
            r.x == self.left(screen_width),
            r.y == self.top(screen_height),
            r.width == self.width,
            r.height == self.height,
    {
        let from_right: i32 = screen_width as i32 - self.width as i32 - self.x_offset as i32;
        let from_bottom: i32 = screen_height as i32 - self.height as i32 - self.y_offset as i32;
        let (x, y): (i32, i32) = match self.alignment {
            Alignment::TopLeft => (self.x_offset as i32, self.y_offset as i32),
            Alignment::TopRight => (from_right, self.y_offset as i32),
            Alignment::BottomRight => (from_right, from_bottom),
            Alignment::BottomLeft => (self.x_offset as i32, from_bottom),
        };
        Geometry { x, y, width: self.width, height: self.height }
    }

    /// The placement that fills a screen of the given size from its top left
    /// corner.
    pub fn from_width_height(width: u16, height: u16) -> (r: AlignedGeometry)
        ensures
            r == (AlignedGeometry {
                x_offset: 0,
                y_offset: 0,
                width,
                height,
                alignment: Alignment::TopLeft,
            }),
    {
        AlignedGeometry { x_offset: 0, y_offset: 0, width, height, alignment: Alignment::TopLeft }
    }
}

/// The text made of a width, an `x`, a height, a sign, an x offset, a sign and
/// a y offset.
pub open spec fn geometry_text(
    width: Seq<char>,
    height: Seq<char>,
    x_sign: char,
    x_offset: Seq<char>,
    y_sign: char,
    y_offset: Seq<char>,
) -> Seq<char> {
    width + seq!['x'] + height + seq![x_sign] + x_offset + seq![y_sign] + y_offset
}

/// Every text of the form `W x H ± X ± Y`, with four numbers that fit 16 bits,
/// denotes exactly the geometry with those four values, anchored at the corner
/// that the two signs select.
pub proof fn lemma_parse_geometry_of_valid_text(
    width: Seq<char>,
    height: Seq<char>,
    x_sign: char,
    x_offset: Seq<char>,
    y_sign: char,
    y_offset: Seq<char>,
)
    requires
        u16_of_text(width) is Some,
        u16_of_text(height) is Some,
        u16_of_text(x_offset) is Some,
        u16_of_text(y_offset) is Some,
        is_sign(x_sign),
        is_sign(y_sign),
    ensures
        parse_geometry(geometry_text(width, height, x_sign, x_offset, y_sign, y_offset)) == Ok::<
            AlignedGeometry,
            GeometryParseError,
        >(
            AlignedGeometry {
                x_offset: u16_of_text(x_offset)->0,
                y_offset: u16_of_text(y_offset)->0,
                width: u16_of_text(width)->0,
                height: u16_of_text(height)->0,
                alignment: Alignment::from_signs(x_sign, y_sign),
            },
        ),
{
    let s = geometry_text(width, height, x_sign, x_offset, y_sign, y_offset);
    let i = width.len() as int;
    assert forall|n: int| 0 <= n < i implies #[trigger] s[n] != 'x' by {
        assert(s[n] == width[n]);
        assert(is_digit(width[n]));
    }
    assert(s[i] == 'x');
    lemma_first_of_is(s, 'x', 'x', i);
    assert(s.take(i) =~= width);
    let rest = s.skip(i + 1);
    assert(rest =~= height + seq![x_sign] + x_offset + seq![y_sign] + y_offset);
    let j = height.len() as int;
    assert forall|n: int| 0 <= n < j implies #[trigger] rest[n] != '+' && rest[n] != '-' by {
        assert(rest[n] == height[n]);
        assert(is_digit(height[n]));
    }
    assert(rest[j] == x_sign);
    lemma_first_of_is(rest, '+', '-', j);
    assert(rest.take(j) =~= height);
    let tail = rest.skip(j + 1);
    assert(tail =~= x_offset + seq![y_sign] + y_offset);
    let k = x_offset.len() as int;
    assert forall|n: int| 0 <= n < k implies #[trigger] tail[n] != '+' && tail[n] != '-' by {
        assert(tail[n] == x_offset[n]);
        assert(is_digit(x_offset[n]));
    }
    assert(tail[k] == y_sign);
    lemma_first_of_is(tail, '+', '-', k);
    assert(tail.take(k) =~= x_offset);
    assert(tail.skip(k + 1) =~= y_offset);
}

/// A text that denotes a geometry has the form `W x H ± X ± Y`: it is made of
/// four numbers that fit 16 bits, an `x` and two signs, and the geometry holds
/// the four values and the corner that the signs select.
pub proof fn lemma_parse_geometry_ok_has_form(s: Seq<char>)
    requires
        parse_geometry(s) is Ok,
    ensures
        exists|
            width: Seq<char>,
            height: Seq<char>,
            x_sign: char,
            x_offset: Seq<char>,
            y_sign: char,
            y_offset: Seq<char>,
        |
            {
                &&& s == #[trigger] geometry_text(
                    width,
                    height,
                    x_sign,
                    x_offset,
                    y_sign,
                    y_offset,
                )
                &&& is_sign(x_sign)
                &&& is_sign(y_sign)
                &&& u16_of_text(width) == Some(parse_geometry(s)->Ok_0.width)
                &&& u16_of_text(height) == Some(parse_geometry(s)->Ok_0.height)
                &&& u16_of_text(x_offset) == Some(parse_geometry(s)->Ok_0.x_offset)
                &&& u16_of_text(y_offset) == Some(parse_geometry(s)->Ok_0.y_offset)
                &&& parse_geometry(s)->Ok_0.alignment == Alignment::from_signs(x_sign, y_sign)
            },
{
    let i = first_of(s, 'x', 'x');
    let rest = s.skip(i + 1);
    let j = first_of(rest, '+', '-');
    let tail = rest.skip(j + 1);
    let k = first_of(tail, '+', '-');
    lemma_first_of_bounds(s, 'x', 'x');
    lemma_first_of_bounds(rest, '+', '-');
    lemma_first_of_bounds(tail, '+', '-');
    let width = s.take(i);
    let height = rest.take(j);
    let x_offset = tail.take(k);
    let y_offset = tail.skip(k + 1);
    assert(tail =~= x_offset + seq![tail[k]] + y_offset);
    assert(rest =~= height + seq![rest[j]] + tail);
    assert(s =~= width + seq!['x'] + rest);
    assert(s =~= geometry_text(width, height, rest[j], x_offset, tail[k], y_offset));
}

/// Free space kept around an X-backed primary window, in pixels.
#[derive(Debug, PartialEq, Eq, Copy, Clone, Structural)]
pub struct Margin {
    pub top: u16,
    pub right: u16,
    pub bottom: u16,
    pub left: u16,
}

impl Default for Margin {
    /// No margin on any side.
    fn default() -> (r: Margin)
        ensures
            r == (Margin { top: 0, right: 0, bottom: 0, left: 0 }),
    {
        Margin { top: 0, right: 0, bottom: 0, left: 0 }
    }
}

/// What becomes of a primary window when another window takes its place.
#[derive(Debug, PartialEq, Eq, Copy, Clone, Structural)]
pub enum PrimaryDemotionAction {
    /// It is shown at its minimum placement.
    Minimize,
    /// It is hidden.
    Hide,
}

impl Default for PrimaryDemotionAction {
    /// A demoted window is minimized.
    fn default() -> (r: PrimaryDemotionAction)
        ensures
            r == PrimaryDemotionAction::Minimize,
    {
        PrimaryDemotionAction::Minimize
    }
}

impl PrimaryDemotionAction {
    /// The word that names the action in a script's options.
    pub open spec fn name(self) -> Seq<char> {
        match self {
            PrimaryDemotionAction::Minimize => "minimize"@,
            PrimaryDemotionAction::Hide => "hide"@,
        }
    }

    /// The action that a word names: `minimize` or `hide`; anything else
    /// names none.
    pub fn from_str(s: &str) -> (r: Option<PrimaryDemotionAction>)
        ensures
            match r {
                Some(a) => s@ == a.name(),
                None => forall|a: PrimaryDemotionAction| s@ != a.name(),
            },
    {
        if str_equals(s, "minimize") {
            Some(PrimaryDemotionAction::Minimize)
        } else if str_equals(s, "hide") {
            Some(PrimaryDemotionAction::Hide)
        } else {
            None
        }
    }
}

/// The placement a window returns to whenever it is not the primary window.
#[derive(Debug, PartialEq, Eq, Copy, Clone, Structural)]
pub enum MinGeometry {
    /// A placement fixed when the window was claimed.
    Fixed(AlignedGeometry),
    /// A placement that a script callback gives anew at each use.
    Dynamic { callback_key: CallbackId },
}

impl Default for MinGeometry {
    /// 480 by 360 pixels in the bottom right corner.
    fn default() -> (r: MinGeometry)
        ensures
            r == MinGeometry::Fixed(
                AlignedGeometry {
                    x_offset: 0,
                    y_offset: 0,
                    width: 480,
                    height: 360,
                    alignment: Alignment::BottomRight,
                },
            ),
    {
        MinGeometry::Fixed(
            AlignedGeometry {
                x_offset: 0,
                y_offset: 0,
                width: 480,
                height: 360,
                alignment: Alignment::BottomRight,
            },
        )
    }
}

impl MinGeometry {
    /// Reads a fixed minimum placement from a text such as `480x360-0-0`.
    pub fn from_str(s: &str) -> (r: Result<MinGeometry, GeometryParseError>)
        ensures
            r == match parse_geometry(s@) {
                Ok(g) => Ok::<MinGeometry, GeometryParseError>(MinGeometry::Fixed(g)),
                Err(e) => Err::<MinGeometry, GeometryParseError>(e),
            },
    {
        match AlignedGeometry::from_str(s) {
            Ok(g) => Ok(MinGeometry::Fixed(g)),
            Err(e) => Err(e),
        }
    }

    /// The fixed placement, and nothing where a callback decides.
    pub fn get_geometry(&self) -> (r: Option<AlignedGeometry>)
        ensures
            r == match *self {
                MinGeometry::Fixed(g) => Some(g),
                MinGeometry::Dynamic { .. } => None::<AlignedGeometry>,
            },
    {
        match self {
            MinGeometry::Fixed(g) => Some(*g),
            MinGeometry::Dynamic { .. } => None,
        }
    }
}

} // verus!
