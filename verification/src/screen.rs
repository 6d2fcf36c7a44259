//! Changing the resolution of the screen: the bounds that the server allows,
//! the order of the steps that takes a screen from one size to another, and
//! the output mode that goes with a size.

use vstd::prelude::*;
use vstd::string::*;
use crate::text::{decimal_text, u64_to_decimal, has_prefix, starts_with};

verus! {

/// The smallest and the largest screen that the server allows.
#[derive(Debug, PartialEq, Eq, Copy, Clone, Structural)]
pub struct ScreenSizeRange {
    pub min_width: u16,
    pub min_height: u16,
    pub max_width: u16,
    pub max_height: u16,
}

impl ScreenSizeRange {
    /// Whether a screen of the given size is allowed: each dimension lies
    /// within the bounds for that dimension.
    pub open spec fn allows(self, width: u16, height: u16) -> bool {
        self.min_width <= width <= self.max_width && self.min_height <= height <= self.max_height
    }

    /// Whether a screen of the given size is allowed.
    pub fn contains(&self, width: u16, height: u16) -> (r: bool)
        ensures
            r == self.allows(width, height),
    {
        self.min_width <= width && width <= self.max_width && self.min_height <= height && height
            <= self.max_height
    }
}

/// A resolution that the server does not allow, with the bounds it broke.
#[derive(Debug, PartialEq, Eq, Copy, Clone, Structural)]
pub struct InvalidResolution {
    pub width: u16,
    pub height: u16,
    pub range: ScreenSizeRange,
}

/// One request of a change of resolution.
#[derive(Debug, PartialEq, Eq, Copy, Clone, Structural)]
pub enum ResizeStep {
    /// Set the size of the screen.
    SetScreenSize { width: u16, height: u16 },
    /// Set the size of the output, by the mode of that size.
    SetOutputSize { width: u16, height: u16 },
}

/// The larger of two lengths.
pub open spec fn larger(a: u16, b: u16) -> u16 {
    if a >= b {
        a
    } else {
        b
    }
}

/// The steps that take a screen, and the output on it, from one size to
/// another. Nothing is done where the size stays. Where one dimension grows
/// and the other shrinks, the screen is first made large enough for both
/// sizes. An output that shrinks in a dimension is shrunk before the screen.
/// Then the screen is given its size, and the output its size again.
pub open spec fn resize_plan(
    current_width: u16,
    current_height: u16,
    width: u16,
    height: u16,
) -> Seq<ResizeStep> {
    if current_width == width && current_height == height {
        Seq::empty()
    } else {
        let grow_first = if (width < current_width && height > current_height) || (width
            > current_width && height < current_height) {
            seq![
                ResizeStep::SetScreenSize {
                    width: larger(current_width, width),
                    height: larger(current_height, height),
                },
            ]
        } else {
            Seq::empty()
        };
        let shrink_output = if width < current_width || height < current_height {
            seq![ResizeStep::SetOutputSize { width, height }]
        } else {
            Seq::empty()
        };
        grow_first + shrink_output + seq![
            ResizeStep::SetScreenSize { width, height },
            ResizeStep::SetOutputSize { width, height },
        ]
    }
}

/// Whether, from a screen and an output of the given sizes, each step of
/// `steps` keeps the output within the screen, and the last leaves both at
/// the given final size.
pub open spec fn steps_stay_within(
    steps: Seq<ResizeStep>,
    screen: (u16, u16),
    output: (u16, u16),
    target: (u16, u16),
) -> bool
    decreases steps.len(),
{
    if steps.len() == 0 {
        screen == target && output == target
    } else {
        match steps[0] {
            ResizeStep::SetScreenSize { width, height } => output.0 <= width && output.1 <= height
                && steps_stay_within(steps.drop_first(), (width, height), output, target),
            ResizeStep::SetOutputSize { width, height } => width <= screen.0 && height <= screen.1
                && steps_stay_within(steps.drop_first(), screen, (width, height), target),
        }
    }
}

/// The plan for a change of resolution never asks for an output larger than
/// the screen of that moment, nor for a screen smaller than the output of
/// that moment, and it ends with both at the new size.
pub proof fn lemma_resize_plan_stays_within(
    current_width: u16,
    current_height: u16,
    width: u16,
    height: u16,
)
    ensures
        steps_stay_within(
            resize_plan(current_width, current_height, width, height),
            (current_width, current_height),
            (current_width, current_height),
            (width, height),
        ),
{
    let plan = resize_plan(current_width, current_height, width, height);
    let cur = (current_width, current_height);
    let target = (width, height);
    reveal_with_fuel(steps_stay_within, 6);
    if current_width == width && current_height == height {
    } else {
        let last_two = seq![
            ResizeStep::SetScreenSize { width, height },
            ResizeStep::SetOutputSize { width, height },
        ];
        assert(last_two.drop_first() =~= seq![ResizeStep::SetOutputSize { width, height }]);
        assert(last_two.drop_first().drop_first() =~= Seq::<ResizeStep>::empty());
        let grows = (width < current_width && height > current_height) || (width > current_width
            && height < current_height);
        let shrinks = width < current_width || height < current_height;
        if grows {
            let big = (larger(current_width, width), larger(current_height, height));
            assert(plan.drop_first() =~= seq![ResizeStep::SetOutputSize { width, height }]
                + last_two);
            assert(plan.drop_first().drop_first() =~= last_two);
            assert(steps_stay_within(last_two, big, target, target));
        } else if shrinks {
            assert(plan.drop_first() =~= last_two);
            assert(steps_stay_within(last_two, cur, target, target));
        } else {
            assert(plan =~= last_two);
            assert(steps_stay_within(last_two, cur, cur, target));
        }
    }
}

/// The steps that take the screen and its output from one size to another.
pub fn resize_steps(current_width: u16, current_height: u16, width: u16, height: u16) -> (steps:
    Vec<ResizeStep>)
    ensures
        steps@ == resize_plan(current_width, current_height, width, height),
{
    let mut steps: Vec<ResizeStep> = Vec::new();
    if current_width == width && current_height == height {
        assert(steps@ =~= resize_plan(current_width, current_height, width, height));
        return steps;
    }
    if (width < current_width && height > current_height) || (width > current_width && height
        < current_height) {
        let w: u16 = if current_width >= width {
            current_width
        } else {
            width
        };
        let h: u16 = if current_height >= height {
            current_height
        } else {
            height
        };
        steps.push(ResizeStep::SetScreenSize { width: w, height: h });
    }
    if width < current_width || height < current_height {
        steps.push(ResizeStep::SetOutputSize { width, height });
    }
    steps.push(ResizeStep::SetScreenSize { width, height });
    steps.push(ResizeStep::SetOutputSize { width, height });
    assert(steps@ =~= resize_plan(current_width, current_height, width, height));
    steps
}

/// Plans a change of resolution. A size that the server does not allow is
/// turned down with the bounds it broke; otherwise the steps are given in the
/// order in which to take them.
pub fn plan_screen_resize(
    range: &ScreenSizeRange,
    current_width: u16,
    current_height: u16,
    width: u16,
    height: u16,
) -> (r: Result<Vec<ResizeStep>, InvalidResolution>)
    ensures
        match r {
            Ok(steps) => range.allows(width, height) && steps@ == resize_plan(
                current_width,
                current_height,
                width,
                height,
            ),
            Err(e) => !range.allows(width, height) && e == (InvalidResolution {
                width,
                height,
                range: *range,
            }),
        },
{
    if !range.contains(width, height) {
        return Err(InvalidResolution { width, height, range: *range });
    }
    Ok(resize_steps(current_width, current_height, width, height))
}

/// A mode that the server knows: its identifier and the size it stands for.
#[derive(Debug, PartialEq, Eq, Copy, Clone, Structural)]
pub struct ModeInfo {
    pub id: u32,
    pub width: u16,
    pub height: u16,
}

/// A mode to create for a size that the server has no mode for.
#[derive(Debug, Clone, PartialEq, Eq)]
pub struct NewMode {
    /// The name, `WxH`.
    pub name: String,
    pub width: u16,
    pub height: u16,
    /// Sixty frames of `width` by `height` pixels a second.
    pub dot_clock: u64,
    pub hsync_start: u16,
    pub hsync_end: u16,
    pub htotal: u16,
    pub hskew: u16,
    pub vsync_start: u16,
    pub vsync_end: u16,
    pub vtotal: u16,
}

/// The mode that an output is given for a size.
#[derive(Debug, Clone, PartialEq, Eq)]
pub enum ModeChoice {
    /// A mode that the server has already.
    Existing { id: u32 },
    /// A mode that has to be created and added to the output first.
    Create(NewMode),
}

/// The name of the mode for a size: width, `x`, height.
pub open spec fn mode_name(width: u16, height: u16) -> Seq<char> {
    decimal_text(width as nat) + "x"@ + decimal_text(height as nat)
}

/// The test "stands for the given size" on modes.
pub open spec fn mode_of_size(width: u16, height: u16) -> spec_fn(ModeInfo) -> bool {
    |m: ModeInfo| m.width == width && m.height == height
}

/// The mode to create for a size.
pub fn new_mode(width: u16, height: u16) -> (r: NewMode)
    ensures
        r.name@ == mode_name(width, height),
        r.width == width,
        r.height == height,
        r.dot_clock == 60 * width * height,
        r.htotal == width,
        r.vtotal == height,
        r.hsync_start == 0 && r.hsync_end == 0 && r.hskew == 0,
        r.vsync_start == 0 && r.vsync_end == 0,
{
    let mut name = u64_to_decimal(width as u64);
    name.append("x");
    let h = u64_to_decimal(height as u64);
    name.append(h.as_str());
    assert((width as u64) * (height as u64) <= 0xffff * 0xffff) by (nonlinear_arith)
        requires
            width <= 0xffff,
            height <= 0xffff,
    ;
    let pixels: u64 = (width as u64) * (height as u64);
    let dot_clock: u64 = 60 * pixels;
    assert(dot_clock == 60 * width * height) by (nonlinear_arith)
        requires
            dot_clock == 60 * pixels,
            pixels == (width as u64) * (height as u64),
    ;
    NewMode {
        name,
        width,
        height,
        dot_clock,
        hsync_start: 0,
        hsync_end: 0,
        htotal: width,
        hskew: 0,
        vsync_start: 0,
        vsync_end: 0,
        vtotal: height,
    }
}

/// Picks the mode for a size: the first of the server's modes that stands for
/// it, and a new mode where none does.
pub fn choose_output_mode(modes: &Vec<ModeInfo>, width: u16, height: u16) -> (r: ModeChoice)
    ensures
        match r {
            ModeChoice::Existing { id } => {
                let i = crate::search::first_match(modes@, mode_of_size(width, height));
                i < modes@.len() && id == modes@[i].id
            },
            ModeChoice::Create(mode) => {
                &&& crate::search::first_match(modes@, mode_of_size(width, height)) >= modes@.len()
                &&& mode.name@ == mode_name(width, height)
                &&& mode.width == width && mode.height == height
                &&& mode.dot_clock == 60 * width * height
                &&& mode.htotal == width && mode.vtotal == height
                &&& mode.hsync_start == 0 && mode.hsync_end == 0 && mode.hskew == 0
                &&& mode.vsync_start == 0 && mode.vsync_end == 0
            },
        },
{
    let mut i: usize = 0;
    while i < modes.len()
        invariant
            i <= modes.len(),
            forall|k: int| 0 <= k < i ==> !mode_of_size(width, height)(#[trigger] modes@[k]),
        decreases modes.len() - i,
    {
        if modes[i].width == width && modes[i].height == height {
            proof {
                crate::search::lemma_first_match_is(
                    modes@,
                    mode_of_size(width, height),
                    i as int,
                );
            }
            return ModeChoice::Existing { id: modes[i].id };
        }
        i += 1;
    }
    proof {
        crate::search::lemma_first_match_is(modes@, mode_of_size(width, height), i as int);
    }
    ModeChoice::Create(new_mode(width, height))
}

/// Whether an output of the given name belongs to a VNC server: its name
/// begins with `VNC`.
pub fn is_vnc_output(output_name: &str) -> (r: bool)
    ensures
        r == has_prefix(output_name@, "VNC"@),
{
    starts_with(output_name, "VNC")
}

} // verus!
