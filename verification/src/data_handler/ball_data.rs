use vstd::prelude::*;

verus! {

/// Sign of a field coordinate as vision reports it: below zero, above zero,
/// or neither (zero, or a value that compares with nothing).
#[derive(Debug, Clone, Copy, PartialEq, Eq, Structural)]
pub enum AxisSign {
    Negative,
    Zero,
    Positive,
}

/// A ball from the raw vision: its position in whole millimetres (as the
/// coordinate converts to an integer) and the signs of the coordinates.
#[derive(Debug, Clone, Copy, PartialEq, Eq, Structural)]
pub struct RawBall {
    pub x: i32,
    pub y: i32,
    pub x_sign: AxisSign,
    pub y_sign: AxisSign,
}

/// A ball from the tracked vision: position and, if tracked, velocity, in
/// whole units, with the signs of the position coordinates.
#[derive(Debug, Clone, Copy, PartialEq, Eq, Structural)]
pub struct TrackedBall {
    pub x: i32,
    pub y: i32,
    pub vel: Option<CpVector2>,
    pub x_sign: AxisSign,
    pub y_sign: AxisSign,
}

/// The balls of one vision packet, from either vision source.
pub enum VisionBalls {
    Raw(Vec<RawBall>),
    Tracker(Vec<TrackedBall>),
}

/// What the ball selection reads of the interface command: whether only one
/// quarter of the field (the test field) is used, and which one.
#[derive(Debug, Clone, Copy, PartialEq, Eq, Structural)]
pub struct InterfaceCommand {
    pub enable_testfield: bool,
    pub testfield: i32,
}

/// A vector of the robot protocol.
#[derive(Debug, Clone, Copy, PartialEq, Eq, Structural)]
pub struct CpVector2 {
    pub x: i32,
    pub y: i32,
}

/// A ball of the robot protocol.
#[derive(Debug, Clone, Copy, PartialEq, Eq, Structural)]
pub struct CpBall {
    pub pos: CpVector2,
    pub vel: Option<CpVector2>,
}

/// Whether a ball lies in test area `area`: 0 is -x/+y, 1 is +x/+y, 2 is
/// +x/-y and 3 is -x/-y; no ball lies in any other area.
pub open spec fn in_test_area(ball: TrackedBall, area: i32) -> bool {
    if area == 0 {
        ball.x_sign == AxisSign::Negative && ball.y_sign == AxisSign::Positive
    } else if area == 1 {
        ball.x_sign == AxisSign::Positive && ball.y_sign == AxisSign::Positive
    } else if area == 2 {
        ball.x_sign == AxisSign::Positive && ball.y_sign == AxisSign::Negative
    } else if area == 3 {
        ball.x_sign == AxisSign::Negative && ball.y_sign == AxisSign::Negative
    } else {
        false
    }
}

/// A raw ball seen as a tracked ball without velocity.
pub open spec fn raw_as_tracked(ball: RawBall) -> TrackedBall {
    TrackedBall { x: ball.x, y: ball.y, vel: None, x_sign: ball.x_sign, y_sign: ball.y_sign }
}

/// The balls of a packet, all seen as tracked balls.
pub open spec fn generic_balls(balls: VisionBalls) -> Seq<TrackedBall> {
    match balls {
        VisionBalls::Raw(raw) => raw@.map_values(|b: RawBall| raw_as_tracked(b)),
        VisionBalls::Tracker(from_tracker) => from_tracker@,
    }
}

/// The protocol ball for a vision ball; a missing velocity reads as zero.
pub open spec fn cp_ball_of(ball: TrackedBall) -> CpBall {
    CpBall {
        pos: CpVector2 { x: ball.x, y: ball.y },
        vel: Some(
            match ball.vel {
                Some(v) => v,
                None => CpVector2 { x: 0, y: 0 },
            },
        ),
    }
}

/// The protocol ball sent when no ball lies in the test area.
pub open spec fn no_ball() -> CpBall {
    CpBall { pos: CpVector2 { x: 0, y: 0 }, vel: Some(CpVector2 { x: 0, y: 0 }) }
}

fn raw_to_tracked(ball: RawBall) -> (r: TrackedBall)
    ensures
        r == raw_as_tracked(ball),
{
    TrackedBall { x: ball.x, y: ball.y, vel: None, x_sign: ball.x_sign, y_sign: ball.y_sign }
}

fn ball_in_test_area(ball: &TrackedBall, area: i32) -> (r: bool)
    ensures
        r == in_test_area(*ball, area),
{
    match area {
        0 => ball.x_sign == AxisSign::Negative && ball.y_sign == AxisSign::Positive,
        1 => ball.x_sign == AxisSign::Positive && ball.y_sign == AxisSign::Positive,
        2 => ball.x_sign == AxisSign::Positive && ball.y_sign == AxisSign::Negative,
        3 => ball.x_sign == AxisSign::Negative && ball.y_sign == AxisSign::Negative,
        _ => false,
    }
}

fn to_cp_ball(ball: &TrackedBall) -> (r: CpBall)
    ensures
        r == cp_ball_of(*ball),
{
    let vel = match ball.vel {
        Some(v) => v,
        None => CpVector2 { x: 0, y: 0 },
    };
    CpBall { pos: CpVector2 { x: ball.x, y: ball.y }, vel: Some(vel) }
}

/// Whether ball `i` is the first of `all` inside test area `area`.
pub open spec fn first_in_area(all: Seq<TrackedBall>, area: i32, i: int) -> bool {
    &&& 0 <= i < all.len()
    &&& in_test_area(all[i], area)
    &&& forall|j: int| 0 <= j < i ==> !in_test_area(all[j], area)
}

/// The ball sent to the robots for the vision balls `all`: without the test
/// field the first ball; with it the first ball inside the selected quarter,
/// or a ball at the origin, standing still, when none lies there.
pub open spec fn selected_ball(all: Seq<TrackedBall>, interface_command: InterfaceCommand) -> CpBall {
    let area = interface_command.testfield;
    if !interface_command.enable_testfield {
        cp_ball_of(all[0])
    } else if exists|i: int| 0 <= i < all.len() && in_test_area(all[i], area) {
        cp_ball_of(all[choose|i: int| first_in_area(all, area, i)])
    } else {
        no_ball()
    }
}

/// Converts the balls of a vision packet into the ball sent to the robots.
/// Without the test field the first ball is taken. With the test field on,
/// the first ball inside the selected quarter of the field is taken, and
/// with none there the ball is reported at the origin, standing still.
pub fn convert_ball(balls: VisionBalls, interface_command: InterfaceCommand) -> (r: CpBall)
    requires
        !interface_command.enable_testfield ==> generic_balls(balls).len() > 0,
    ensures
        r == selected_ball(generic_balls(balls), interface_command),
{
    let ghost all = generic_balls(balls);
    let balls_generic: Vec<TrackedBall> = match balls {
        VisionBalls::Raw(raw) => {
            let mut converted: Vec<TrackedBall> = Vec::new();
            let mut k: usize = 0;
            while k < raw.len()
                invariant
                    k <= raw@.len(),
                    converted@ =~= raw@.take(k as int).map_values(|b: RawBall| raw_as_tracked(b)),
                decreases raw@.len() - k,
            {
                converted.push(raw_to_tracked(raw[k]));
                assert(raw@.take(k + 1 as int) =~= raw@.take(k as int).push(raw@[k as int]));
                k = k + 1;
            }
            assert(raw@.take(raw@.len() as int) =~= raw@);
            converted
        },
        VisionBalls::Tracker(from_tracker) => from_tracker,
    };
    assert(balls_generic@ =~= all);

    if !interface_command.enable_testfield {
        return to_cp_ball(&balls_generic[0]);
    }
    let area = interface_command.testfield;
    let mut i: usize = 0;
    while i < balls_generic.len()
        invariant
            i <= balls_generic@.len(),
            balls_generic@ == all,
            all == generic_balls(balls),
            interface_command.enable_testfield,
            area == interface_command.testfield,
            forall|j: int| 0 <= j < i ==> !in_test_area(all[j], area),
        decreases balls_generic@.len() - i,
    {
        if ball_in_test_area(&balls_generic[i], area) {
            let r = to_cp_ball(&balls_generic[i]);
            proof {
                let w = i as int;
                assert(first_in_area(all, area, w));
                let c = choose|c: int| first_in_area(all, area, c);
                assert(first_in_area(all, area, c));
                if c < w {
                    assert(!in_test_area(all[c], area));
                } else if w < c {
                    assert(!in_test_area(all[w], area));
                }
            }
            return r;
        }
        i = i + 1;
    }
    CpBall { pos: CpVector2 { x: 0, y: 0 }, vel: Some(CpVector2 { x: 0, y: 0 }) }
}

} // verus!
