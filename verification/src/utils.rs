use vstd::prelude::*;

verus! {

/// Field dimensions in millimetres.
#[derive(Debug, Clone, Copy, PartialEq, Eq, Structural)]
pub struct FieldSetup {
    pub width: u32,
    pub height: u32,
    pub goal_width: u32,
    pub penalty_width: u32,
    pub penalty_height: u32,
    pub _center_circle_radius: u32,
    pub run_off_width: u32,
}

impl Default for FieldSetup {
    /// The dimensions assumed before vision sends the geometry: a 9000 mm by
    /// 6000 mm field.
    fn default() -> (r: FieldSetup)
        ensures
            r == (FieldSetup {
                width: 9000,
                height: 6000,
                goal_width: 1000,
                penalty_width: 2000,
                penalty_height: 1000,
                _center_circle_radius: 1000,
                run_off_width: 200,
            }),
    {
        FieldSetup {
            width: 9000,
            height: 6000,
            goal_width: 1000,
            penalty_width: 2000,
            penalty_height: 1000,
            _center_circle_radius: 1000,
            run_off_width: 200,
        }
    }
}

/// What the field setup reads of the vision geometry (all in millimetres).
#[derive(Debug, Clone, Copy, PartialEq, Eq, Structural)]
pub struct FieldGeometry {
    pub field_length: i32,
    pub field_width: i32,
    pub goal_width: i32,
    pub penalty_area_width: Option<i32>,
    pub penalty_area_depth: Option<i32>,
    pub center_circle_radius: Option<i32>,
    pub goal_substitution_area_width: Option<i32>,
}

/// An optional geometry value, or `default` when vision leaves it out.
pub open spec fn or_default(value: Option<i32>, default: i32) -> i32 {
    match value {
        Some(v) => v,
        None => default,
    }
}

fn value_or(value: Option<i32>, default: i32) -> (r: i32)
    ensures
        r == or_default(value, default),
{
    match value {
        Some(v) => v,
        None => default,
    }
}

impl FieldSetup {
    /// The field setup that vision geometry describes; the field length is the
    /// setup's width and the field width its height. Missing optional values
    /// read as zero, except the substitution area width, which reads as 200 mm.
    pub fn from_geometry(geometry: &FieldGeometry) -> (r: FieldSetup)
        ensures
            r.width == geometry.field_length as u32,
            r.height == geometry.field_width as u32,
            r.goal_width == geometry.goal_width as u32,
            r.penalty_width == or_default(geometry.penalty_area_width, 0) as u32,
            r.penalty_height == or_default(geometry.penalty_area_depth, 0) as u32,
            r._center_circle_radius == or_default(geometry.center_circle_radius, 0) as u32,
            r.run_off_width == or_default(geometry.goal_substitution_area_width, 200) as u32,
    {
        FieldSetup {
            width: geometry.field_length as u32,
            height: geometry.field_width as u32,
            goal_width: geometry.goal_width as u32,
            penalty_width: value_or(geometry.penalty_area_width, 0) as u32,
            penalty_height: value_or(geometry.penalty_area_depth, 0) as u32,
            _center_circle_radius: value_or(geometry.center_circle_radius, 0) as u32,
            run_off_width: value_or(geometry.goal_substitution_area_width, 200) as u32,
        }
    }
}

} // verus!
