//! What parameters do to sections.
use crate::scalar::Float32;
use crate::scalar::num;
use crate::shell::constants::RADIUS_FLOOR_BITS;
use crate::shell::params::ShellParamsView;
use crate::shell::topology::ShellSectionTopology;
use vstd::prelude::*;

verus! {

/// The parameter of a slot, if there is one.
pub open spec fn given(params: Seq<Float32>, slot: Option<usize>) -> Option<Float32> {
    match slot {
        Some(index) if index < params.len() => Some(params[index as int]),
        _ => None,
    }
}

/// A parameter takes the place of the value whose slot names it, and a value without a
/// parameter stays what it is. A radius is never less than the smallest one.
pub proof fn lemma_parameters_replace_values(
    section: ShellSectionTopology,
    params: ShellParamsView<'_>,
)
    ensures
        given(params@, section.station_param) is None ==> section.station(params)
            == section.station,
        given(params@, section.station_param) matches Some(value) ==> section.station(params)
            == value,
        given(params@, section.center_y_param) is None ==> section.center(params).0
            == section.center_y,
        given(params@, section.center_y_param) matches Some(value) ==> section.center(params).0
            == value,
        given(params@, section.center_z_param) is None ==> section.center(params).1
            == section.center_z,
        given(params@, section.center_z_param) matches Some(value) ==> section.center(params).1
            == value,
        num(RADIUS_FLOOR_BITS).le(section.radius(params)),
        given(params@, section.radius_param) is None && num(RADIUS_FLOOR_BITS).lt(section.radius)
            ==> section.radius(params) == section.radius,
        given(params@, section.radius_param) matches Some(value) ==> (num(RADIUS_FLOOR_BITS).lt(
            value,
        ) ==> section.radius(params) == value),
{
}

} // verus!
