use vstd::prelude::*;
use crate::component::{Component, Neighboring, PrivacyDefinition, Sum};
use crate::error::{ArgumentName, Error};
use crate::properties::{
    AggregatorProperties,
    ArrayProperties,
    NodeProperties,
    SensitivitySpace,
    ValueProperties,
    array_props_eqv,
    clone_node_properties,
};
use super::{
    PublicArguments,
    RowSensitivity,
    SensitivityBounds,
    array_argument,
    bounds_result,
    get_array_argument,
};

verus! {

/// The neighboring definition with the given wire number.
pub open spec fn spec_neighboring(value: i32) -> Option<Neighboring> {
    if value == 0 {
        Some(Neighboring::Substitute)
    } else if value == 1 {
        Some(Neighboring::AddRemove)
    } else {
        None
    }
}

/// The formula for the sensitivity of a sum in the L`k` space under a
/// neighboring definition.
pub open spec fn sum_formula(k: u32, neighboring: Neighboring) -> Result<RowSensitivity, Error> {
    if k == 1 {
        match neighboring {
            Neighboring::AddRemove => Ok(RowSensitivity::MaxAbs),
            Neighboring::Substitute => Ok(RowSensitivity::Range),
        }
    } else if k == 2 {
        match neighboring {
            Neighboring::AddRemove => Ok(RowSensitivity::MaxSquare),
            Neighboring::Substitute => Ok(RowSensitivity::RangeSquared),
        }
    } else {
        Err(Error::KNormL1L2Only)
    }
}

/// What `Sum::sensitivity_bounds` gives back.
pub open spec fn sum_sensitivity(
    privacy_definition: PrivacyDefinition,
    properties: NodeProperties,
    sensitivity_type: SensitivitySpace,
) -> Result<(RowSensitivity, Seq<u64>, Seq<u64>), Error> {
    match sensitivity_type {
        SensitivitySpace::KNorm(k) => match array_argument(properties, ArgumentName::Data) {
            Err(e) => Err(e),
            Ok(d) => if d.aggregator is Some {
                Err(Error::AggregatedData)
            } else if d.nullity {
                Err(Error::MayContainNullity)
            } else {
                match d.spec_min() {
                    Err(e) => Err(e),
                    Ok(lo) => match d.spec_max() {
                        Err(e) => Err(e),
                        Ok(hi) => match spec_neighboring(privacy_definition.neighboring) {
                            None => Err(Error::NeighboringUndefined),
                            Some(n) => match sum_formula(k, n) {
                                Err(e) => Err(e),
                                Ok(f) => Ok((f, lo, hi)),
                            },
                        },
                    },
                }
            },
        },
        _ => Err(Error::SumSensitivityKNorm),
    }
}

impl Sum {
    /// The properties of the sum of the data: the data's properties, with
    /// one record, no nature and a snapshot of the arguments' properties as
    /// the aggregator; an error where the data is missing or is not an array.
    pub fn propagate_property(
        &self,
        _privacy_definition: &PrivacyDefinition,
        _public_arguments: &PublicArguments,
        properties: &NodeProperties,
    ) -> (r: Result<ValueProperties, Error>)
        ensures
            match array_argument(*properties, ArgumentName::Data) {
                Err(e) => r == Err::<ValueProperties, Error>(e),
                Ok(d) => r matches Ok(ValueProperties::Array(p)) && array_props_eqv(
                    p,
                    ArrayProperties {
                        aggregator: Some(
                            AggregatorProperties {
                                component: Component::Sum(*self),
                                properties: *properties,
                            },
                        ),
                        num_records: Some(1),
                        nature: None,
                        ..d
                    },
                ),
            },
    {
        let mut data_property = get_array_argument(properties, ArgumentName::Data)?.clone();
        data_property.aggregator = Some(
            AggregatorProperties {
                component: Component::Sum(*self),
                properties: clone_node_properties(properties),
            },
        );
        data_property.num_records = Some(1);
        data_property.nature = None;
        Ok(ValueProperties::Array(data_property))
    }

    /// Names of the outputs; not implemented.
    pub fn get_names(&self, _properties: &NodeProperties) -> (r: Result<Vec<String>, Error>)
        ensures
            r == Err::<Vec<String>, Error>(Error::GetNamesNotImplemented),
    {
        Err(Error::GetNamesNotImplemented)
    }

    /// The bounds from which the sensitivity of the sum follows, with the
    /// formula that the space and the neighboring definition call for.
    pub fn sensitivity_bounds(
        &self,
        privacy_definition: &PrivacyDefinition,
        properties: &NodeProperties,
        sensitivity_type: &SensitivitySpace,
    ) -> (r: Result<SensitivityBounds, Error>)
        ensures
            bounds_result(r, sum_sensitivity(*privacy_definition, *properties, *sensitivity_type)),
    {
        match sensitivity_type {
            SensitivitySpace::KNorm(k) => {
                let data_property = get_array_argument(properties, ArgumentName::Data)?;
                data_property.assert_is_not_aggregated()?;
                data_property.assert_non_null()?;
                let data_min = data_property.min_f64()?;
                let data_max = data_property.max_f64()?;
                let neighboring_type = match Neighboring::from_i32(privacy_definition.neighboring) {
                    Some(n) => n,
                    None => {
                        return Err(Error::NeighboringUndefined);
                    },
                };
                let formula = match *k {
                    1 => match neighboring_type {
                        Neighboring::AddRemove => RowSensitivity::MaxAbs,
                        Neighboring::Substitute => RowSensitivity::Range,
                    },
                    2 => match neighboring_type {
                        Neighboring::AddRemove => RowSensitivity::MaxSquare,
                        Neighboring::Substitute => RowSensitivity::RangeSquared,
                    },
                    _ => {
                        return Err(Error::KNormL1L2Only);
                    },
                };
                Ok(SensitivityBounds { formula, min: data_min, max: data_max })
            },
            _ => Err(Error::SumSensitivityKNorm),
        }
    }
}

/// The sum's sensitivity bounds are the data's own bounds: its lower bounds
/// in `min` and its upper bounds in `max`, column by column. They are given
/// for every non-null, unaggregated data array with known bounds, under a
/// defined neighboring definition in the L1 or L2 space. The formula is the
/// range `max - min` for substitution in L1, the larger absolute bound for
/// addition/removal in L1, the squared range for substitution in L2 and the
/// larger squared bound for addition/removal in L2.
pub proof fn lemma_sum_bounds_are_the_data_bounds(
    privacy_definition: PrivacyDefinition,
    properties: NodeProperties,
    sensitivity_type: SensitivitySpace,
)
    ensures
        sum_sensitivity(privacy_definition, properties, sensitivity_type) matches Ok((f, lo, hi))
            ==> (array_argument(properties, ArgumentName::Data) matches Ok(d)
            && d.spec_min() == Ok::<Seq<u64>, Error>(lo) && d.spec_max() == Ok::<Seq<u64>, Error>(hi)
            && (f == RowSensitivity::Range <==> (sensitivity_type == SensitivitySpace::KNorm(1)
            && privacy_definition.neighboring == 0))
            && (f == RowSensitivity::MaxAbs <==> (sensitivity_type == SensitivitySpace::KNorm(1)
            && privacy_definition.neighboring == 1))
            && (f == RowSensitivity::RangeSquared <==> (sensitivity_type == SensitivitySpace::KNorm(2)
            && privacy_definition.neighboring == 0))
            && (f == RowSensitivity::MaxSquare <==> (sensitivity_type == SensitivitySpace::KNorm(2)
            && privacy_definition.neighboring == 1))),
        ((sensitivity_type == SensitivitySpace::KNorm(1) || sensitivity_type == SensitivitySpace::KNorm(2))
            && (privacy_definition.neighboring == 0 || privacy_definition.neighboring == 1)
            && (array_argument(properties, ArgumentName::Data) matches Ok(d) && d.aggregator is None
            && !d.nullity && d.spec_min() is Ok && d.spec_max() is Ok))
            ==> sum_sensitivity(privacy_definition, properties, sensitivity_type) is Ok,
{
}

} // verus!
