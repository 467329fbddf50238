use vstd::prelude::*;
use crate::component::{Component, Minimum, PrivacyDefinition};
use crate::error::{ArgumentName, Error};
use crate::properties::{
    AggregatorProperties,
    ArrayProperties,
    NodeProperties,
    SensitivitySpace,
    ValueProperties,
    array_props_eqv,
    clone_node_properties,
};
use super::{
    PublicArguments,
    RowSensitivity,
    SensitivityBounds,
    array_argument,
    bounds_result,
    get_array_argument,
};

verus! {

/// What `Minimum::sensitivity_bounds` gives back: the bounds of the data
/// and the range formula, where the data is known to be non-null with
/// known bounds and the space is the L1 norm.
pub open spec fn minimum_sensitivity(
    properties: NodeProperties,
    sensitivity_type: SensitivitySpace,
) -> Result<(RowSensitivity, Seq<u64>, Seq<u64>), Error> {
    match array_argument(properties, ArgumentName::Data) {
        Err(e) => Err(e),
        Ok(d) => if d.nullity {
            Err(Error::MayContainNullity)
        } else {
            match sensitivity_type {
                SensitivitySpace::KNorm(k) => if k != 1 {
                    Err(Error::MinimumSensitivityKNorm)
                } else {
                    match d.spec_min() {
                        Err(e) => Err(e),
                        Ok(lo) => match d.spec_max() {
                            Err(e) => Err(e),
                            Ok(hi) => Ok((RowSensitivity::Range, lo, hi)),
                        },
                    }
                },
                _ => Err(Error::MinimumSensitivityKNorm),
            }
        }
    }
}

impl Minimum {
    /// The properties of the minimum of the data: the data's properties,
    /// with one record and a snapshot of the arguments' properties as the
    /// aggregator; an error where the data is missing, is not an array or
    /// is already aggregated.
    pub fn propagate_property(
        &self,
        _privacy_definition: &PrivacyDefinition,
        _public_arguments: &PublicArguments,
        properties: &NodeProperties,
    ) -> (r: Result<ValueProperties, Error>)
        ensures
            match array_argument(*properties, ArgumentName::Data) {
                Err(e) => r == Err::<ValueProperties, Error>(e),
                Ok(d) => if d.aggregator is Some {
                    r == Err::<ValueProperties, Error>(Error::AggregatedData)
                } else {
                    r matches Ok(ValueProperties::Array(p)) && array_props_eqv(
                        p,
                        ArrayProperties {
                            aggregator: Some(
                                AggregatorProperties {
                                    component: Component::Minimum(*self),
                                    properties: *properties,
                                },
                            ),
                            num_records: Some(1),
                            ..d
                        },
                    )
                },
            },
    {
        let mut data_property = get_array_argument(properties, ArgumentName::Data)?.clone();
        data_property.assert_is_not_aggregated()?;
        data_property.aggregator = Some(
            AggregatorProperties {
                component: Component::Minimum(*self),
                properties: clone_node_properties(properties),
            },
        );
        data_property.num_records = Some(1);
        Ok(ValueProperties::Array(data_property))
    }

    /// Names of the outputs; not implemented.
    pub fn get_names(&self, _properties: &NodeProperties) -> (r: Result<Vec<String>, Error>)
        ensures
            r == Err::<Vec<String>, Error>(Error::GetNamesNotImplemented),
    {
        Err(Error::GetNamesNotImplemented)
    }

    /// The bounds from which the sensitivity of the minimum follows: the
    /// lower and upper bound of each column, with the range as formula.
    pub fn sensitivity_bounds(
        &self,
        _privacy_definition: &PrivacyDefinition,
        properties: &NodeProperties,
        sensitivity_type: &SensitivitySpace,
    ) -> (r: Result<SensitivityBounds, Error>)
        ensures
            bounds_result(r, minimum_sensitivity(*properties, *sensitivity_type)),
    {
        let data_property = get_array_argument(properties, ArgumentName::Data)?;
        data_property.assert_non_null()?;
        match sensitivity_type {
            SensitivitySpace::KNorm(k) => {
                if *k != 1 {
                    return Err(Error::MinimumSensitivityKNorm);
                }
                let min = data_property.min_f64()?;
                let max = data_property.max_f64()?;
                Ok(SensitivityBounds { formula: RowSensitivity::Range, min, max })
            },
            _ => Err(Error::MinimumSensitivityKNorm),
        }
    }
}

/// The minimum's sensitivity bounds are the data's own bounds, with the
/// range as formula: its lower bounds in `min` and its upper bounds in
/// `max`. They are given for every non-null data array with known bounds in
/// the L1 space, whatever else is known of the data.
pub proof fn lemma_minimum_bounds_are_the_data_bounds(
    properties: NodeProperties,
    sensitivity_type: SensitivitySpace,
)
    ensures
        minimum_sensitivity(properties, sensitivity_type) matches Ok((f, lo, hi)) ==> (f
            == RowSensitivity::Range && (array_argument(properties, ArgumentName::Data) matches Ok(d)
            && d.spec_min() == Ok::<Seq<u64>, Error>(lo) && d.spec_max() == Ok::<Seq<u64>, Error>(hi))),
        (sensitivity_type == SensitivitySpace::KNorm(1) && (array_argument(
            properties,
            ArgumentName::Data,
        ) matches Ok(d) && !d.nullity && d.spec_min() is Ok && d.spec_max() is Ok))
            ==> minimum_sensitivity(properties, sensitivity_type) is Ok,
{
}

/// The minimum's sensitivity does not depend on the number of records of
/// the data: two data arrays that differ in nothing else give the same
/// answer.
pub proof fn lemma_minimum_ignores_record_count(
    a: NodeProperties,
    b: NodeProperties,
    da: ArrayProperties,
    db: ArrayProperties,
    sensitivity_type: SensitivitySpace,
)
    requires
        array_argument(a, ArgumentName::Data) == Ok::<ArrayProperties, Error>(da),
        array_argument(b, ArgumentName::Data) == Ok::<ArrayProperties, Error>(db),
        db == (ArrayProperties { num_records: db.num_records, ..da }),
    ensures
        minimum_sensitivity(a, sensitivity_type) == minimum_sensitivity(b, sensitivity_type),
{
}

} // verus!
