//! The instance listing's part that computes: the identifiers out of what the service
//! returned.

use crate::error::MetricsNotifierError;
use vstd::prelude::*;

verus! {

/// The most instances asked for in one page.
pub const PAGE_SIZE: i64 = 20;

/// One instance as the service describes it.
#[derive(Clone, Debug, PartialEq, Eq)]
pub struct Instance {
    pub instance_id: Option<String>,
}

/// One reservation as the service describes it.
#[derive(Clone, Debug, PartialEq, Eq)]
pub struct Reservation {
    pub instances: Option<Vec<Instance>>,
}

/// An instance that is known by its identifier.
#[derive(Clone, Debug, PartialEq, Eq)]
pub struct MachineInstance {
    pub instance_id: String,
}

/// What is asked of the service when the instances are listed.
#[derive(Clone, Copy, Debug, PartialEq, Eq, Structural)]
pub struct InstancesRequest {
    pub max_results: Option<i64>,
}

/// Whether every instance of the list has its identifier.
pub open spec fn all_identified(instances: Seq<Instance>) -> bool {
    forall|i: int| 0 <= i < instances.len() ==> (#[trigger] instances[i]).instance_id is Some
}

/// Whether every reservation has its instances and every instance its identifier.
pub open spec fn all_listed(reservations: Seq<Reservation>) -> bool {
    forall|i: int|
        0 <= i < reservations.len() ==> (#[trigger] reservations[i]).instances is Some
            && all_identified(reservations[i].instances->0@)
}

/// The identifiers of a list of instances, in the order of the list.
pub open spec fn identifiers(instances: Seq<Instance>) -> Seq<Seq<char>> {
    Seq::new(instances.len(), |i: int| instances[i].instance_id->0@)
}

/// The identifiers of all instances, reservation by reservation.
pub open spec fn all_identifiers(reservations: Seq<Reservation>) -> Seq<Seq<char>>
    decreases reservations.len(),
{
    if reservations.len() == 0 {
        Seq::empty()
    } else {
        all_identifiers(reservations.drop_last()) + identifiers(
            reservations.last().instances->0@,
        )
    }
}

/// The identifiers of the machines, in their order.
pub open spec fn names(machines: Seq<MachineInstance>) -> Seq<Seq<char>> {
    Seq::new(machines.len(), |i: int| machines[i].instance_id@)
}

/// The part of the EC2 client that needs no connection.
pub struct Ec2InstanceClient {}

impl Ec2InstanceClient {
    pub fn new() -> (client: Ec2InstanceClient) {
        Ec2InstanceClient {  }
    }

    /// The request for one page of instances.
    pub fn instances_request(&self) -> (request: InstancesRequest)
        ensures
            request.max_results == Some(PAGE_SIZE),
    {
        InstancesRequest { max_results: Some(PAGE_SIZE) }
    }

    /// The machines in what the service answered: its failure is the listing's, in the
    /// service's own words, and what it lists is read as `machine_instances` reads it.
    pub fn describe_all_instances(
        &self,
        described: Result<Option<Vec<Reservation>>, String>,
    ) -> (result: Result<Vec<MachineInstance>, MetricsNotifierError>)
        ensures
            match result {
                Ok(machines) => described matches Ok(Some(listed)) && all_listed(listed@)
                    && names(machines@) == all_identifiers(listed@) && machines@.len()
                    == all_identifiers(listed@).len(),
                Err(error) => match described {
                    Err(cause) => error == MetricsNotifierError::DescribeInstancesError(cause),
                    Ok(reservations) => error == MetricsNotifierError::NoneValue && !(
                    reservations matches Some(listed) && all_listed(listed@)),
                },
            },
            described is Err ==> result is Err,
    {
        match described {
            Ok(reservations) => self.machine_instances(&reservations),
            Err(cause) => Err(MetricsNotifierError::DescribeInstancesError(cause)),
        }
    }

    /// The machines among what the service returned, in its order. A response without
    /// reservations, a reservation without instances and an instance without identifier
    /// each fail the whole listing.
    pub fn machine_instances(&self, reservations: &Option<Vec<Reservation>>) -> (result: Result<
        Vec<MachineInstance>,
        MetricsNotifierError,
    >)
        ensures
            match result {
                Ok(machines) => reservations matches Some(listed) && all_listed(listed@)
                    && names(machines@) == all_identifiers(listed@) && machines@.len()
                    == all_identifiers(listed@).len(),
                Err(error) => error == MetricsNotifierError::NoneValue && !(reservations matches Some(
                    listed,
                ) && all_listed(listed@)),
            },
    {
        let listed = match reservations {
            Some(listed) => listed,
            None => {
                return Err(MetricsNotifierError::NoneValue);
            },
        };
        let mut machines: Vec<MachineInstance> = Vec::new();
        let mut r: usize = 0;
        while r < listed.len()
            invariant
                *reservations == Some(*listed),
                r <= listed.len(),
                all_listed(listed@.take(r as int)),
                names(machines@) == all_identifiers(listed@.take(r as int)),
            decreases listed.len() - r,
        {
            assert(listed@.take(r + 1).drop_last() == listed@.take(r as int));
            assert(listed@.take(r + 1).last() == listed@[r as int]);
            let instances = match &listed[r].instances {
                Some(instances) => instances,
                None => {
                    assert(listed@[r as int].instances is None);
                    return Err(MetricsNotifierError::NoneValue);
                },
            };
            let ghost before = machines@;
            let mut i: usize = 0;
            while i < instances.len()
                invariant
                    *reservations == Some(*listed),
                    i <= instances.len(),
                    all_identified(instances@.take(i as int)),
                    names(machines@) == names(before) + identifiers(instances@.take(i as int)),
                    listed@[r as int].instances == Some(*instances),
                    r < listed.len(),
                decreases instances.len() - i,
            {
                let instance_id = match &instances[i].instance_id {
                    Some(instance_id) => instance_id.clone(),
                    None => {
                        assert(instances@[i as int].instance_id is None);
                        assert(!all_identified(listed@[r as int].instances->0@));
                        return Err(MetricsNotifierError::NoneValue);
                    },
                };
                let ghost earlier = machines@;
                machines.push(MachineInstance { instance_id });
                proof {
                    assert(instances@.take(i + 1) == instances@.take(i as int).push(
                        instances@[i as int],
                    ));
                    assert(names(machines@) =~= names(earlier).push(instance_id@));
                    assert(identifiers(instances@.take(i + 1)) =~= identifiers(
                        instances@.take(i as int),
                    ).push(instance_id@));
                    assert(names(machines@) =~= names(before) + identifiers(
                        instances@.take(i + 1),
                    ));
                }
                i += 1;
            }
            assert(instances@.take(instances.len() as int) == instances@);
            proof {
                let next = listed@.take(r + 1);
                assert forall|k: int| 0 <= k < next.len() implies (#[trigger] next[k]).instances
                    is Some && all_identified(next[k].instances->0@) by {
                    if k < r {
                        assert(listed@.take(r as int)[k] == next[k]);
                    }
                }
            }
            r += 1;
        }
        assert(listed@.take(listed.len() as int) == listed@);
        assert(names(machines@).len() == machines@.len());
        Ok(machines)
    }
}

} // verus!
