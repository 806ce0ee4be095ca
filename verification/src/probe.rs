//! Player counts read from instances.

use crate::error::EpsilonError;
use crate::instance::{EpsilonInstance, InstanceView};
use crate::text::same_text;
use vstd::prelude::*;

verus! {

/// The player count that a probe read from the instance of that name.
#[derive(Debug)]
pub struct ProbeReport {
    pub name: String,
    pub online: i32,
}

impl View for ProbeReport {
    type V = (Seq<char>, int);

    open spec fn view(&self) -> (Seq<char>, int) {
        (self.name@, self.online as int)
    }
}

/// The reports of a vector as plain values.
pub open spec fn report_views(reports: Seq<ProbeReport>) -> Seq<(Seq<char>, int)> {
    reports.map_values(|r: ProbeReport| r@)
}

/// The instances of a vector as plain values.
pub open spec fn instance_views(instances: Seq<&EpsilonInstance>) -> Seq<InstanceView> {
    instances.map_values(|i: &EpsilonInstance| i@)
}

/// The player count that was read from the instance `name`: that of the
/// first report of that name; `None` where there is none, which is how a
/// failed probe shows.
pub open spec fn probed_online(reports: Seq<(Seq<char>, int)>, name: Seq<char>) -> Option<int>
    decreases reports.len(),
{
    if reports.len() == 0 {
        None
    } else if reports[0].0 == name {
        Some(reports[0].1)
    } else {
        probed_online(reports.drop_first(), name)
    }
}

/// The players that `instance` can still take: its slots less the count
/// that was read from it. `None` where it has no status or no count was read.
pub open spec fn available_slots(instance: InstanceView, reports: Seq<(Seq<char>, int)>) -> Option<
    int,
> {
    match (instance.status, probed_online(reports, instance.name)) {
        (Some(status), Some(online)) => Some(status.slots - online),
        _ => None,
    }
}

/// The sum of the player counts read from `instances`; `None` where one of
/// them has no status or no count was read from it.
pub open spec fn total_online(instances: Seq<InstanceView>, reports: Seq<(Seq<char>, int)>) -> Option<
    int,
>
    decreases instances.len(),
{
    if instances.len() == 0 {
        Some(0)
    } else {
        match (
            total_online(instances.drop_last(), reports),
            available_slots(instances.last(), reports),
            probed_online(reports, instances.last().name),
        ) {
            (Some(sum), Some(_), Some(online)) => Some(sum + online),
            _ => None,
        }
    }
}

/// The sum of the players that `instances` can still take; `None` where
/// one of them has no status or no count was read from it.
pub open spec fn total_available(instances: Seq<InstanceView>, reports: Seq<(Seq<char>, int)>) -> Option<
    int,
>
    decreases instances.len(),
{
    if instances.len() == 0 {
        Some(0)
    } else {
        match (
            total_available(instances.drop_last(), reports),
            available_slots(instances.last(), reports),
        ) {
            (Some(sum), Some(available)) => Some(sum + available),
            _ => None,
        }
    }
}

/// Looks up the player count that was read from the instance `name`.
pub fn get_online_count(reports: &Vec<ProbeReport>, name: &str) -> (online: Option<i32>)
    ensures
        match online {
            Some(n) => probed_online(report_views(reports@), name@) == Some(n as int),
            None => probed_online(report_views(reports@), name@) is None,
        },
{
    let ghost views = report_views(reports@);
    let mut i: usize = 0;
    proof {
        assert(views.skip(0) =~= views);
    }
    while i < reports.len()
        invariant
            i <= reports@.len(),
            views == report_views(reports@),
            probed_online(views, name@) == probed_online(views.skip(i as int), name@),
        decreases reports@.len() - i,
    {
        proof {
            assert(views.skip(i as int)[0] == reports@[i as int]@);
            assert(views.skip(i as int).drop_first() =~= views.skip(i + 1));
        }
        if same_text(reports[i].name.as_str(), name) {
            return Some(reports[i].online);
        }
        i += 1;
    }
    None
}

/// Computes how many players `instance` can still take.
pub fn get_available_slots(instance: &EpsilonInstance, reports: &Vec<ProbeReport>) -> (available:
    Option<i64>)
    ensures
        match available {
            Some(n) => available_slots(instance@, report_views(reports@)) == Some(n as int)
                && -0x1_0000_0000 < n < 0x1_0000_0000,
            None => available_slots(instance@, report_views(reports@)) is None,
        },
{
    match (&instance.status, get_online_count(reports, instance.name.as_str())) {
        (Some(status), Some(online)) => Some(status.slots as i64 - online as i64),
        _ => None,
    }
}

/// The bound within which a sum over `n` instances stays.
spec fn sum_bound(n: int) -> int {
    n * 0x1_0000_0000
}

/// Sums the players that `instances` can still take. Fails where one of
/// them has no status or no count was read from it.
pub fn sum_available_slots(instances: &Vec<&EpsilonInstance>, reports: &Vec<ProbeReport>) -> (total:
    Result<i128, EpsilonError>)
    ensures
        match total {
            Ok(n) => total_available(instance_views(instances@), report_views(reports@)) == Some(
                n as int,
            ) && -(instances@.len() * 0x1_0000_0000) <= n <= instances@.len() * 0x1_0000_0000,
            Err(e) => total_available(instance_views(instances@), report_views(reports@)) is None
                && e.is_probe_failure(),
        },
{
    let ghost views = instance_views(instances@);
    let ghost table = report_views(reports@);
    let mut sum: i128 = 0;
    let mut i: usize = 0;
    proof {
        assert(views.take(0) =~= Seq::<InstanceView>::empty());
    }
    while i < instances.len()
        invariant
            i <= instances@.len(),
            views == instance_views(instances@),
            table == report_views(reports@),
            total_available(views.take(i as int), table) == Some(sum as int),
            -sum_bound(i as int) <= sum <= sum_bound(i as int),
        decreases instances@.len() - i,
    {
        proof {
            assert(views.take(i + 1).drop_last() =~= views.take(i as int));
            assert(views.take(i + 1).last() == instances@[i as int]@);
        }
        match get_available_slots(instances[i], reports) {
            Some(available) => {
                sum = sum + available as i128;
            },
            None => {
                proof {
                    lemma_total_available_fails(views, table, i as int);
                }
                return Err(failure_of(instances[i]));
            },
        }
        i += 1;
    }
    proof {
        assert(views.take(i as int) =~= views);
    }
    Ok(sum)
}

/// Sums the player counts read from `instances`. Fails where one of them
/// has no status or no count was read from it.
pub fn sum_online_count(instances: &Vec<&EpsilonInstance>, reports: &Vec<ProbeReport>) -> (total:
    Result<i128, EpsilonError>)
    ensures
        match total {
            Ok(n) => total_online(instance_views(instances@), report_views(reports@)) == Some(
                n as int,
            ) && -(instances@.len() * 0x1_0000_0000) <= n <= instances@.len() * 0x1_0000_0000,
            Err(e) => total_online(instance_views(instances@), report_views(reports@)) is None
                && e.is_probe_failure(),
        },
{
    let ghost views = instance_views(instances@);
    let ghost table = report_views(reports@);
    let mut sum: i128 = 0;
    let mut i: usize = 0;
    proof {
        assert(views.take(0) =~= Seq::<InstanceView>::empty());
    }
    while i < instances.len()
        invariant
            i <= instances@.len(),
            views == instance_views(instances@),
            table == report_views(reports@),
            total_online(views.take(i as int), table) == Some(sum as int),
            -sum_bound(i as int) <= sum <= sum_bound(i as int),
        decreases instances@.len() - i,
    {
        proof {
            assert(views.take(i + 1).drop_last() =~= views.take(i as int));
            assert(views.take(i + 1).last() == instances@[i as int]@);
        }
        let online = get_online_count(reports, instances[i].name.as_str());
        match (get_available_slots(instances[i], reports), online) {
            (Some(_), Some(online)) => {
                sum = sum + online as i128;
            },
            _ => {
                proof {
                    lemma_total_online_fails(views, table, i as int);
                }
                return Err(failure_of(instances[i]));
            },
        }
        i += 1;
    }
    proof {
        assert(views.take(i as int) =~= views);
    }
    Ok(sum)
}

/// The error that tells why nothing is known of how full `instance` is.
fn failure_of(instance: &EpsilonInstance) -> (e: EpsilonError)
    ensures
        e.is_probe_failure(),
{
    if instance.status.is_none() {
        EpsilonError::RetrieveStatusError
    } else {
        EpsilonError::PingMinecraftError(instance.name.clone())
    }
}

/// A sum fails as soon as one of its terms is unknown.
proof fn lemma_total_available_fails(
    instances: Seq<InstanceView>,
    reports: Seq<(Seq<char>, int)>,
    at: int,
)
    requires
        0 <= at < instances.len(),
        available_slots(instances[at], reports) is None,
    ensures
        total_available(instances, reports) is None,
    decreases instances.len(),
{
    if at < instances.len() - 1 {
        lemma_total_available_fails(instances.drop_last(), reports, at);
    }
}

/// A sum fails as soon as one of its terms is unknown.
proof fn lemma_total_online_fails(
    instances: Seq<InstanceView>,
    reports: Seq<(Seq<char>, int)>,
    at: int,
)
    requires
        0 <= at < instances.len(),
        available_slots(instances[at], reports) is None,
    ensures
        total_online(instances, reports) is None,
    decreases instances.len(),
{
    if at < instances.len() - 1 {
        lemma_total_online_fails(instances.drop_last(), reports, at);
    }
}

} // verus!
