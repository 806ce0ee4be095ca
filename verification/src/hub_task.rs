//! Scales the hubs with the players they hold.

use crate::error::EpsilonError;
use crate::instance::{EpsilonInstance, InstanceView};
use crate::instance_provider::{all_observed, selection, InstanceProvider};
use crate::instance_type::InstanceType;
use crate::probe::{
    get_online_count, instance_views, probed_online, report_views, sum_online_count, total_online,
    ProbeReport,
};
use crate::state::EpsilonState;
use crate::task::{action_view, ActionView, TaskAction};
use crate::template::Template;
use vstd::prelude::*;

verus! {

/// How often the task runs, in milliseconds.
pub const HUB_TASK_INTERVAL_MILLIS: u64 = 2000;

/// How many ticks with a hub too many pass before one is removed.
pub const HUB_COOLDOWN_TICKS: u32 = 60;

/// Opens a hub when the hubs fill up, and closes one when they have been
/// emptier than needed for a while.
pub struct HubTask {
    hub_template: Template,
    time: u32,
}

/// The hubs needed for `online` players where a hub takes `slots`: room
/// for 1.6 times the players, rounded down to whole hubs, and one more.
pub open spec fn hubs_needed(online: int, slots: int) -> int {
    (online * 8) / (5 * slots) + 1
}

/// Whether `at` is the place of the hub to remove: the first among those
/// with the fewest players.
pub open spec fn is_least_loaded(
    ready: Seq<InstanceView>,
    reports: Seq<(Seq<char>, int)>,
    at: int,
) -> bool {
    &&& 0 <= at < ready.len()
    &&& probed_online(reports, ready[at].name) matches Some(least)
    &&& forall|j: int|
        0 <= j < ready.len() ==> (#[trigger] probed_online(reports, ready[j].name)) is Some && least
            <= probed_online(reports, ready[j].name)->0
    &&& forall|j: int|
        0 <= j < at ==> (#[trigger] probed_online(reports, ready[j].name)) is Some && least
            < probed_online(reports, ready[j].name)->0
}

/// The hubs of the snapshot that are in `state`.
pub open spec fn hubs_in(instances: Seq<InstanceView>, template: Seq<char>, state: EpsilonState) -> Seq<
    InstanceView,
> {
    selection(instances, Some(InstanceType::Server), Some(template), Some(state))
}

/// Whether one tick may take the task from `before` to `after` waiting
/// ticks with the command `action`, for a snapshot in which every instance
/// has a status.
///
/// Nothing happens while no proxy runs, while a hub is starting, or where
/// the players of a running hub could not be counted. Else, with fewer
/// running hubs than needed, a hub is started and the wait begins anew.
/// With more than needed, the task waits a tick, until it has waited
/// [`HUB_COOLDOWN_TICKS`]: then the wait begins anew and the least loaded
/// hub is removed.
pub open spec fn is_hub_step(
    action: Option<ActionView>,
    before: int,
    after: int,
    instances: Seq<InstanceView>,
    reports: Seq<(Seq<char>, int)>,
    template: Seq<char>,
    slots: int,
) -> bool {
    let proxies = selection(
        instances,
        Some(InstanceType::Proxy),
        None,
        Some(EpsilonState::Running),
    );
    let starting = hubs_in(instances, template, EpsilonState::Starting);
    let ready = hubs_in(instances, template, EpsilonState::Running);
    if proxies.len() == 0 || starting.len() > 0 || total_online(ready, reports) is None {
        action is None && after == before
    } else {
        let needed = hubs_needed(total_online(ready, reports)->0, slots);
        if ready.len() < needed {
            action == Some(ActionView::StartInstance(template)) && after == 0
        } else if ready.len() > needed {
            if before < HUB_COOLDOWN_TICKS {
                action is None && after == before + 1
            } else {
                &&& after == 0
                &&& if ready.len() == 0 {
                    action is None
                } else {
                    action matches Some(ActionView::RemoveInstance(name)) && exists|at: int|
                        is_least_loaded(ready, reports, at) && name == (#[trigger] ready[at]).name
                }
            }
        } else {
            action is None && after == before
        }
    }
}

/// Divides rounding down.
fn floor_div(num: i128, den: i128) -> (q: i128)
    requires
        den > 0,
        -0x4000_0000_0000_0000_0000_0000_0000_0000 < num < 0x4000_0000_0000_0000_0000_0000_0000_0000,
    ensures
        q == num / den,
        num >= 0 ==> 0 <= q <= num,
        num < 0 ==> num <= q < 0,
{
    if num >= 0 {
        proof {
            vstd::arithmetic::div_mod::lemma_div_pos_is_pos(num as int, den as int);
            vstd::arithmetic::div_mod::lemma_div_nonincreasing(num as int, den as int);
        }
        num / den
    } else {
        let positive = -num - 1;
        proof {
            vstd::arithmetic::div_mod::lemma_div_pos_is_pos(positive as int, den as int);
            vstd::arithmetic::div_mod::lemma_div_nonincreasing(positive as int, den as int);
            lemma_floor_of_negative(num as int, den as int);
        }
        -(positive / den) - 1
    }
}

/// The quotient of a negative number, rounded down, from the quotient of a
/// number that is not negative.
proof fn lemma_floor_of_negative(num: int, den: int)
    requires
        num < 0,
        den > 0,
    ensures
        num / den == -((-num - 1) / den) - 1,
{
    let p = -num - 1;
    let a = p / den;
    let r = p % den;
    vstd::arithmetic::div_mod::lemma_fundamental_div_mod(p, den);
    vstd::arithmetic::div_mod::lemma_mod_pos_bound(p, den);
    assert(num == (-a - 1) * den + (den - r - 1)) by (nonlinear_arith)
        requires
            p == den * a + r,
            num == -p - 1,
    ;
    vstd::arithmetic::div_mod::lemma_fundamental_div_mod_converse(
        num,
        den,
        -a - 1,
        den - r - 1,
    );
}

impl HubTask {
    #[verifier::type_invariant]
    spec fn inv(&self) -> bool {
        self.hub_template.slots > 0 && self.time <= HUB_COOLDOWN_TICKS
    }

    /// The name of the template that hubs are made from.
    pub closed spec fn template_name(&self) -> Seq<char> {
        self.hub_template.name@
    }

    /// The players that one hub takes.
    pub closed spec fn slots(&self) -> int {
        self.hub_template.slots as int
    }

    /// The ticks that the task has waited with a hub too many.
    pub closed spec fn cooldown_ticks(&self) -> int {
        self.time as int
    }

    /// A task that makes hubs from `hub_template` and has not waited yet.
    pub fn init(hub_template: Template) -> (task: HubTask)
        requires
            hub_template.slots > 0,
        ensures
            task.template_name() == hub_template.name@,
            task.slots() == hub_template.slots,
            task.cooldown_ticks() == 0,
    {
        HubTask { hub_template, time: 0 }
    }

    /// The ticks that the task has waited with a hub too many.
    pub fn get_cooldown_ticks(&self) -> (ticks: u32)
        ensures
            ticks == self.cooldown_ticks(),
    {
        self.time
    }

    /// One tick: decides from the snapshot and the player counts what to
    /// do; see [`is_hub_step`]. Fails, and changes nothing, where an
    /// instance of the snapshot has no status yet. No hub is removed while a
    /// hub is starting.
    pub fn run(&mut self, provider: &InstanceProvider, reports: &Vec<ProbeReport>) -> (action:
        Result<Option<TaskAction>, EpsilonError>)
        ensures
            final(self).template_name() == old(self).template_name(),
            final(self).slots() == old(self).slots(),
            match action {
                Ok(a) => all_observed(provider@) && is_hub_step(
                    action_view(a),
                    old(self).cooldown_ticks(),
                    final(self).cooldown_ticks(),
                    provider@,
                    report_views(reports@),
                    old(self).template_name(),
                    old(self).slots(),
                ),
                Err(e) => !all_observed(provider@) && e == EpsilonError::RetrieveInstanceError
                    && final(self).cooldown_ticks() == old(self).cooldown_ticks(),
            },
            action matches Ok(Some(TaskAction::RemoveInstance(_))) ==> hubs_in(
                provider@,
                old(self).template_name(),
                EpsilonState::Starting,
            ).len() == 0,
    {
        proof {
            use_type_invariant(&*self);
        }
        let proxies = match provider.get_instances(
            Some(InstanceType::Proxy),
            None,
            Some(EpsilonState::Running),
        ) {
            Ok(proxies) => proxies,
            Err(e) => {
                return Err(e);
            },
        };
        if proxies.len() == 0 {
            return Ok(None);
        }
        let hubs_starting = match provider.get_instances(
            Some(InstanceType::Server),
            Some(self.hub_template.name.as_str()),
            Some(EpsilonState::Starting),
        ) {
            Ok(hubs) => hubs,
            Err(e) => {
                return Err(e);
            },
        };
        if hubs_starting.len() > 0 {
            return Ok(None);
        }
        let hubs_ready = match provider.get_instances(
            Some(InstanceType::Server),
            Some(self.hub_template.name.as_str()),
            Some(EpsilonState::Running),
        ) {
            Ok(hubs) => hubs,
            Err(e) => {
                return Err(e);
            },
        };
        let online = match sum_online_count(&hubs_ready, reports) {
            Ok(online) => online,
            Err(_) => {
                return Ok(None);
            },
        };
        let hub_number = hubs_ready.len() as i128;
        let hub_necessary = floor_div(online * 8, 5 * (self.hub_template.slots as i128)) + 1;
        if hub_number < hub_necessary {
            self.time = 0;
            return Ok(Some(TaskAction::StartInstance(self.hub_template.name.clone())));
        }
        if hub_number > hub_necessary {
            if self.time < HUB_COOLDOWN_TICKS {
                self.time = self.time + 1;
                return Ok(None);
            }
            self.time = 0;
            let ghost ready = instance_views(hubs_ready@);
            let ghost table = report_views(reports@);
            return match least_loaded_hub(&hubs_ready, reports) {
                Some(hub) => {
                    proof {
                        let at = choose|at: int|
                            is_least_loaded(ready, table, at) && hub@ == #[trigger] ready[at];
                        assert(is_least_loaded(ready, table, at) && hub.name@ == ready[at].name);
                    }
                    Ok(Some(TaskAction::RemoveInstance(hub.name.clone())))
                },
                None => {
                    proof {
                        if ready.len() > 0 {
                            let j = choose|j: int|
                                0 <= j < ready.len() && probed_online(
                                    table,
                                    (#[trigger] ready[j]).name,
                                ) is None;
                            lemma_total_online_counts_each(ready, table, j);
                        }
                    }
                    Ok(None)
                },
            };
        }
        Ok(None)
    }

    /// The task's name.
    pub fn get_name(&self) -> (name: &'static str)
        ensures
            name@ == "Hub:Task, check need to open a new hub or close"@,
    {
        "Hub:Task, check need to open a new hub or close"
    }
}

/// Finds the hub with the fewest players, the first of them where several
/// have as few. `None` where there is no hub or a count is missing.
fn least_loaded_hub<'a>(hubs: &Vec<&'a EpsilonInstance>, reports: &Vec<ProbeReport>) -> (hub: Option<
    &'a EpsilonInstance,
>)
    ensures
        match hub {
            Some(h) => exists|at: int|
                is_least_loaded(instance_views(hubs@), report_views(reports@), at) && h@
                    == #[trigger] instance_views(hubs@)[at],
            None => hubs@.len() == 0 || exists|j: int|
                0 <= j < hubs@.len() && probed_online(
                    report_views(reports@),
                    (#[trigger] instance_views(hubs@)[j]).name,
                ) is None,
        },
{
    let ghost ready = instance_views(hubs@);
    let ghost table = report_views(reports@);
    if hubs.len() == 0 {
        return None;
    }
    let mut best: usize = 0;
    let mut least = match get_online_count(reports, hubs[0].name.as_str()) {
        Some(n) => n,
        None => {
            assert(probed_online(table, ready[0].name) is None);
            return None;
        },
    };
    let mut i: usize = 1;
    while i < hubs.len()
        invariant
            1 <= i <= hubs@.len(),
            ready == instance_views(hubs@),
            table == report_views(reports@),
            0 <= best < i,
            probed_online(table, ready[best as int].name) == Some(least as int),
            forall|j: int|
                0 <= j < i ==> (#[trigger] probed_online(table, ready[j].name)) is Some && least
                    <= probed_online(table, ready[j].name)->0,
            forall|j: int|
                0 <= j < best ==> (#[trigger] probed_online(table, ready[j].name)) is Some && least
                    < probed_online(table, ready[j].name)->0,
        decreases hubs@.len() - i,
    {
        assert(ready[i as int] == hubs@[i as int]@);
        match get_online_count(reports, hubs[i].name.as_str()) {
            Some(n) => {
                if n < least {
                    least = n;
                    best = i;
                }
            },
            None => {
                assert(probed_online(table, ready[i as int].name) is None);
                return None;
            },
        }
        i += 1;
    }
    assert(is_least_loaded(ready, table, best as int));
    assert(hubs@[best as int]@ == ready[best as int]);
    Some(hubs[best])
}

/// Where the players of all hubs were counted, each hub has a count.
pub proof fn lemma_total_online_counts_each(
    instances: Seq<InstanceView>,
    reports: Seq<(Seq<char>, int)>,
    at: int,
)
    requires
        total_online(instances, reports) is Some,
        0 <= at < instances.len(),
    ensures
        probed_online(reports, instances[at].name) is Some,
    decreases instances.len(),
{
    if at < instances.len() - 1 {
        lemma_total_online_counts_each(instances.drop_last(), reports, at);
    }
}

} // verus!
