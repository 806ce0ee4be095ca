//! Sends waiting groups to the instances that have room for them.

use crate::error::EpsilonError;
use crate::events::{EpsilonEvent, EventView};
use crate::group::GroupView;
use crate::instance::{EpsilonInstance, InstanceView};
use crate::instance_provider::{all_observed, selection, InstanceProvider};
use crate::instance_type::InstanceType;
use crate::probe::{
    available_slots, get_available_slots, instance_views, report_views, sum_available_slots,
    total_available, ProbeReport,
};
use crate::queue::{Queue, QueueView};
use crate::queue_provider::QueueProvider;
use crate::state::EpsilonState;
use vstd::prelude::*;

verus! {

/// How often the task runs, in milliseconds.
pub const QUEUE_TASK_INTERVAL_MILLIS: u64 = 2000;

/// What one tick of the task asks for.
#[derive(Debug)]
pub struct QueuePlan {
    /// The templates of which an instance is to be started, in order.
    pub starts: Vec<String>,
    /// The events to publish, in order.
    pub events: Vec<EpsilonEvent>,
}

/// A plan as plain values.
pub struct PlanView {
    pub starts: Seq<Seq<char>>,
    pub events: Seq<EventView>,
}

impl View for QueuePlan {
    type V = PlanView;

    open spec fn view(&self) -> PlanView {
        PlanView {
            starts: self.starts@.map_values(|s: String| s@),
            events: self.events@.map_values(|e: EpsilonEvent| e@),
        }
    }
}

/// How many groups leave the head of `fifo` for an instance with room for
/// `available` players: groups leave in order while there is room left and
/// the head fits in it; a head that does not fit holds back all behind it.
pub open spec fn fitting_groups(fifo: Seq<GroupView>, available: int) -> nat
    decreases fifo.len(),
{
    if fifo.len() > 0 && available > 0 && fifo[0].players.len() <= available {
        1 + fitting_groups(fifo.drop_first(), available - fifo[0].players.len())
    } else {
        0
    }
}

/// How many groups leave the head of `fifo` for `instance`: none where it
/// is not known how much room it has.
pub open spec fn groups_for(
    fifo: Seq<GroupView>,
    instance: InstanceView,
    reports: Seq<(Seq<char>, int)>,
) -> nat {
    match available_slots(instance, reports) {
        Some(available) => fitting_groups(fifo, available),
        None => 0,
    }
}

/// The events that send `groups` to the instance `name`.
pub open spec fn send_events(groups: Seq<GroupView>, name: Seq<char>) -> Seq<EventView> {
    groups.map_values(|g: GroupView| EventView::SendToServer(g, name))
}

/// The events of one queue: the instances are served in order, each with
/// the groups that leave the head of what the instances before it left.
pub open spec fn dispatch_events(
    fifo: Seq<GroupView>,
    ready: Seq<InstanceView>,
    reports: Seq<(Seq<char>, int)>,
) -> Seq<EventView>
    decreases ready.len(),
{
    if ready.len() == 0 {
        Seq::empty()
    } else {
        let n = groups_for(fifo, ready[0], reports) as int;
        send_events(fifo.take(n), ready[0].name) + dispatch_events(
            fifo.skip(n),
            ready.drop_first(),
            reports,
        )
    }
}

/// The groups that still wait once every instance was served.
pub open spec fn dispatch_residue(
    fifo: Seq<GroupView>,
    ready: Seq<InstanceView>,
    reports: Seq<(Seq<char>, int)>,
) -> Seq<GroupView>
    decreases ready.len(),
{
    if ready.len() == 0 {
        fifo
    } else {
        dispatch_residue(
            fifo.skip(groups_for(fifo, ready[0], reports) as int),
            ready.drop_first(),
            reports,
        )
    }
}

/// The players of `groups`, counted.
pub open spec fn players_in(groups: Seq<GroupView>) -> nat
    decreases groups.len(),
{
    if groups.len() == 0 {
        0
    } else {
        players_in(groups.drop_last()) + groups.last().players.len()
    }
}

/// The servers of the template `template` that are in `state`.
pub open spec fn servers_in(instances: Seq<InstanceView>, template: Seq<char>, state: EpsilonState) -> Seq<
    InstanceView,
> {
    selection(instances, Some(InstanceType::Server), Some(template), Some(state))
}

/// Whether an instance is to be started for the queue of `template`, in
/// which a group waits: where the template has no server that starts or
/// runs, or none that starts while those that run are known to be full.
pub open spec fn needs_instance(
    instances: Seq<InstanceView>,
    reports: Seq<(Seq<char>, int)>,
    template: Seq<char>,
) -> bool {
    let starting = servers_in(instances, template, EpsilonState::Starting);
    let ready = servers_in(instances, template, EpsilonState::Running);
    starting.len() == 0 && (ready.len() == 0 || (total_available(ready, reports) matches Some(
        total,
    ) && total < 1))
}

/// No group is sent where it does not fit: of the groups that leave for an
/// instance, each is at most as large as the room that those before it
/// left.
pub proof fn lemma_dispatch_respects_capacity(fifo: Seq<GroupView>, available: int, k: int)
    requires
        0 <= k < fitting_groups(fifo, available),
    ensures
        k < fifo.len(),
        fifo[k].players.len() <= available - players_in(fifo.take(k)),
        available - players_in(fifo.take(k)) > 0,
    decreases k,
{
    if k == 0 {
        assert(fifo.take(0) =~= Seq::<GroupView>::empty());
    } else {
        let rest = fifo.drop_first();
        let left = available - fifo[0].players.len();
        lemma_dispatch_respects_capacity(rest, left, k - 1);
        lemma_players_in_prepend(fifo[0], rest.take(k - 1));
        assert(fifo.take(k) =~= seq![fifo[0]] + rest.take(k - 1));
    }
}

/// Counting the players of a sequence from its first group.
proof fn lemma_players_in_prepend(first: GroupView, rest: Seq<GroupView>)
    ensures
        players_in(seq![first] + rest) == first.players.len() + players_in(rest),
    decreases rest.len(),
{
    let all = seq![first] + rest;
    if rest.len() == 0 {
        assert(all.drop_last() =~= Seq::<GroupView>::empty());
        assert(players_in(all.drop_last()) == 0);
    } else {
        lemma_players_in_prepend(first, rest.drop_last());
        assert(all.drop_last() =~= seq![first] + rest.drop_last());
    }
}

/// The events of a vector as plain values.
pub open spec fn event_views(events: Seq<EpsilonEvent>) -> Seq<EventView> {
    events.map_values(|e: EpsilonEvent| e@)
}

/// Serves one instance: the groups that fit leave the head of `queue`, and
/// an event for each is added to `events`.
fn drain_onto(
    queue: &mut Queue,
    instance: &EpsilonInstance,
    reports: &Vec<ProbeReport>,
    events: &mut Vec<EpsilonEvent>,
)
    ensures
        final(queue)@.members == old(queue)@.members,
        final(queue)@.fifo == old(queue)@.fifo.skip(
            groups_for(old(queue)@.fifo, instance@, report_views(reports@)) as int,
        ),
        event_views(final(events)@) == event_views(old(events)@) + send_events(
            old(queue)@.fifo.take(
                groups_for(old(queue)@.fifo, instance@, report_views(reports@)) as int,
            ),
            instance@.name,
        ),
{
    let ghost start = queue@.fifo;
    let ghost sent = event_views(events@);
    let ghost name = instance@.name;
    proof {
        assert(start.skip(0) =~= start);
        assert(start.take(0) =~= Seq::<GroupView>::empty());
        assert(sent + send_events(Seq::<GroupView>::empty(), name) =~= sent);
    }
    let mut available = match get_available_slots(instance, reports) {
        Some(available) => available,
        None => {
            return ;
        },
    };
    let ghost room = available as int;
    let ghost gone: int = 0;
    loop
        invariant
            0 <= gone <= start.len(),
            name == instance@.name,
            queue@.members == old(queue)@.members,
            queue@.fifo == start.skip(gone),
            gone + fitting_groups(queue@.fifo, available as int) == fitting_groups(start, room),
            event_views(events@) == sent + send_events(start.take(gone), name),
        ensures
            queue@.members == old(queue)@.members,
            queue@.fifo == start.skip(fitting_groups(start, room) as int),
            event_views(events@) == sent + send_events(
                start.take(fitting_groups(start, room) as int),
                name,
            ),
        decreases queue@.fifo.len(),
    {
        if available <= 0 {
            break ;
        }
        let fits = match queue.peek() {
            Some(head) => head.players.len() as u64 <= available as u64,
            None => false,
        };
        if !fits {
            proof {
                if queue@.fifo.len() > 0 {
                    assert(queue@.fifo[0].players.len() == queue@.fifo.first().players.len());
                }
            }
            break ;
        }
        let ghost before = queue@.fifo;
        let ghost shown = event_views(events@);
        match queue.pop() {
            Some(group) => {
                let size = group.players.len();
                proof {
                    assert(group@ == before[0]);
                    assert(group@.players.len() == size);
                    assert(queue@.fifo =~= start.skip(gone + 1));
                    assert(start.take(gone + 1) =~= start.take(gone).push(group@));
                    assert(send_events(start.take(gone + 1), name) =~= send_events(
                        start.take(gone),
                        name,
                    ).push(EventView::SendToServer(group@, name)));
                }
                events.push(EpsilonEvent::SendToServer(group, instance.name.clone()));
                proof {
                    assert(event_views(events@) =~= shown.push(
                        EventView::SendToServer(before[0], name),
                    ));
                    gone = gone + 1;
                }
                available = available - size as i64;
            },
            None => {
                break ;
            },
        }
    }
}

/// The queue of `template` after one tick: the groups that were sent have
/// left its head; its members are the same.
pub open spec fn queue_after(
    queue: QueueView,
    template: Seq<char>,
    instances: Seq<InstanceView>,
    reports: Seq<(Seq<char>, int)>,
) -> QueueView {
    QueueView {
        fifo: dispatch_residue(
            queue.fifo,
            servers_in(instances, template, EpsilonState::Running),
            reports,
        ),
        members: queue.members,
    }
}

/// The templates to start for one queue: its own where a group waits in
/// it and [`needs_instance`] holds, else none.
pub open spec fn queue_starts(
    queue: QueueView,
    template: Seq<char>,
    instances: Seq<InstanceView>,
    reports: Seq<(Seq<char>, int)>,
) -> Seq<Seq<char>> {
    if queue.fifo.len() > 0 && needs_instance(instances, reports, template) {
        seq![template]
    } else {
        Seq::empty()
    }
}

/// The events of one queue in one tick: its groups are sent to the
/// running servers of its template, in the snapshot's order.
pub open spec fn queue_events(
    queue: QueueView,
    template: Seq<char>,
    instances: Seq<InstanceView>,
    reports: Seq<(Seq<char>, int)>,
) -> Seq<EventView> {
    dispatch_events(queue.fifo, servers_in(instances, template, EpsilonState::Running), reports)
}

/// The queues after one tick.
pub open spec fn queues_after(
    queues: Seq<(Seq<char>, QueueView)>,
    instances: Seq<InstanceView>,
    reports: Seq<(Seq<char>, int)>,
) -> Seq<(Seq<char>, QueueView)> {
    queues.map_values(
        |q: (Seq<char>, QueueView)| (q.0, queue_after(q.1, q.0, instances, reports)),
    )
}

/// The templates to start in one tick, queue by queue.
pub open spec fn plan_starts(
    queues: Seq<(Seq<char>, QueueView)>,
    instances: Seq<InstanceView>,
    reports: Seq<(Seq<char>, int)>,
) -> Seq<Seq<char>>
    decreases queues.len(),
{
    if queues.len() == 0 {
        Seq::empty()
    } else {
        plan_starts(queues.drop_last(), instances, reports) + queue_starts(
            queues.last().1,
            queues.last().0,
            instances,
            reports,
        )
    }
}

/// The events of one tick, queue by queue.
pub open spec fn plan_events(
    queues: Seq<(Seq<char>, QueueView)>,
    instances: Seq<InstanceView>,
    reports: Seq<(Seq<char>, int)>,
) -> Seq<EventView>
    decreases queues.len(),
{
    if queues.len() == 0 {
        Seq::empty()
    } else {
        plan_events(queues.drop_last(), instances, reports) + queue_events(
            queues.last().1,
            queues.last().0,
            instances,
            reports,
        )
    }
}

/// Whether a group waits in one of the queues.
pub open spec fn someone_waits(queues: Seq<(Seq<char>, QueueView)>) -> bool {
    exists|i: int| 0 <= i < queues.len() && (#[trigger] queues[i]).1.fifo.len() > 0
}

/// Nothing leaves a queue in which nobody waits, whatever the instances.
proof fn lemma_nothing_leaves_empty(
    fifo: Seq<GroupView>,
    ready: Seq<InstanceView>,
    reports: Seq<(Seq<char>, int)>,
)
    requires
        fifo.len() == 0,
    ensures
        dispatch_events(fifo, ready, reports) == Seq::<EventView>::empty(),
        dispatch_residue(fifo, ready, reports) == fifo,
    decreases ready.len(),
{
    if ready.len() > 0 {
        assert(fifo.skip(0) =~= fifo);
        assert(fifo.take(0) =~= Seq::<GroupView>::empty());
        lemma_nothing_leaves_empty(fifo, ready.drop_first(), reports);
        assert(send_events(Seq::<GroupView>::empty(), ready[0].name) =~= Seq::<EventView>::empty());
    }
}

/// Serves the running servers in order from `queue`.
fn drain_queue(
    queue: &mut Queue,
    ready: &Vec<&EpsilonInstance>,
    reports: &Vec<ProbeReport>,
    events: &mut Vec<EpsilonEvent>,
)
    ensures
        final(queue)@.members == old(queue)@.members,
        final(queue)@.fifo == dispatch_residue(
            old(queue)@.fifo,
            instance_views(ready@),
            report_views(reports@),
        ),
        event_views(final(events)@) == event_views(old(events)@) + dispatch_events(
            old(queue)@.fifo,
            instance_views(ready@),
            report_views(reports@),
        ),
{
    let ghost views = instance_views(ready@);
    let ghost table = report_views(reports@);
    let ghost start = queue@.fifo;
    let ghost sent = event_views(events@);
    let mut i: usize = 0;
    proof {
        assert(views.skip(0) =~= views);
        assert(sent + Seq::<EventView>::empty() =~= sent);
    }
    let ghost done: Seq<EventView> = Seq::empty();
    while i < ready.len()
        invariant
            i <= ready@.len(),
            views == instance_views(ready@),
            table == report_views(reports@),
            queue@.members == old(queue)@.members,
            event_views(events@) == sent + done,
            dispatch_residue(queue@.fifo, views.skip(i as int), table) == dispatch_residue(
                start,
                views,
                table,
            ),
            done + dispatch_events(queue@.fifo, views.skip(i as int), table) == dispatch_events(
                start,
                views,
                table,
            ),
        decreases ready@.len() - i,
    {
        let ghost fifo = queue@.fifo;
        let ghost rest = views.skip(i as int);
        proof {
            assert(rest[0] == ready@[i as int]@);
            assert(rest.drop_first() =~= views.skip(i + 1));
        }
        drain_onto(queue, ready[i], reports, events);
        proof {
            let n = groups_for(fifo, rest[0], table) as int;
            let step = send_events(fifo.take(n), rest[0].name);
            assert(event_views(events@) =~= sent + (done + step));
            assert((done + step) + dispatch_events(fifo.skip(n), rest.drop_first(), table) =~= done
                + dispatch_events(fifo, rest, table));
            done = done + step;
        }
        i += 1;
    }
    proof {
        assert(views.skip(i as int) =~= Seq::<InstanceView>::empty());
        assert(done + Seq::<EventView>::empty() =~= done);
    }
}

/// Drains the queues onto the servers that have room, and asks for new
/// servers where groups wait and none has room.
pub struct QueueTask {}

impl QueueTask {
    /// The task.
    pub fn init() -> (task: QueueTask) {
        QueueTask {  }
    }

    /// One tick. Each queue in which a group waits is served in turn: a
    /// server of its template is asked for where [`needs_instance`] holds,
    /// and its groups are sent to the running servers of its template as
    /// [`dispatch_events`] says. Fails, and changes nothing, where a group
    /// waits and an instance of the snapshot has no status yet.
    pub fn run(
        &mut self,
        queues: &mut QueueProvider,
        provider: &InstanceProvider,
        reports: &Vec<ProbeReport>,
    ) -> (plan: Result<QueuePlan, EpsilonError>)
        ensures
            match plan {
                Ok(p) => {
                    &&& someone_waits(old(queues)@) ==> all_observed(provider@)
                    &&& final(queues)@ == queues_after(
                        old(queues)@,
                        provider@,
                        report_views(reports@),
                    )
                    &&& p@.starts == plan_starts(old(queues)@, provider@, report_views(reports@))
                    &&& p@.events == plan_events(old(queues)@, provider@, report_views(reports@))
                },
                Err(e) => {
                    &&& someone_waits(old(queues)@)
                    &&& !all_observed(provider@)
                    &&& e == EpsilonError::RetrieveInstanceError
                    &&& final(queues)@ == old(queues)@
                },
            },
    {
        let ghost before = queues@;
        let ghost store = provider@;
        let ghost table = report_views(reports@);
        let mut plan = QueuePlan { starts: Vec::new(), events: Vec::new() };
        let mut i: usize = 0;
        proof {
            assert(before.take(0) =~= Seq::<(Seq<char>, QueueView)>::empty());
            assert(plan@.starts =~= Seq::<Seq<char>>::empty());
            assert(plan@.events =~= Seq::<EventView>::empty());
            assert(queues@ =~= queues_after(before.take(0), store, table) + before.skip(0));
        }
        while i < queues.queue_map.len()
            invariant
                i <= queues.queue_map@.len(),
                before.len() == queues.queue_map@.len(),
                before == old(queues)@,
                store == provider@,
                table == report_views(reports@),
                someone_waits(before.take(i as int)) ==> all_observed(store),
                queues@ == queues_after(before.take(i as int), store, table) + before.skip(
                    i as int,
                ),
                plan@.starts == plan_starts(before.take(i as int), store, table),
                plan@.events == plan_events(before.take(i as int), store, table),
            decreases queues.queue_map@.len() - i,
        {
            let ghost current = queues@;
            let ghost entry = before[i as int];
            let ghost servers = servers_in(store, entry.0, EpsilonState::Running);
            proof {
                assert(before.take(i + 1).drop_last() =~= before.take(i as int));
                assert(before.take(i + 1).last() == entry);
                assert(current[i as int] == before.skip(i as int)[0]);
                assert(queues.queue_map@[i as int]@ == entry);
            }
            if queues.queue_map[i].queue.is_empty() {
                proof {
                    lemma_nothing_leaves_empty(entry.1.fifo, servers, table);
                    assert(queue_after(entry.1, entry.0, store, table) == entry.1);
                    assert(plan@.starts + Seq::<Seq<char>>::empty() =~= plan@.starts);
                    assert(plan@.events + Seq::<EventView>::empty() =~= plan@.events);
                    assert(queues@ =~= queues_after(before.take(i + 1), store, table) + before.skip(
                        i + 1,
                    ));
                    assert forall|k: int|
                        0 <= k < i + 1 && (#[trigger] before.take(i + 1)[k]).1.fifo.len()
                            > 0 implies all_observed(store) by {
                        assert(before.take(i as int)[k].1.fifo.len() > 0);
                    }
                }
                i += 1;
                continue ;
            }
            let name = queues.queue_map[i].name.clone();
            let starting = match provider.get_instances(
                Some(InstanceType::Server),
                Some(name.as_str()),
                Some(EpsilonState::Starting),
            ) {
                Ok(found) => found,
                Err(e) => {
                    proof {
                        assert(entry.1.fifo.len() > 0);
                        assert(before[i as int].1.fifo.len() > 0);
                        assert(someone_waits(before));
                        assert(!someone_waits(before.take(i as int)));
                        assert forall|k: int| 0 <= k < i implies queues_after(
                            before.take(i as int),
                            store,
                            table,
                        )[k] == #[trigger] before[k] by {
                            assert(before.take(i as int)[k].1.fifo.len() == 0);
                            lemma_nothing_leaves_empty(
                                before[k].1.fifo,
                                servers_in(store, before[k].0, EpsilonState::Running),
                                table,
                            );
                        }
                        assert(queues@ =~= before);
                    }
                    return Err(e);
                },
            };
            let ready = match provider.get_instances(
                Some(InstanceType::Server),
                Some(name.as_str()),
                Some(EpsilonState::Running),
            ) {
                Ok(found) => found,
                Err(e) => {
                    proof {
                        assert(false);
                    }
                    return Err(e);
                },
            };
            let ghost starts_before = plan@.starts;
            let mut start = false;
            if starting.len() == 0 {
                if ready.len() == 0 {
                    start = true;
                } else {
                    match sum_available_slots(&ready, reports) {
                        Ok(total) => {
                            if total < 1 {
                                start = true;
                            }
                        },
                        Err(_) => {},
                    }
                }
            }
            assert(start == needs_instance(store, table, entry.0));
            if start {
                plan.starts.push(name.clone());
                proof {
                    assert(plan@.starts =~= starts_before + seq![entry.0]);
                }
            } else {
                proof {
                    assert(plan@.starts =~= starts_before + Seq::<Seq<char>>::empty());
                }
            }
            let ghost events_before = plan@.events;
            let ghost slots = queues.queue_map@;
            let mut slot = queues.queue_map.remove(i);
            drain_queue(&mut slot.queue, &ready, reports, &mut plan.events);
            queues.queue_map.insert(i, slot);
            proof {
                assert(queues.queue_map@ =~= slots.update(i as int, slot));
                assert(slot@ == (entry.0, queue_after(entry.1, entry.0, store, table)));
                assert(plan@.events =~= events_before + queue_events(entry.1, entry.0, store, table));
                assert(queues@[i as int] == (entry.0, queue_after(entry.1, entry.0, store, table)));
                assert forall|k: int| 0 <= k < queues@.len() && k != i implies queues@[k]
                    == current[k] by {
                    assert(queues.queue_map@[k] == slots[k]);
                }
                assert forall|k: int| 0 <= k < i implies #[trigger] queues_after(
                    before.take(i + 1),
                    store,
                    table,
                )[k] == queues_after(before.take(i as int), store, table)[k] by {
                    assert(before.take(i + 1)[k] == before.take(i as int)[k]);
                }
                assert forall|k: int| i < k < queues@.len() implies queues@[k] == before[k] by {
                    assert(current[k] == before.skip(i as int)[k - i]);
                }
                let target = queues_after(before.take(i + 1), store, table) + before.skip(i + 1);
                assert(queues@.len() == target.len());
                assert forall|k: int| 0 <= k < queues@.len() implies queues@[k] == target[k] by {
                    if k < i {
                        assert(current[k] == queues_after(before.take(i as int), store, table)[k]);
                        assert(target[k] == queues_after(before.take(i + 1), store, table)[k]);
                    } else if k == i {
                        assert(target[k] == queues_after(before.take(i + 1), store, table)[k]);
                        assert(before.take(i + 1)[k] == entry);
                    } else {
                        assert(target[k] == before.skip(i + 1)[k - i - 1]);
                    }
                }
                assert(queues@ =~= queues_after(before.take(i + 1), store, table) + before.skip(
                    i + 1,
                ));
            }
            i += 1;
        }
        proof {
            assert(before.take(i as int) =~= before);
            assert(queues@ =~= queues_after(before, store, table));
        }
        Ok(plan)
    }

    /// The task's name.
    pub fn get_name(&self) -> (name: &'static str)
        ensures
            name@ == "Queue:Task, check need to open instance queue"@,
    {
        "Queue:Task, check need to open instance queue"
    }
}

} // verus!
