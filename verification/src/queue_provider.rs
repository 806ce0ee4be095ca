//! The queues of the fleet, one for each template.

use crate::error::EpsilonError;
use crate::group::Group;
use crate::queue::{Queue, QueueView};
use crate::template::Template;
use crate::text::{distinct_names, same_text};
use vstd::prelude::*;

verus! {

/// What is asked of a queue: the template whose instances it feeds.
#[derive(Debug)]
pub struct EpsilonQueueSpec {
    pub target: String,
}

/// The queue of one template.
pub struct NamedQueue {
    pub name: String,
    pub queue: Queue,
}

impl View for NamedQueue {
    type V = (Seq<char>, QueueView);

    open spec fn view(&self) -> (Seq<char>, QueueView) {
        (self.name@, self.queue@)
    }
}

/// The queues, in the order in which their templates were first listed.
pub struct QueueProvider {
    pub queue_map: Vec<NamedQueue>,
}

impl View for QueueProvider {
    type V = Seq<(Seq<char>, QueueView)>;

    open spec fn view(&self) -> Seq<(Seq<char>, QueueView)> {
        self.queue_map@.map_values(|q: NamedQueue| q@)
    }
}

/// The names of the templates of a vector.
pub open spec fn template_names(templates: Seq<Template>) -> Seq<Seq<char>> {
    templates.map_values(|t: Template| t.name@)
}

/// The place of the queue of that name, if there is one.
pub open spec fn queue_index(queues: Seq<(Seq<char>, QueueView)>, name: Seq<char>) -> Option<int>
    decreases queues.len(),
{
    if queues.len() == 0 {
        None
    } else {
        match queue_index(queues.drop_last(), name) {
            Some(i) => Some(i),
            None => if queues.last().0 == name {
                Some(queues.len() - 1)
            } else {
                None
            },
        }
    }
}

/// The place that [`queue_index`] gives is that of the first queue of
/// that name.
pub proof fn lemma_queue_index_is_first(queues: Seq<(Seq<char>, QueueView)>, name: Seq<char>)
    ensures
        match queue_index(queues, name) {
            Some(i) => 0 <= i < queues.len() && queues[i].0 == name && forall|j: int|
                0 <= j < i ==> (#[trigger] queues[j]).0 != name,
            None => forall|j: int| 0 <= j < queues.len() ==> (#[trigger] queues[j]).0 != name,
        },
    decreases queues.len(),
{
    if queues.len() > 0 {
        lemma_queue_index_is_first(queues.drop_last(), name);
        assert forall|j: int| 0 <= j < queues.len() - 1 implies queues.drop_last()[j]
            == #[trigger] queues[j] by {}
    }
}

impl QueueProvider {
    /// One empty queue for each template name, in the order in which the
    /// names first occur.
    pub fn new(templates: &Vec<Template>) -> (provider: QueueProvider)
        ensures
            provider@ == distinct_names(template_names(templates@)).map_values(
                |name: Seq<char>| (name, QueueView::empty()),
            ),
    {
        let ghost names = template_names(templates@);
        let ghost entry = |name: Seq<char>| (name, QueueView::empty());
        let mut provider = QueueProvider { queue_map: Vec::new() };
        let mut i: usize = 0;
        proof {
            assert(names.take(0) =~= Seq::<Seq<char>>::empty());
            assert(provider@ =~= distinct_names(names.take(0)).map_values(entry));
        }
        while i < templates.len()
            invariant
                i <= templates@.len(),
                names == template_names(templates@),
                entry == (|name: Seq<char>| (name, QueueView::empty())),
                provider@ == distinct_names(names.take(i as int)).map_values(entry),
            decreases templates@.len() - i,
        {
            let name = &templates[i].name;
            let ghost before = provider@;
            let ghost known = distinct_names(names.take(i as int));
            proof {
                assert(names.take(i + 1).drop_last() =~= names.take(i as int));
                assert(names.take(i + 1).last() == name@);
            }
            let mut j: usize = 0;
            let mut found = false;
            while j < provider.queue_map.len()
                invariant_except_break
                    !found,
                    forall|k: int| 0 <= k < j ==> (#[trigger] provider@[k]).0 != name@,
                invariant
                    j <= provider.queue_map@.len(),
                ensures
                    found ==> exists|k: int| 0 <= k < provider@.len() && (#[trigger] provider@[k]).0 == name@,
                    !found ==> forall|k: int|
                        0 <= k < provider@.len() ==> (#[trigger] provider@[k]).0 != name@,
                decreases provider.queue_map@.len() - j,
            {
                if provider.queue_map[j].name == *name {
                    found = true;
                    assert(provider@[j as int].0 == name@);
                    break ;
                }
                j += 1;
            }
            proof {
                if found {
                    let k = choose|k: int| 0 <= k < before.len() && (#[trigger] before[k]).0 == name@;
                    assert(known[k] == name@);
                } else {
                    if known.contains(name@) {
                        let k = choose|k: int| 0 <= k < known.len() && known[k] == name@;
                        assert(before[k].0 == name@);
                    }
                }
            }
            if !found {
                provider.queue_map.push(NamedQueue { name: name.clone(), queue: Queue::new() });
                proof {
                    assert(provider@ =~= before.push((name@, QueueView::empty())));
                    assert(known.push(name@).map_values(entry) =~= before.push(
                        (name@, QueueView::empty()),
                    ));
                }
            }
            i += 1;
        }
        proof {
            assert(names.take(i as int) =~= names);
        }
        provider
    }

    /// The queues, in order.
    pub fn get_queues(&self) -> (queues: &Vec<NamedQueue>)
        ensures
            queues == self.queue_map,
    {
        &self.queue_map
    }

    /// Finds the place of the queue of that name.
    pub fn find(&self, name: &str) -> (place: Option<usize>)
        ensures
            match place {
                Some(i) => queue_index(self@, name@) == Some(i as int),
                None => queue_index(self@, name@) is None,
            },
            place matches Some(i) ==> i < self.queue_map@.len(),
    {
        let mut i: usize = 0;
        while i < self.queue_map.len()
            invariant
                i <= self.queue_map@.len(),
                forall|k: int| 0 <= k < i ==> (#[trigger] self@[k]).0 != name@,
            decreases self.queue_map@.len() - i,
        {
            if same_text(self.queue_map[i].name.as_str(), name) {
                proof {
                    lemma_queue_index_is_first(self@, name@);
                    assert(self@[i as int].0 == name@);
                    if queue_index(self@, name@) is Some {
                        let first = queue_index(self@, name@)->0;
                        if first < i {
                            assert(self@[first].0 != name@);
                        }
                    }
                }
                return Some(i);
            }
            i += 1;
        }
        proof {
            lemma_queue_index_is_first(self@, name@);
            if queue_index(self@, name@) is Some {
                assert(self@[queue_index(self@, name@)->0].0 != name@);
            }
        }
        None
    }

    /// Puts `group` into the queue that it names. Fails, and changes
    /// nothing, where there is no queue of that name.
    pub fn push(&mut self, group: Group) -> (pushed: Result<(), EpsilonError>)
        ensures
            match queue_index(old(self)@, group@.queue) {
                Some(i) => pushed is Ok && final(self)@ == old(self)@.update(
                    i,
                    (old(self)@[i].0, old(self)@[i].1.push(group@)),
                ),
                None => pushed matches Err(EpsilonError::QueueNotFoundError(name)) && name@
                    == group@.queue && final(self)@ == old(self)@,
            },
    {
        match self.find(group.queue.as_str()) {
            None => Err(EpsilonError::QueueNotFoundError(group.queue.clone())),
            Some(i) => {
                let ghost before = self@;
                let ghost pushed_group = group@;
                let mut entry = self.queue_map.remove(i);
                entry.queue.push(group);
                self.queue_map.insert(i, entry);
                proof {
                    assert(self@ =~= before.update(i as int, (before[i as int].0, before[i as int].1.push(pushed_group))));
                }
                Ok(())
            },
        }
    }
}

} // verus!
