//! Keeps a proxy in the fleet.

use crate::error::EpsilonError;
use crate::instance::InstanceView;
use crate::instance_provider::{all_observed, selection, InstanceProvider};
use crate::instance_type::InstanceType;
use crate::task::{action_view, ActionView, TaskAction};
use crate::template::Template;
use vstd::prelude::*;

verus! {

/// How often the task runs, in milliseconds.
pub const PROXY_TASK_INTERVAL_MILLIS: u64 = 6000;

/// Starts a proxy whenever the fleet has none.
pub struct ProxyTask {
    proxy_template: Template,
}

/// What the task owes for a snapshot in which every instance has a status:
/// a proxy of `template` where the fleet has no proxy, else nothing.
pub open spec fn proxy_decision(instances: Seq<InstanceView>, template: Seq<char>) -> Option<
    ActionView,
> {
    if selection(instances, Some(InstanceType::Proxy), None, None).len() == 0 {
        Some(ActionView::StartInstance(template))
    } else {
        None
    }
}

impl ProxyTask {
    /// The name of the template that proxies are made from.
    pub closed spec fn template_name(&self) -> Seq<char> {
        self.proxy_template.name@
    }

    /// A task that makes proxies from `proxy_template`.
    pub fn init(proxy_template: Template) -> (task: ProxyTask)
        ensures
            task.template_name() == proxy_template.name@,
    {
        ProxyTask { proxy_template }
    }

    /// One tick: decides from the snapshot what to do. Fails, and does
    /// nothing, where an instance of the snapshot has no status yet. With a
    /// proxy in the fleet the task asks for nothing, however often it runs.
    pub fn run(&mut self, provider: &InstanceProvider) -> (action: Result<
        Option<TaskAction>,
        EpsilonError,
    >)
        ensures
            final(self).template_name() == old(self).template_name(),
            match action {
                Ok(a) => all_observed(provider@) && action_view(a) == proxy_decision(
                    provider@,
                    old(self).template_name(),
                ),
                Err(e) => !all_observed(provider@) && e == EpsilonError::RetrieveInstanceError,
            },
            all_observed(provider@) && selection(
                provider@,
                Some(InstanceType::Proxy),
                None,
                None,
            ).len() >= 1 ==> action matches Ok(None),
    {
        let proxies = match provider.get_instances(Some(InstanceType::Proxy), None, None) {
            Ok(proxies) => proxies,
            Err(e) => {
                return Err(e);
            },
        };
        if proxies.len() == 0 {
            Ok(Some(TaskAction::StartInstance(self.proxy_template.name.clone())))
        } else {
            Ok(None)
        }
    }

    /// The task's name.
    pub fn get_name(&self) -> (name: &'static str)
        ensures
            name@ == "Proxy:Task, check need to open a new proxy or close"@,
    {
        "Proxy:Task, check need to open a new proxy or close"
    }
}

} // verus!
