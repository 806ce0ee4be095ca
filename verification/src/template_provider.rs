//! What the configuration says of templates, and where templates are fetched.

use crate::config::EpsilonConfig;
use crate::template::Template;
use vstd::prelude::*;

verus! {

/// Port on which the template registry listens.
pub const REGISTRY_PORT: u16 = 8000;

/// Knows which templates make proxies and hubs, and the addresses of the
/// template registry.
pub struct TemplateProvider {
    config: EpsilonConfig,
}

/// The address of `route` on the registry at `host`.
pub open spec fn registry_url(host: Seq<char>, route: Seq<char>) -> Seq<char> {
    "http://"@ + host + ":8000/"@ + route
}

impl TemplateProvider {
    /// The name of the template that proxies are made from.
    pub closed spec fn proxy_template(&self) -> Seq<char> {
        self.config.proxy.template@
    }

    /// The name of the template that hubs are made from.
    pub closed spec fn hub_template(&self) -> Seq<char> {
        self.config.hub.template@
    }

    /// A provider that goes by `config`.
    pub fn new(config: EpsilonConfig) -> (provider: TemplateProvider)
        ensures
            provider.proxy_template() == config.proxy.template@,
            provider.hub_template() == config.hub.template@,
    {
        Self { config }
    }

    /// The name of the template that proxies are made from.
    pub fn get_proxy_template_name(&self) -> (name: &str)
        ensures
            name@ == self.proxy_template(),
    {
        self.config.proxy.template.as_str()
    }

    /// The name of the template that hubs are made from.
    pub fn get_hub_template_name(&self) -> (name: &str)
        ensures
            name@ == self.hub_template(),
    {
        self.config.hub.template.as_str()
    }

    /// Whether `template` is the one that proxies are made from.
    pub fn is_proxy(&self, template: &Template) -> (proxy: bool)
        ensures
            proxy == (template.name@ == self.proxy_template()),
    {
        template.name == self.config.proxy.template
    }

    /// Whether `template` is the one that hubs are made from.
    pub fn is_hub(&self, template: &Template) -> (hub: bool)
        ensures
            hub == (template.name@ == self.hub_template()),
    {
        template.name == self.config.hub.template
    }

    /// The address of `route` on the registry at `host`.
    pub fn get_template_host(host: &str, route: &str) -> (url: String)
        ensures
            url@ == registry_url(host@, route@),
    {
        let mut url = String::from_str("http://");
        url.append(host);
        url.append(":8000/");
        url.append(route);
        url
    }

    /// The address at which the registry lists all templates.
    pub fn templates_url(host: &str) -> (url: String)
        ensures
            url@ == registry_url(host@, "templates"@),
    {
        Self::get_template_host(host, "templates")
    }

    /// The address at which the registry describes the template `name`.
    pub fn template_url(host: &str, name: &str) -> (url: String)
        ensures
            url@ == registry_url(host@, "templates/"@ + name@),
    {
        let mut route = String::from_str("templates/");
        route.append(name);
        Self::get_template_host(host, route.as_str())
    }
}

} // verus!
