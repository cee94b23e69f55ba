//! The handler registry: which opcodes the walker dispatches, and the
//! stateful plugin handler's configuration.  The handlers themselves are
//! dispatched by a match on the opcode; unknown opcodes are skipped.

use vstd::prelude::*;

use crate::handlers::plugin::{spec_default_configs, PluginCommandHandler, PluginExtractionConfig};

verus! {

/// The opcodes the default registry handles: show-text, dialogue bodies,
/// choices, choice branches, comment bodies and plugin commands.
pub open spec fn spec_handled(code: i32) -> bool {
    code == 101 || code == 401 || code == 102 || code == 402 || code == 408 || code == 357
}

/// Registry of command handlers.  The per-opcode handlers are stateless;
/// the plugin handler carries its configurations.
#[derive(Debug)]
pub struct HandlerRegistry {
    /// The plugin-command handler with its configurations.
    pub plugin: PluginCommandHandler,
}

impl HandlerRegistry {
    /// A registry with the default handlers and the built-in plugin
    /// configurations.
    pub fn with_defaults() -> (r: Self)
        ensures
            r.plugin.user_models().len() == 0,
            r.plugin.predefined_models() == spec_default_configs(),
    {
        let plugin = PluginCommandHandler::new();
        let r = HandlerRegistry { plugin };
        proof {
            assert(r.plugin.predefined_models() == spec_default_configs());
        }
        r
    }

    /// A fresh registry; it carries the same default handlers.
    pub fn new() -> (r: Self)
        ensures
            r.plugin.user_models().len() == 0,
            r.plugin.predefined_models() == spec_default_configs(),
    {
        Self::with_defaults()
    }

    /// Register a user plugin configuration; it shadows a predefined one
    /// of the same name.
    pub fn add_user_plugin_config(&mut self, config: PluginExtractionConfig)
        ensures
            final(self).plugin.user_models() == old(self).plugin.user_models().push(config@),
            final(self).plugin.predefined_models() == old(self).plugin.predefined_models(),
    {
        self.plugin.add_user_config(config);
        proof {
            assert(final(self).plugin.user_models() =~= old(self).plugin.user_models().push(
                final(self).plugin.user_configs@.last()@,
            ));
        }
    }

    /// Whether the registry handles an opcode.
    pub fn has_handler(&self, code: i32) -> (r: bool)
        ensures
            r == spec_handled(code),
    {
        code == 101 || code == 401 || code == 102 || code == 402 || code == 408 || code == 357
    }
}

impl Default for HandlerRegistry {
    /// The default registry.
    fn default() -> (r: Self)
        ensures
            r.plugin.user_models().len() == 0,
            r.plugin.predefined_models() == spec_default_configs(),
    {
        HandlerRegistry::with_defaults()
    }
}

} // verus!
