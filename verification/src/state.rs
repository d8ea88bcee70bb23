//! State of a run: configuration stacks, queries and task resolution.

pub mod app_name;
pub mod config_stack;
pub mod defaults;
pub mod project_dirs;
pub mod query;
pub mod resolve;

use crate::cli::GlobalArgs;
use crate::schemas::config::bstring::{opt_view, BString};
use crate::schemas::config::{Config, ConfigSource, ConfigSourceView};
use crate::schemas::directories::{config_file_of, join_path, path_join};
use crate::state::config_stack::ConfigStack;
use crate::state::resolve::context::Dirs;
use vstd::prelude::*;
use vstd::string::StringSliceAdditionalSpecFns;

verus! {

/// The state of a run: the configuration layers and the program's
/// directories.
#[derive(Debug)]
pub struct State {
    pub configs: ConfigStack,
    pub dirs: Dirs,
}

impl State {
    /// The state with no layers, for the directories `dirs`.
    pub fn new(dirs: Dirs) -> (r: State)
        ensures
            r.configs.wf(),
            r.configs.layers().store == Map::<crate::schemas::config::ConfigSourceView, crate::schemas::config::Config>::empty(),
            r.configs.layers().stack == Seq::<crate::schemas::config::ConfigSourceView>::empty(),
            r.dirs == dirs,
    {
        let r = State { configs: ConfigStack::new(), dirs };
        assert(r.configs.layers().store =~= Map::<crate::schemas::config::ConfigSourceView, crate::schemas::config::Config>::empty());
        assert(r.configs.layers().stack =~= Seq::<crate::schemas::config::ConfigSourceView>::empty());
        r
    }

    /// The configuration file to read first: the one given in `args`, else
    /// `config.toml` in the configuration directory.
    pub fn config_path(&self, args: &GlobalArgs) -> (r: BString)
        ensures
            r@ == config_file_of(
                opt_view(args.config),
                path_join(self.dirs.config_dir@, "config.toml".spec_bytes()),
            ),
    {
        match &args.config {
            Some(c) => c.clone(),
            None => join_path(self.dirs.config_dir.as_bytes(), "config.toml".as_bytes()),
        }
    }

    /// Adds the configuration `config`, read from the file `path`, as the top
    /// layer.
    pub fn init_defaults(&mut self, path: BString, config: Config)
        requires
            old(self).configs.wf(),
        ensures
            final(self).configs.wf(),
            final(self).dirs == old(self).dirs,
            final(self).configs.layers().store == old(self).configs.layers().store.insert(
                ConfigSourceView::File(path@),
                config,
            ),
            final(self).configs.layers().stack == old(self).configs.layers().stack.push(
                ConfigSourceView::File(path@),
            ),
    {
        let ghost before = self.configs;
        let ghost pv = path@;
        self.configs.push(ConfigSource::File(path), config);
        proof {
            let mid = ConfigStack { store: self.configs.store, stack: before.stack };
            crate::state::config_stack::lemma_store_layers(&before, &mid, ConfigSourceView::File(pv), config);
            assert(self.configs.layers().stack =~= before.layers().stack.push(ConfigSourceView::File(pv)));
        }
    }
}

} // verus!
