use vstd::prelude::*;

verus! {

/// What a rule does to a clipboard value that its pattern matches.
#[derive(Debug, Clone, PartialEq)]
pub enum Action {
    Noop,
    Remove,
    Scramble,
    Replace { replacement: String },
    Exec { command_pattern: String },
}

/// No two entries share a pattern.
pub open spec fn patterns_unique(actions: Seq<(String, (bool, Action))>) -> bool {
    forall|i: int, j: int|
        0 <= i < actions.len() && 0 <= j < actions.len() && i != j ==> #[trigger] actions[i].0@
            != #[trigger] actions[j].0@
}

/// History size and the ordered rules, keyed by pattern.
pub struct Config {
    max_history: usize,
    actions: Vec<(String, (bool, Action))>,
}

impl Config {
    pub closed spec fn wf(&self) -> bool {
        patterns_unique(self.actions@)
    }

    pub closed spec fn history_size(&self) -> usize {
        self.max_history
    }

    /// The entries in the order they were first inserted.
    pub closed spec fn entries(&self) -> Seq<(String, (bool, Action))> {
        self.actions@
    }

    /// A configuration with the given history size and no rules.
    pub fn new(max_history: usize) -> (r: Config)
        ensures
            r.wf(),
            r.history_size() == max_history,
            r.entries() == Seq::<(String, (bool, Action))>::empty(),
    {
        Config { max_history, actions: Vec::new() }
    }

    pub fn max_history(&self) -> (r: usize)
        ensures
            r == self.history_size(),
    {
        self.max_history
    }

    pub fn actions(&self) -> (r: &Vec<(String, (bool, Action))>)
        ensures
            r@ == self.entries(),
    {
        &self.actions
    }

    /// Sets the rule for `pattern`: an entry with that pattern keeps its
    /// place and takes the new value; otherwise the entry goes last.
    pub fn insert_action(&mut self, pattern: String, enabled: bool, action: Action)
        requires
            old(self).wf(),
        ensures
            final(self).wf(),
            final(self).history_size() == old(self).history_size(),
            (exists|i: int|
                0 <= i < old(self).entries().len() && old(self).entries()[i].0@ == pattern@)
                ==> final(self).entries() == old(self).entries().update(
                choose|i: int|
                    0 <= i < old(self).entries().len() && old(self).entries()[i].0@ == pattern@,
                (pattern, (enabled, action)),
            ),
            (forall|i: int|
                0 <= i < old(self).entries().len() ==> old(self).entries()[i].0@ != pattern@)
                ==> final(self).entries() == old(self).entries().push(
                (pattern, (enabled, action)),
            ),
    {
        let n = self.actions.len();
        let mut i: usize = 0;
        while i < n
            invariant
                n == self.actions@.len(),
                self.actions@ == old(self).actions@,
                self.max_history == old(self).max_history,
                patterns_unique(old(self).actions@),
                0 <= i <= n,
                forall|j: int| 0 <= j < i ==> self.actions@[j].0@ != pattern@,
            decreases n - i,
        {
            if self.actions[i].0 == pattern {
                let ghost k = i as int;
                assert(old(self).actions@[k].0@ == pattern@);
                self.actions.set(i, (pattern, (enabled, action)));
                assert(forall|j: int|
                    0 <= j < old(self).actions@.len() && old(self).actions@[j].0@ == pattern@
                        ==> j == k);
                assert(self.actions@ =~= old(self).actions@.update(k, (pattern, (enabled, action))));
                return;
            }
            i = i + 1;
        }
        self.actions.push((pattern, (enabled, action)));
    }
}

impl Config {
    /// The configuration to run with: the one loaded, or the default when
    /// none could be loaded.
    pub fn from_loaded(loaded: Option<Config>) -> (r: Config)
        requires
            loaded matches Some(c) ==> c.wf(),
        ensures
            r.wf(),
            loaded matches Some(c) ==> r == c,
            loaded is None ==> r.history_size() == 50 && r.entries() == Seq::<
                (String, (bool, Action)),
            >::empty(),
    {
        match loaded {
            Some(c) => c,
            None => Config::default(),
        }
    }
}

impl Default for Config {
    /// A history of fifty values and no rules.
    fn default() -> (r: Config)
        ensures
            r.wf(),
            r.history_size() == 50,
            r.entries() == Seq::<(String, (bool, Action))>::empty(),
    {
        Config::new(50)
    }
}

/// Editor used when none is set.
pub const DEFAULT_EDITOR: &'static str = "vim";

/// What the program runs with, set up once at start and passed around.
pub struct Context {
    config: Config,
    editor: String,
    config_path: String,
}

impl Context {
    pub closed spec fn spec_config(&self) -> Config {
        self.config
    }

    pub closed spec fn spec_editor(&self) -> Seq<char> {
        self.editor@
    }

    pub closed spec fn spec_config_path(&self) -> Seq<char> {
        self.config_path@
    }
}

/// Builds the context: the editor is `editor_var` when set, else `vim`.
pub fn setup_config(editor_var: Option<String>, config_path: String, config: Config) -> (r:
    Context)
    ensures
        r.spec_config() == config,
        r.spec_config_path() == config_path@,
        editor_var matches Some(e) ==> r.spec_editor() == e@,
        editor_var is None ==> r.spec_editor() == DEFAULT_EDITOR@,
{
    let editor = match editor_var {
        Some(e) => e,
        None => DEFAULT_EDITOR.to_owned(),
    };
    Context { config, editor, config_path }
}

pub fn get_config_path(ctx: &Context) -> (r: &String)
    ensures
        r@ == ctx.spec_config_path(),
{
    &ctx.config_path
}

pub fn get_config(ctx: &Context) -> (r: &Config)
    ensures
        *r == ctx.spec_config(),
{
    &ctx.config
}

pub fn get_editor(ctx: &Context) -> (r: &String)
    ensures
        r@ == ctx.spec_editor(),
{
    &ctx.editor
}

} // verus!
