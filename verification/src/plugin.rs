//! The plugin registry: which plugin provides which command.

use vstd::prelude::*;

use crate::string_map::StringMap;
use crate::text::{is_blank, str_is_blank};

verus! {

/// Where a command lives: the plugin that provides it and the command's
/// position in that plugin's command list.
#[derive(Debug)]
pub struct CommandSlot {
    pub plugin: String,
    pub index: usize,
}

/// Errors of the plugin registry.
#[derive(Debug)]
pub enum RegistryError {
    /// A plugin with this name is already registered.
    PluginAlreadyRegistered(String),
    /// A command with this name is already registered.
    CommandAlreadyRegistered(String),
    /// No command with this name is registered.
    UnknownCommand(String),
    /// The plugin that a command points to is not registered.
    PluginNotFound(String),
}

impl RegistryError {
    /// The human-readable message of the error.
    pub fn message(&self) -> (m: String)
        ensures
            m@ == match self {
                RegistryError::PluginAlreadyRegistered(n) => "Plugin '"@ + n@ + "' is already registered"@,
                RegistryError::CommandAlreadyRegistered(n) => "Command '"@ + n@
                    + "' is already registered by another plugin"@,
                RegistryError::UnknownCommand(n) => "Unknown command: "@ + n@,
                RegistryError::PluginNotFound(n) => "Plugin '"@ + n@ + "' not found"@,
            },
    {
        match self {
            RegistryError::PluginAlreadyRegistered(n) => String::from_str("Plugin '").concat(n.as_str()).concat(
                "' is already registered",
            ),
            RegistryError::CommandAlreadyRegistered(n) => String::from_str("Command '").concat(n.as_str()).concat(
                "' is already registered by another plugin",
            ),
            RegistryError::UnknownCommand(n) => String::from_str("Unknown command: ").concat(n.as_str()),
            RegistryError::PluginNotFound(n) => String::from_str("Plugin '").concat(n.as_str()).concat(
                "' not found",
            ),
        }
    }
}

/// The commands map after registering the first `n` commands of plugin `name`.
pub open spec fn add_commands(
    m: Map<Seq<char>, CommandSlot>,
    name: String,
    cmds: Seq<Seq<char>>,
    n: nat,
) -> Map<Seq<char>, CommandSlot>
    decreases n,
{
    if n == 0 {
        m
    } else {
        add_commands(m, name, cmds, (n - 1) as nat).insert(
            cmds[n - 1],
            CommandSlot { plugin: name, index: (n - 1) as usize },
        )
    }
}

/// Command `j` clashes with a registered command or with an earlier one.
pub open spec fn clashes(m: Map<Seq<char>, CommandSlot>, cmds: Seq<Seq<char>>, j: int) -> bool {
    m.dom().contains(cmds[j]) || exists|i: int| 0 <= i < j && cmds[i] == cmds[j]
}

/// None of the first `n` commands clashes.
pub open spec fn no_clash_before(m: Map<Seq<char>, CommandSlot>, cmds: Seq<Seq<char>>, n: int) -> bool {
    forall|j: int| 0 <= j < n ==> !#[trigger] clashes(m, cmds, j)
}

/// Command `j` is the first that clashes.
pub open spec fn first_clash(m: Map<Seq<char>, CommandSlot>, cmds: Seq<Seq<char>>, j: int) -> bool {
    0 <= j < cmds.len() && no_clash_before(m, cmds, j) && clashes(m, cmds, j)
}

/// The names of a list of strings.
pub open spec fn names_of(v: Seq<String>) -> Seq<Seq<char>> {
    v.map_values(|s: String| s@)
}

proof fn lemma_add_commands_dom(
    m: Map<Seq<char>, CommandSlot>,
    name: String,
    cmds: Seq<Seq<char>>,
    n: nat,
    k: Seq<char>,
)
    requires
        n <= cmds.len(),
    ensures
        add_commands(m, name, cmds, n).dom().contains(k) <==> (m.dom().contains(k) || exists|i: int|
            0 <= i < n && cmds[i] == k),
    decreases n,
{
    if n > 0 {
        lemma_add_commands_dom(m, name, cmds, (n - 1) as nat, k);
        if exists|i: int| 0 <= i < n && cmds[i] == k {
            let i = choose|i: int| 0 <= i < n && cmds[i] == k;
            if i < n - 1 {
                assert(exists|i2: int| 0 <= i2 < n - 1 && cmds[i2] == k);
            }
        }
    }
}

/// The content of a [`PluginRegistry`].
pub struct RegistryView<P> {
    /// The registered plugins, by name.
    pub plugins: Map<Seq<char>, P>,
    /// The registered commands, by name.
    pub commands: Map<Seq<char>, CommandSlot>,
}

/// Registry of loaded plugins and of the commands they provide.
pub struct PluginRegistry<P> {
    plugins: StringMap<P>,
    commands: StringMap<CommandSlot>,
}

impl<P> View for PluginRegistry<P> {
    type V = RegistryView<P>;

    closed spec fn view(&self) -> RegistryView<P> {
        RegistryView { plugins: self.plugins@, commands: self.commands@ }
    }
}

impl<P> PluginRegistry<P> {
    /// The registry is well formed.
    pub closed spec fn wf(&self) -> bool {
        self.plugins.wf() && self.commands.wf()
    }

    /// An empty registry.
    pub fn new() -> (r: Self)
        ensures
            r.wf(),
            r@.plugins == Map::<Seq<char>, P>::empty(),
            r@.commands == Map::<Seq<char>, CommandSlot>::empty(),
    {
        PluginRegistry { plugins: StringMap::new(), commands: StringMap::new() }
    }

    /// Register a plugin under `name`, with the names of its commands in order.
    ///
    /// Fails if the plugin name is taken, or at the first command whose name
    /// is taken (by another plugin or earlier in the same list); the commands
    /// before that one stay registered, but the plugin is not.
    pub fn register_plugin(&mut self, name: String, plugin: P, command_names: Vec<String>) -> (r: Result<
        (),
        RegistryError,
    >)
        requires
            old(self).wf(),
        ensures
            final(self).wf(),
            old(self)@.plugins.dom().contains(name@) ==> r == Err::<(), RegistryError>(
                RegistryError::PluginAlreadyRegistered(name),
            ) && final(self)@ == old(self)@,
            !old(self)@.plugins.dom().contains(name@) && no_clash_before(
                old(self)@.commands,
                names_of(command_names@),
                command_names@.len() as int,
            ) ==> r is Ok && final(self)@.plugins == old(self)@.plugins.insert(name@, plugin)
                && final(self)@.commands == add_commands(
                old(self)@.commands,
                name,
                names_of(command_names@),
                command_names@.len(),
            ),
            forall|j: int|
                !old(self)@.plugins.dom().contains(name@) && #[trigger] first_clash(
                    old(self)@.commands,
                    names_of(command_names@),
                    j,
                ) ==> r == Err::<(), RegistryError>(
                    RegistryError::CommandAlreadyRegistered(command_names@[j]),
                ) && final(self)@.plugins == old(self)@.plugins && final(self)@.commands == add_commands(
                    old(self)@.commands,
                    name,
                    names_of(command_names@),
                    j as nat,
                ),
    {
        if self.plugins.contains_key(name.as_str()) {
            return Err(RegistryError::PluginAlreadyRegistered(name));
        }
        let ghost m0 = self.commands@;
        let ghost cmds = names_of(command_names@);
        let mut index: usize = 0;
        while index < command_names.len()
            invariant
                self.plugins.wf(),
                self.commands.wf(),
                self.plugins@ == old(self)@.plugins,
                !self.plugins@.dom().contains(name@),
                cmds == names_of(command_names@),
                m0 == old(self)@.commands,
                index <= command_names@.len(),
                no_clash_before(m0, cmds, index as int),
                self.commands@ == add_commands(m0, name, cmds, index as nat),
            decreases command_names@.len() - index,
        {
            let command_name = &command_names[index];
            proof {
                lemma_add_commands_dom(m0, name, cmds, index as nat, command_name@);
            }
            if self.commands.contains_key(command_name.as_str()) {
                proof {
                    assert(clashes(m0, cmds, index as int));
                    assert forall|j: int| #[trigger]
                        first_clash(m0, cmds, j) implies j == index by {
                        if j < index {
                            assert(!clashes(m0, cmds, j));
                        } else if j > index {
                            assert(!clashes(m0, cmds, index as int));
                        }
                    }
                }
                return Err(RegistryError::CommandAlreadyRegistered(command_name.clone()));
            }
            let slot = CommandSlot { plugin: name.clone(), index };
            self.commands.insert(command_name.clone(), slot);
            proof {
                assert(!clashes(m0, cmds, index as int));
                assert forall|j: int| 0 <= j < index + 1 implies !#[trigger] clashes(m0, cmds, j) by {
                    if j < index {
                        assert(!clashes(m0, cmds, j));
                    }
                }
            }
            index = index + 1;
        }
        proof {
            assert forall|j: int| #[trigger] first_clash(m0, cmds, j) implies false by {
                assert(!clashes(m0, cmds, j));
            }
        }
        self.plugins.insert(name, plugin);
        Ok(())
    }

    /// The plugin registered under `name`, if any.
    pub fn get_plugin(&self, name: &str) -> (r: Option<&P>)
        requires
            self.wf(),
        ensures
            match r {
                Some(p) => self@.plugins.dom().contains(name@) && *p == self@.plugins[name@],
                None => !self@.plugins.dom().contains(name@),
            },
    {
        self.plugins.get(name)
    }

    /// Find the plugin and the position of the command named `command_name`.
    pub fn resolve_command(&self, command_name: &str) -> (r: Result<(&P, usize), RegistryError>)
        requires
            self.wf(),
        ensures
            match r {
                Ok((p, i)) => self@.commands.dom().contains(command_name@) && self@.plugins.dom().contains(
                    self@.commands[command_name@].plugin@,
                ) && *p == self@.plugins[self@.commands[command_name@].plugin@] && i
                    == self@.commands[command_name@].index,
                Err(RegistryError::UnknownCommand(n)) => !self@.commands.dom().contains(command_name@)
                    && n@ == command_name@,
                Err(RegistryError::PluginNotFound(n)) => self@.commands.dom().contains(command_name@)
                    && !self@.plugins.dom().contains(self@.commands[command_name@].plugin@) && n
                    == self@.commands[command_name@].plugin,
                Err(_) => false,
            },
    {
        let slot = match self.commands.get(command_name) {
            Some(slot) => slot,
            None => {
                return Err(RegistryError::UnknownCommand(String::from_str(command_name)));
            },
        };
        match self.plugins.get(slot.plugin.as_str()) {
            Some(p) => Ok((p, slot.index)),
            None => Err(RegistryError::PluginNotFound(slot.plugin.clone())),
        }
    }

    /// The names of the registered plugins.
    pub fn plugin_names(&self) -> (names: Vec<String>)
        requires
            self.wf(),
        ensures
            names_of(names@).no_duplicates(),
            names_of(names@).to_set() == self@.plugins.dom(),
    {
        self.plugins.keys()
    }

    /// The names of the registered commands.
    pub fn command_names(&self) -> (names: Vec<String>)
        requires
            self.wf(),
        ensures
            names_of(names@).no_duplicates(),
            names_of(names@).to_set() == self@.commands.dom(),
    {
        self.commands.keys()
    }

    /// The number of registered plugins.
    pub fn plugin_count(&self) -> (n: usize)
        requires
            self.wf(),
        ensures
            n == self@.plugins.dom().len(),
    {
        self.plugins.len()
    }

    /// The number of registered commands.
    pub fn command_count(&self) -> (n: usize)
        requires
            self.wf(),
        ensures
            n == self@.commands.dom().len(),
    {
        self.commands.len()
    }

    /// Whether a plugin named `name` is registered.
    pub fn has_plugin(&self, name: &str) -> (b: bool)
        requires
            self.wf(),
        ensures
            b == self@.plugins.dom().contains(name@),
    {
        self.plugins.contains_key(name)
    }

    /// Whether a command named `name` is registered.
    pub fn has_command(&self, name: &str) -> (b: bool)
        requires
            self.wf(),
        ensures
            b == self@.commands.dom().contains(name@),
    {
        self.commands.contains_key(name)
    }

    /// Remove every plugin and command.
    pub fn clear(&mut self)
        requires
            old(self).wf(),
        ensures
            final(self).wf(),
            final(self)@.plugins == Map::<Seq<char>, P>::empty(),
            final(self)@.commands == Map::<Seq<char>, CommandSlot>::empty(),
    {
        self.plugins.clear();
        self.commands.clear();
    }
}

/// After a registration without clashes, every listed command points to the
/// plugin and to its own position, and the registry knows exactly the
/// previously registered commands plus the listed ones.
pub proof fn lemma_registered_commands(
    m: Map<Seq<char>, CommandSlot>,
    name: String,
    cmds: Seq<Seq<char>>,
    n: nat,
)
    requires
        n <= cmds.len(),
        m.dom().finite(),
        no_clash_before(m, cmds, n as int),
    ensures
        forall|i: int|
            0 <= i < n ==> #[trigger] add_commands(m, name, cmds, n)[cmds[i]] == (CommandSlot {
                plugin: name,
                index: i as usize,
            }),
        forall|k: Seq<char>|
            m.dom().contains(k) ==> #[trigger] add_commands(m, name, cmds, n)[k] == m[k],
        add_commands(m, name, cmds, n).dom().finite(),
        add_commands(m, name, cmds, n).dom().len() == m.dom().len() + n,
    decreases n,
{
    if n > 0 {
        let n1 = (n - 1) as nat;
        assert forall|j: int| 0 <= j < n1 implies !#[trigger] clashes(m, cmds, j) by {
            assert(!clashes(m, cmds, j));
        }
        lemma_registered_commands(m, name, cmds, n1);
        let k = cmds[n1 as int];
        assert(!clashes(m, cmds, n1 as int));
        lemma_add_commands_dom(m, name, cmds, n1, k);
        assert(!add_commands(m, name, cmds, n1).dom().contains(k));
        assert forall|i: int| 0 <= i < n implies #[trigger] add_commands(m, name, cmds, n)[cmds[i]] == (
        CommandSlot { plugin: name, index: i as usize }) by {
            if i < n1 {
                assert(cmds[i] != k) by {
                    assert(!clashes(m, cmds, n1 as int));
                }
            }
        }
    }
}

/// Copy a list of strings.
pub fn clone_strings(v: &Vec<String>) -> (r: Vec<String>)
    ensures
        r@ == v@,
{
    let mut r: Vec<String> = Vec::new();
    let mut i: usize = 0;
    while i < v.len()
        invariant
            i <= v@.len(),
            r@ == v@.take(i as int),
        decreases v@.len() - i,
    {
        r.push(v[i].clone());
        assert(r@ =~= v@.take(i + 1));
        i = i + 1;
    }
    assert(v@.take(v@.len() as int) =~= v@);
    r
}

/// Information about a plugin.
#[derive(Debug)]
pub struct PluginInfo {
    /// The name of the plugin.
    pub name: String,
    /// The version of the plugin.
    pub version: String,
    /// The names of the commands the plugin provides.
    pub commands: Vec<String>,
}

/// Set up a fresh registry holding a single plugin.
///
/// Returns the registry and the plugin's information, or the error of the
/// registration.
pub fn init_plugin<P>(plugin: P, name: String, version: String, command_names: Vec<String>) -> (r: Result<
    (PluginRegistry<P>, PluginInfo),
    RegistryError,
>)
    ensures
        no_clash_before(Map::empty(), names_of(command_names@), command_names@.len() as int) ==> match r {
            Ok((reg, info)) => reg.wf() && reg@.plugins == Map::<Seq<char>, P>::empty().insert(name@, plugin)
                && reg@.commands == add_commands(
                Map::empty(),
                name,
                names_of(command_names@),
                command_names@.len(),
            ) && info.name == name && info.version == version && info.commands@ == command_names@,
            Err(_) => false,
        },
        forall|j: int| #[trigger]
            first_clash(Map::empty(), names_of(command_names@), j) ==> r is Err && r->Err_0
                == RegistryError::CommandAlreadyRegistered(command_names@[j]),
{
    let mut registry = PluginRegistry::new();
    let commands = clone_strings(&command_names);
    let registered_name = name.clone();
    match registry.register_plugin(registered_name, plugin, command_names) {
        Ok(()) => Ok((registry, PluginInfo { name, version, commands })),
        Err(e) => Err(e),
    }
}

/// Log levels of the engine's logging callback.
#[derive(Clone, Copy, Debug, PartialEq, Eq, Structural)]
pub enum LogLevel {
    Error,
    Warn,
    Info,
    Debug,
    Trace,
}

impl LogLevel {
    /// The number of the level in the engine's logging callback.
    pub fn code(&self) -> (c: i32)
        ensures
            c == match self {
                LogLevel::Error => 0i32,
                LogLevel::Warn => 1i32,
                LogLevel::Info => 2i32,
                LogLevel::Debug => 3i32,
                LogLevel::Trace => 4i32,
            },
    {
        match self {
            LogLevel::Error => 0,
            LogLevel::Warn => 1,
            LogLevel::Info => 2,
            LogLevel::Debug => 3,
            LogLevel::Trace => 4,
        }
    }
}

/// The JSON text a command's input is read from: a blank payload stands for
/// `null`.
pub fn effective_payload<'a>(payload: &'a str) -> (r: &'a str)
    ensures
        is_blank(payload@) ==> r@ == "null"@,
        !is_blank(payload@) ==> r@ == payload@,
{
    if str_is_blank(payload) {
        "null"
    } else {
        payload
    }
}

/// Whether `s` can be handed to the engine as a C string (no NUL character).
pub fn is_c_string_compatible(s: &str) -> (b: bool)
    ensures
        b == !s@.contains('\0'),
{
    let n = s.unicode_len();
    let mut i: usize = 0;
    while i < n
        invariant
            n == s@.len(),
            i <= n,
            forall|j: int| 0 <= j < i ==> s@[j] != '\0',
        decreases n - i,
    {
        if s.get_char(i) == '\0' {
            assert(s@[i as int] == '\0');
            return false;
        }
        i = i + 1;
    }
    true
}

/// The views of a result carrying text either way.
pub open spec fn text_result(r: Result<String, String>) -> Result<Seq<char>, Seq<char>> {
    match r {
        Ok(v) => Ok(v@),
        Err(e) => Err(e@),
    }
}

/// Check a widget ID before it is handed to the engine: the engine takes C
/// strings, so an ID holding a NUL character is refused.
pub fn check_widget_id(widget_id: &str) -> (r: Result<(), String>)
    ensures
        r is Ok <==> !widget_id@.contains('\0'),
        r matches Err(e) ==> e@ == "Invalid widget ID: contains null bytes"@,
{
    if is_c_string_compatible(widget_id) {
        Ok(())
    } else {
        Err(String::from_str("Invalid widget ID: contains null bytes"))
    }
}

/// Interpret the engine's answer to a widget directory request: its status
/// code and the path it returned (`None` for a null pointer, `Some(None)` for
/// a path that is not valid UTF-8). A nonzero status, a null path and an
/// invalid path are errors; otherwise the path is the widget directory.
pub fn widget_dir_outcome(widget_id: &str, status: i32, path: Option<Option<String>>) -> (r: Result<String, String>)
    ensures
        status != 0 ==> text_result(r) == Err::<Seq<char>, Seq<char>>(
            "Failed to get widget directory for ID: "@ + widget_id@,
        ),
        status == 0 && path is None ==> text_result(r) == Err::<Seq<char>, Seq<char>>(
            "Engine returned null path for widget ID: "@ + widget_id@,
        ),
        status == 0 && path == Some(None::<String>) ==> text_result(r) == Err::<Seq<char>, Seq<char>>(
            "Invalid UTF-8 in widget directory path"@,
        ),
        status == 0 ==> (path matches Some(Some(p)) ==> r == Ok::<String, String>(p)),
{
    if status != 0 {
        let mut e = String::from_str("Failed to get widget directory for ID: ");
        e.append(widget_id);
        return Err(e);
    }
    match path {
        None => {
            let mut e = String::from_str("Engine returned null path for widget ID: ");
            e.append(widget_id);
            Err(e)
        },
        Some(None) => Err(String::from_str("Invalid UTF-8 in widget directory path")),
        Some(Some(p)) => Ok(p),
    }
}

/// Whether a message can be logged through the engine: messages holding a NUL
/// character are dropped.
pub fn loggable(message: &str) -> (b: bool)
    ensures
        b == !message@.contains('\0'),
{
    is_c_string_compatible(message)
}

} // verus!
