//! Tasks, contexts, and the mathematical model the contracts speak of.

use vstd::prelude::*;

verus! {

/// One entry of a to-do list.
#[derive(Debug, Clone)]
pub struct Task {
    pub id: usize,
    pub content: String,
    pub done: bool,
    pub creation_date: String,
    pub modification_date: String,
}

/// What a [`Task`] means: its fields as plain mathematical values.
pub struct TaskView {
    pub id: nat,
    pub content: Seq<char>,
    pub done: bool,
    pub creation_date: Seq<char>,
    pub modification_date: Seq<char>,
}

impl View for Task {
    type V = TaskView;

    open spec fn view(&self) -> TaskView {
        TaskView {
            id: self.id as nat,
            content: self.content@,
            done: self.done,
            creation_date: self.creation_date@,
            modification_date: self.modification_date@,
        }
    }
}

impl DeepView for Task {
    type V = TaskView;

    open spec fn deep_view(&self) -> TaskView {
        self@
    }
}

/// A named list of tasks.
#[derive(Debug, Clone)]
pub struct Context {
    pub id: usize,
    pub name: String,
    pub tasks: Vec<Task>,
    pub active: bool,
}

/// What a [`Context`] means: its fields as plain mathematical values.
pub struct ContextView {
    pub id: nat,
    pub name: Seq<char>,
    pub tasks: Seq<TaskView>,
    pub active: bool,
}

impl View for Context {
    type V = ContextView;

    open spec fn view(&self) -> ContextView {
        ContextView {
            id: self.id as nat,
            name: self.name@,
            tasks: self.tasks.deep_view(),
            active: self.active,
        }
    }
}

impl DeepView for Context {
    type V = ContextView;

    open spec fn deep_view(&self) -> ContextView {
        self@
    }
}

/// The context that `use` creates for a name it has not seen: numbered one
/// past the contexts that exist, active, and without tasks.
pub open spec fn fresh_context(name: Seq<char>, size: nat) -> ContextView {
    ContextView { id: size + 1, name, tasks: Seq::empty(), active: true }
}

impl Context {
    /// A new, active, empty context named `name`, for a collection that
    /// holds `size` contexts so far.
    pub fn new(name: &String, size: usize) -> (ctx: Context)
        requires
            size < usize::MAX,
        ensures
            ctx@ == fresh_context(name@, size as nat),
    {
        let ctx = Context { id: size + 1, name: name.clone(), tasks: Vec::new(), active: true };
        assert(ctx.tasks.deep_view() =~= Seq::<TaskView>::empty());
        ctx
    }
}

/// The line length used where the terminal's width is unknown.
pub const DEFAULT_LINE_LENGTH: usize = 50;

/// The columns of a terminal line that the table's frame and its first two
/// columns take up.
pub const LAYOUT: usize = 15;

/// The line length used on a terminal too narrow for anything better.
pub const LINE_LEN_FALLBACK: usize = 10;

/// The settings as the user wrote them. An empty text stands for a setting
/// that was left out.
#[derive(Debug)]
pub struct UserConfig {
    pub ssh_ip: String,
    pub ssh_username: String,
    pub ssh_file_path: String,
    pub local_file_path: String,
    pub api_url: String,
    pub api_key: String,
}

impl Default for UserConfig {
    fn default() -> (config: UserConfig)
        ensures
            config.ssh_ip@.len() == 0,
            config.ssh_username@.len() == 0,
            config.ssh_file_path@.len() == 0,
            config.local_file_path@.len() == 0,
            config.api_url@.len() == 0,
            config.api_key@.len() == 0,
    {
        UserConfig {
            ssh_ip: String::new(),
            ssh_username: String::new(),
            ssh_file_path: String::new(),
            local_file_path: String::new(),
            api_url: String::new(),
            api_key: String::new(),
        }
    }
}

/// The settings a command runs with: the user's, and what follows from them.
#[derive(Debug)]
pub struct Config {
    pub ssh_ip: String,
    pub ssh_username: String,
    pub ssh_file_path: String,
    pub local_file_path: String,
    pub max_line_lengh: usize,
    pub api_url: String,
    pub api_key: String,
    pub folder_path: String,
}

/// Where the collection is kept.
#[derive(Debug, Clone, Copy, PartialEq, Eq, Structural)]
pub enum Backend {
    /// A document on this machine.
    LocalFile,
    /// A document on another machine, reached over an authenticated session.
    RemoteFile,
    /// A service that keeps tasks and contexts one by one.
    Rest,
}

/// The backend that settings select: the service where its address is set,
/// else the remote document where a host is set, else the local document.
pub open spec fn selected_backend(api_url: Seq<char>, ssh_ip: Seq<char>) -> Backend {
    if api_url.len() > 0 {
        Backend::Rest
    } else if ssh_ip.len() > 0 {
        Backend::RemoteFile
    } else {
        Backend::LocalFile
    }
}

/// Whether `path` begins with a slash.
pub open spec fn is_rooted(path: Seq<char>) -> bool {
    path.len() > 0 && path[0] == '/'
}

/// `path` made to begin with a slash, or made not to.
pub open spec fn normalized(path: Seq<char>, rooted: bool) -> Seq<char> {
    if rooted && !is_rooted(path) {
        seq!['/'] + path
    } else if !rooted && is_rooted(path) {
        path.drop_first()
    } else {
        path
    }
}

/// The folder that holds the document: on a remote host the configured
/// remote path, without a leading slash; locally the configured path, with
/// one; and where neither is configured, a folder in the home of `user`.
pub open spec fn folder_of(
    ssh_ip: Seq<char>,
    ssh_file_path: Seq<char>,
    local_file_path: Seq<char>,
    user: Seq<char>,
) -> Seq<char> {
    if ssh_ip.len() == 0 {
        if local_file_path.len() == 0 {
            "/home/"@ + user + "/.local/share/tasks"@
        } else {
            normalized(local_file_path, true)
        }
    } else {
        normalized(ssh_file_path, false)
    }
}

/// The document inside `folder`.
pub open spec fn file_in(folder: Seq<char>) -> Seq<char> {
    folder + "/tasks.json"@
}

/// The length at which lines are broken on a terminal of the given width:
/// the width less the room the table's layout takes, but never under the
/// fallback; and the default where the width is unknown.
pub open spec fn line_length_for(columns: Option<u16>) -> usize {
    match columns {
        Some(width) => if width < LAYOUT + LINE_LEN_FALLBACK {
            LINE_LEN_FALLBACK
        } else {
            (width - LAYOUT) as usize
        },
        None => DEFAULT_LINE_LENGTH,
    }
}

/// Makes `path` begin with a slash where `starts_with_backslash` is set,
/// and takes a leading slash away where it is not.
pub fn normalize_path(path: &String, starts_with_backslash: bool) -> (out: String)
    ensures
        out@ == normalized(path@, starts_with_backslash),
{
    let text: &str = path.as_str();
    let n: usize = text.unicode_len();
    let rooted: bool = n > 0 && text.get_char(0) == '/';
    if starts_with_backslash && !rooted {
        proof {
            reveal_strlit("/");
        }
        let out = String::from_str("/").concat(text);
        assert(out@ =~= seq!['/'] + path@);
        out
    } else if !starts_with_backslash && rooted {
        let out = String::from_str(text.substring_char(1, n));
        assert(out@ =~= path@.drop_first());
        out
    } else {
        path.clone()
    }
}

impl UserConfig {
    /// Whether the folder of the document depends on who the user is:
    /// it does where neither a remote host nor a local path is configured.
    pub fn needs_user(&self) -> (needed: bool)
        ensures
            needed == (self.ssh_ip@.len() == 0 && self.local_file_path@.len() == 0),
    {
        self.ssh_ip.as_str().is_empty() && self.local_file_path.as_str().is_empty()
    }
}

/// The path of the document and of the folder that holds it, in this
/// order. `user` is the name of the user's account; it is looked at only
/// where `config.needs_user()`.
pub fn get_file_paths(config: &UserConfig, user: &str) -> (paths: [String; 2])
    ensures
        paths[1]@ == folder_of(
            config.ssh_ip@,
            config.ssh_file_path@,
            config.local_file_path@,
            user@,
        ),
        paths[0]@ == file_in(paths[1]@),
{
    let folder_path: String = if config.ssh_ip.as_str().is_empty() {
        if config.local_file_path.as_str().is_empty() {
            String::from_str("/home/").concat(user).concat("/.local/share/tasks")
        } else {
            normalize_path(&config.local_file_path, true)
        }
    } else {
        normalize_path(&config.ssh_file_path, false)
    };
    let file_path: String = folder_path.clone().concat("/tasks.json");
    [file_path, folder_path]
}

/// The width of the terminal in columns, as the crate `terminal_size` finds
/// it with `terminal_size()`, or `None` where the output is no terminal.
/// The answer depends on the terminal, so nothing is claimed of it.
#[verifier::external_body]
fn terminal_columns() -> (columns: Option<u16>) {
    terminal_size::terminal_size().map(|size| size.0.0)
}

/// The length at which lines are broken on a terminal of the given width.
pub fn line_length(columns: Option<u16>) -> (length: usize)
    ensures
        length == line_length_for(columns),
{
    match columns {
        Some(width) => {
            let width: usize = width as usize;
            if width < LAYOUT + LINE_LEN_FALLBACK {
                LINE_LEN_FALLBACK
            } else {
                width - LAYOUT
            }
        },
        None => DEFAULT_LINE_LENGTH,
    }
}

/// The length at which lines are broken on the terminal this process
/// writes to.
pub fn get_terminal_width() -> (length: usize)
    ensures
        exists|columns: Option<u16>| length == line_length_for(columns),
        LINE_LEN_FALLBACK <= length <= u16::MAX - LAYOUT,
{
    let columns = terminal_columns();
    line_length(columns)
}

impl Config {
    /// The settings to run with, for the user's settings and the name of
    /// the user's account. Lines are broken to suit the terminal.
    pub fn new(config: UserConfig, user: &str) -> (made: Config)
        ensures
            made.ssh_ip@ == config.ssh_ip@,
            made.ssh_username@ == config.ssh_username@,
            made.ssh_file_path@ == config.ssh_file_path@,
            made.api_url@ == config.api_url@,
            made.api_key@ == config.api_key@,
            made.folder_path@ == folder_of(
                config.ssh_ip@,
                config.ssh_file_path@,
                config.local_file_path@,
                user@,
            ),
            made.local_file_path@ == file_in(made.folder_path@),
            exists|columns: Option<u16>| made.max_line_lengh == line_length_for(columns),
    {
        let columns = terminal_columns();
        Config::for_terminal(config, user, columns)
    }

    /// The settings to run with, for the user's settings, the name of the
    /// user's account, and a terminal of the given width.
    pub fn for_terminal(config: UserConfig, user: &str, columns: Option<u16>) -> (made: Config)
        ensures
            made.ssh_ip@ == config.ssh_ip@,
            made.ssh_username@ == config.ssh_username@,
            made.ssh_file_path@ == config.ssh_file_path@,
            made.api_url@ == config.api_url@,
            made.api_key@ == config.api_key@,
            made.folder_path@ == folder_of(
                config.ssh_ip@,
                config.ssh_file_path@,
                config.local_file_path@,
                user@,
            ),
            made.local_file_path@ == file_in(made.folder_path@),
            made.max_line_lengh == line_length_for(columns),
    {
        let paths = get_file_paths(&config, user);
        let file_path: String = paths[0].clone();
        let folder_path: String = paths[1].clone();
        Config {
            ssh_ip: config.ssh_ip,
            ssh_username: config.ssh_username,
            ssh_file_path: config.ssh_file_path,
            local_file_path: file_path,
            max_line_lengh: line_length(columns),
            api_url: config.api_url,
            api_key: config.api_key,
            folder_path,
        }
    }

    /// Where the collection is kept under these settings.
    pub fn backend(&self) -> (backend: Backend)
        ensures
            backend == selected_backend(self.api_url@, self.ssh_ip@),
    {
        if !self.api_url.as_str().is_empty() {
            Backend::Rest
        } else if !self.ssh_ip.as_str().is_empty() {
            Backend::RemoteFile
        } else {
            Backend::LocalFile
        }
    }
}

} // verus!
