//! The managed model server: where it lives, how it is started, when it is up.

use crate::compute::local::error::{LocalError, LocalErrorView};
use crate::model::{opt, views};
use crate::paths::{join_path, joined, split_extension, stem_and_extension};
use crate::text::{decimal, str_eq, u64_text};
use vstd::prelude::*;

verus! {

/// Pinned release of the server.
pub const LLAMA_CPP_TAG: &'static str = "b6000";

/// Default context window of the server.
pub const DEFAULT_CONTEXT_SIZE: u32 = 8192;

/// The least context window of the server.
pub const MIN_CONTEXT_SIZE: u32 = 512;

/// How long a started server may take to become healthy, in seconds.
pub const HEALTH_TIMEOUT_SECS: u64 = 120;

/// The status with which a healthy server answers.
pub const HEALTHY_STATUS: u16 = 200;

/// The architecture part of a release file's name.
pub fn llama_asset_arch(is_x86_64: bool) -> (r: &'static str)
    ensures
        r@ == (if is_x86_64 {
            "x64"@
        } else {
            "arm64"@
        }),
{
    if is_x86_64 {
        "x64"
    } else {
        "arm64"
    }
}

/// The download URL of the pinned release for an architecture.
pub fn asset_url(arch: &str) -> (r: String)
    ensures
        r@ == "https://github.com/ggml-org/llama.cpp/releases/download/"@ + LLAMA_CPP_TAG@
            + "/llama-"@ + LLAMA_CPP_TAG@ + "-bin-macos-"@ + arch@ + ".zip"@,
{
    let mut s = "https://github.com/ggml-org/llama.cpp/releases/download/".to_owned();
    s.append(LLAMA_CPP_TAG);
    s.append("/llama-");
    s.append(LLAMA_CPP_TAG);
    s.append("-bin-macos-");
    s.append(arch);
    s.append(".zip");
    s
}

/// Coarse runtime state.
#[derive(Debug)]
pub enum RuntimeStatus {
    /// No server installed yet.
    NotInstalled,
    /// Downloading and installing the server.
    Downloading,
    /// Server installed, no model loaded.
    Ready,
    /// A model is loading into a starting server.
    Starting,
    /// A server is up and serving a model on a port.
    Running { model_id: String, port: u16 },
    /// The runtime failed, for a reason.
    Failed(String),
}

/// [`RuntimeStatus`] as a mathematical value.
pub enum RuntimeStatusView {
    NotInstalled,
    Downloading,
    Ready,
    Starting,
    Running { model_id: Seq<char>, port: u16 },
    Failed(Seq<char>),
}

impl View for RuntimeStatus {
    type V = RuntimeStatusView;

    open spec fn view(&self) -> RuntimeStatusView {
        match self {
            RuntimeStatus::NotInstalled => RuntimeStatusView::NotInstalled,
            RuntimeStatus::Downloading => RuntimeStatusView::Downloading,
            RuntimeStatus::Ready => RuntimeStatusView::Ready,
            RuntimeStatus::Starting => RuntimeStatusView::Starting,
            RuntimeStatus::Running { model_id, port } => RuntimeStatusView::Running {
                model_id: model_id@,
                port: *port,
            },
            RuntimeStatus::Failed(s) => RuntimeStatusView::Failed(s@),
        }
    }
}

impl Clone for RuntimeStatus {
    fn clone(&self) -> (r: Self)
        ensures
            r@ == self@,
    {
        match self {
            RuntimeStatus::NotInstalled => RuntimeStatus::NotInstalled,
            RuntimeStatus::Downloading => RuntimeStatus::Downloading,
            RuntimeStatus::Ready => RuntimeStatus::Ready,
            RuntimeStatus::Starting => RuntimeStatus::Starting,
            RuntimeStatus::Running { model_id, port } => RuntimeStatus::Running {
                model_id: model_id.clone(),
                port: *port,
            },
            RuntimeStatus::Failed(s) => RuntimeStatus::Failed(s.clone()),
        }
    }
}

/// Where the server and its libraries live.
pub struct LlamaRuntime {
    runtime_dir: String,
}

impl LlamaRuntime {
    /// The directory of the server.
    pub closed spec fn dir(&self) -> Seq<char> {
        self.runtime_dir@
    }

    /// A runtime in the given directory.
    pub fn new(runtime_dir: &str) -> (r: LlamaRuntime)
        ensures
            r.dir() == runtime_dir@,
    {
        LlamaRuntime { runtime_dir: runtime_dir.to_owned() }
    }

    /// The directory holding the server and its libraries.
    pub fn runtime_dir(&self) -> (r: &str)
        ensures
            r@ == self.dir(),
    {
        self.runtime_dir.as_str()
    }

    /// Where the server is, or will be, installed.
    pub fn server_binary_path(&self) -> (r: String)
        ensures
            r@ == joined(self.dir(), "llama-server"@),
    {
        join_path(self.runtime_dir.as_str(), "llama-server")
    }

    /// Where the release archive is downloaded to, and where it is unpacked.
    pub fn scratch_paths(&self) -> (r: (String, String))
        ensures
            r.0@ == joined(self.dir(), "llama-server.zip"@),
            r.1@ == joined(self.dir(), "unzip"@),
    {
        (
            join_path(self.runtime_dir.as_str(), "llama-server.zip"),
            join_path(self.runtime_dir.as_str(), "unzip"),
        )
    }

    /// What installing comes to, given where the server was found among the
    /// unpacked files and whether it stands in its place afterwards.
    pub fn ensure_binary(&self, found: bool, has_parent: bool, in_place: bool) -> (r: Result<
        String,
        LocalError,
    >)
        ensures
            match r {
                Ok(path) => found && has_parent && in_place && path@ == joined(
                    self.dir(),
                    "llama-server"@,
                ),
                Err(e) => e@ == LocalErrorView::Runtime(
                    if !found {
                        "llama-server not found in release zip"@
                    } else if !has_parent {
                        "invalid extracted layout"@
                    } else {
                        "llama-server missing after install"@
                    },
                ) && !(found && has_parent && in_place),
            },
    {
        if !found {
            Err(LocalError::Runtime("llama-server not found in release zip".to_owned()))
        } else if !has_parent {
            Err(LocalError::Runtime("invalid extracted layout".to_owned()))
        } else if !in_place {
            Err(LocalError::Runtime("llama-server missing after install".to_owned()))
        } else {
            Ok(self.server_binary_path())
        }
    }
}

/// The context window that a server is started with.
pub open spec fn server_context(ctx_size: u32) -> u32 {
    if ctx_size < MIN_CONTEXT_SIZE {
        MIN_CONTEXT_SIZE
    } else {
        ctx_size
    }
}

/// The arguments with which a server is started on a port: the model, loopback
/// only, the context window, and the model's own chat template.
pub fn server_args(model_path: &str, port: u16, ctx_size: u32) -> (r: Vec<String>)
    ensures
        views(r@) == seq![
            "-m"@,
            model_path@,
            "--host"@,
            "127.0.0.1"@,
            "--port"@,
            decimal(port as nat),
            "-c"@,
            decimal(server_context(ctx_size) as nat),
            "--jinja"@,
        ],
{
    let ctx: u32 = if ctx_size < MIN_CONTEXT_SIZE {
        MIN_CONTEXT_SIZE
    } else {
        ctx_size
    };
    let r = vec![
        "-m".to_owned(),
        model_path.to_owned(),
        "--host".to_owned(),
        "127.0.0.1".to_owned(),
        "--port".to_owned(),
        u64_text(port as u64),
        "-c".to_owned(),
        u64_text(ctx as u64),
        "--jinja".to_owned(),
    ];
    assert(views(r@) =~= seq![
        "-m"@,
        model_path@,
        "--host"@,
        "127.0.0.1"@,
        "--port"@,
        decimal(port as nat),
        "-c"@,
        decimal(server_context(ctx_size) as nat),
        "--jinja"@,
    ]);
    r
}

/// The stem of a file name.
pub open spec fn file_stem(name: Seq<char>) -> Seq<char> {
    match stem_and_extension(name) {
        Some(parts) => parts.0,
        None => name,
    }
}

/// A running server: the model it serves and its port.
#[derive(Debug)]
pub struct RunningServer {
    port: u16,
    model_id: String,
}

impl RunningServer {
    /// The port.
    pub closed spec fn port_spec(&self) -> u16 {
        self.port
    }

    /// The model.
    pub closed spec fn model_spec(&self) -> Seq<char> {
        self.model_id@
    }

    /// The server for a model file. A file without a name counts as `local`.
    pub fn new(model_file_name: &Option<String>, port: u16) -> (r: RunningServer)
        ensures
            r.port_spec() == port,
            r.model_spec() == (match model_file_name {
                Some(name) => file_stem(name@),
                None => "local"@,
            }),
    {
        let model_id = match model_file_name {
            Some(name) => match split_extension(name.as_str()) {
                Some((stem, _)) => stem,
                None => name.clone(),
            },
            None => "local".to_owned(),
        };
        RunningServer { port, model_id }
    }

    /// The loopback base URL of the server.
    pub fn base_url(&self) -> (r: String)
        ensures
            r@ == "http://127.0.0.1:"@ + decimal(self.port_spec() as nat),
    {
        "http://127.0.0.1:".to_owned().concat(u64_text(self.port as u64).as_str())
    }

    /// The bound loopback port.
    pub fn port(&self) -> (r: u16)
        ensures
            r == self.port_spec(),
    {
        self.port
    }

    /// The identifier of the loaded model.
    pub fn model_id(&self) -> (r: &str)
        ensures
            r@ == self.model_spec(),
    {
        self.model_id.as_str()
    }

    /// The status of a running server.
    pub fn status(&self) -> (r: RuntimeStatus)
        ensures
            r@ == (RuntimeStatusView::Running {
                model_id: self.model_spec(),
                port: self.port_spec(),
            }),
    {
        RuntimeStatus::Running { model_id: self.model_id.clone(), port: self.port }
    }
}

/// The URL that tells whether a server is healthy.
pub fn health_url(port: u16) -> (r: String)
    ensures
        r@ == "http://127.0.0.1:"@ + decimal(port as nat) + "/health"@,
{
    let mut s = "http://127.0.0.1:".to_owned();
    s.append(u64_text(port as u64).as_str());
    s.append("/health");
    s
}

/// What one look at a starting server comes to: a verdict, or none while it may
/// still come up. `answer` is the status of its answer, if it gave one.
pub fn health_verdict(
    exited: &Option<String>,
    answer: Option<u16>,
    past_deadline: bool,
) -> (r: Option<Result<(), LocalError>>)
    ensures
        match exited {
            Some(status) => r matches Some(Err(e)) && e@ == LocalErrorView::Runtime(
                "llama-server exited before becoming healthy ("@ + status@ + ")"@,
            ),
            None => if answer == Some(HEALTHY_STATUS) {
                r == Some(Ok::<(), LocalError>(()))
            } else if past_deadline {
                r matches Some(Err(e)) && e@ == LocalErrorView::Runtime(
                    "llama-server did not become healthy within "@ + decimal(
                        HEALTH_TIMEOUT_SECS as nat,
                    ) + "s"@,
                )
            } else {
                r is None
            },
        },
{
    match exited {
        Some(status) => {
            let mut s = "llama-server exited before becoming healthy (".to_owned();
            s.append(status.as_str());
            s.append(")");
            Some(Err(LocalError::Runtime(s)))
        },
        None => {
            let healthy: bool = match answer {
                Some(status) => status == HEALTHY_STATUS,
                None => false,
            };
            if healthy {
                Some(Ok(()))
            } else if past_deadline {
                let mut s = "llama-server did not become healthy within ".to_owned();
                s.append(u64_text(HEALTH_TIMEOUT_SECS).as_str());
                s.append("s");
                Some(Err(LocalError::Runtime(s)))
            } else {
                None
            }
        },
    }
}

/// Whether an unpacked file belongs to the runtime: the server itself, and the
/// libraries and shaders beside it.
pub open spec fn keeps(name: Seq<char>) -> bool {
    ||| stem_and_extension(name) matches Some(parts) && (parts.1 == "dylib"@ || parts.1
        == "metal"@)
    ||| name == "llama-server"@
}

/// Whether an unpacked file belongs to the runtime.
pub fn keep_runtime_file(name: &str) -> (r: bool)
    ensures
        r == keeps(name@),
{
    let by_extension = match split_extension(name) {
        Some((_, extension)) => str_eq(extension.as_str(), "dylib") || str_eq(
            extension.as_str(),
            "metal",
        ),
        None => false,
    };
    by_extension || str_eq(name, "llama-server")
}

/// Something found in a directory during a search.
#[derive(Debug)]
pub struct Found {
    pub path: String,
    pub name: String,
    pub is_dir: bool,
}

/// [`Found`] as a mathematical value.
pub struct FoundView {
    pub path: Seq<char>,
    pub name: Seq<char>,
    pub is_dir: bool,
}

impl View for Found {
    type V = FoundView;

    open spec fn view(&self) -> FoundView {
        FoundView { path: self.path@, name: self.name@, is_dir: self.is_dir }
    }
}

/// A depth-first search for a file: the directories still to look into.
pub struct FileSearch {
    name: String,
    stack: Vec<String>,
}

/// The first file with the name among the items, and the directories before it.
pub open spec fn search_items(
    stack: Seq<Seq<char>>,
    name: Seq<char>,
    items: Seq<FoundView>,
    from: int,
) -> (Seq<Seq<char>>, Option<Seq<char>>)
    decreases items.len() - from,
{
    if from >= items.len() {
        (stack, None)
    } else if items[from].is_dir {
        search_items(stack.push(items[from].path), name, items, from + 1)
    } else if items[from].name == name {
        (stack, Some(items[from].path))
    } else {
        search_items(stack, name, items, from + 1)
    }
}

impl FileSearch {
    /// The name searched for.
    pub closed spec fn wanted(&self) -> Seq<char> {
        self.name@
    }

    /// The directories still to look into; the last comes first.
    pub closed spec fn pending(&self) -> Seq<Seq<char>> {
        views(self.stack@)
    }

    /// A search for a file under a directory.
    pub fn new(root: &str, name: &str) -> (r: FileSearch)
        ensures
            r.wanted() == name@,
            r.pending() == seq![root@],
    {
        let stack = vec![root.to_owned()];
        assert(views(stack@) =~= seq![root@]);
        FileSearch { name: name.to_owned(), stack }
    }

    /// The next directory to look into; none where the search is over.
    pub fn next_dir(&mut self) -> (r: Option<String>)
        ensures
            final(self).wanted() == old(self).wanted(),
            match r {
                Some(dir) => old(self).pending().len() > 0 && dir@ == old(self).pending().last()
                    && final(self).pending() == old(self).pending().drop_last(),
                None => old(self).pending().len() == 0 && final(self).pending() == old(
                    self,
                ).pending(),
            },
    {
        let r = self.stack.pop();
        assert(r is Some ==> views(self.stack@) =~= old(self).pending().drop_last());
        r
    }

    /// Looks at what stands in a directory: the path of the file, if it is there.
    pub fn visit(&mut self, items: &Vec<Found>) -> (r: Option<String>)
        ensures
            final(self).wanted() == old(self).wanted(),
            (final(self).pending(), opt(r)) == search_items(
                old(self).pending(),
                old(self).wanted(),
                views(items@),
                0,
            ),
    {
        let mut i: usize = 0;
        while i < items.len()
            invariant
                i <= items.len(),
                self.wanted() == old(self).wanted(),
                search_items(old(self).pending(), old(self).wanted(), views(items@), 0)
                    == search_items(self.pending(), self.wanted(), views(items@), i as int),
            decreases items.len() - i,
        {
            if items[i].is_dir {
                let ghost before = self.stack@;
                let path = items[i].path.clone();
                let ghost pv = path;
                self.stack.push(path);
                proof {
                    crate::model::lemma_views_push(before, pv);
                }
            } else if items[i].name == self.name {
                return Some(items[i].path.clone());
            }
            i += 1;
        }
        None
    }
}

/// A search of a directory finds the first file of the name, and else puts off all its
/// directories, in order, behind those that wait already.
pub proof fn law_search_finds_the_file(
    stack: Seq<Seq<char>>,
    name: Seq<char>,
    items: Seq<FoundView>,
    k: int,
)
    ensures
        0 <= k < items.len() && !items[k].is_dir && items[k].name == name && (forall|i: int|
            0 <= i < k ==> (#[trigger] items[i]).is_dir || items[i].name != name) ==> search_items(
            stack,
            name,
            items,
            0,
        ).1 == Some(items[k].path),
        (forall|i: int|
            0 <= i < items.len() ==> (#[trigger] items[i]).is_dir || items[i].name != name) ==> {
            let dirs = items.filter(|f: FoundView| f.is_dir);
            &&& search_items(stack, name, items, 0).1 is None
            &&& search_items(stack, name, items, 0).0 == stack + Seq::new(
                dirs.len(),
                |i: int| dirs[i].path,
            )
        },
{
    let dir = |f: FoundView| f.is_dir;
    reveal(Seq::filter);
    assert(items.take(0).filter(dir) =~= Seq::empty());
    assert(stack + Seq::new(0, |i: int| items.take(0).filter(dir)[i].path) =~= stack);
    lemma_search(stack, stack, name, items, 0, k);
    assert(items.take(items.len() as int) =~= items);
}

proof fn lemma_search(
    start: Seq<Seq<char>>,
    stack: Seq<Seq<char>>,
    name: Seq<char>,
    items: Seq<FoundView>,
    from: int,
    k: int,
)
    requires
        0 <= from <= items.len(),
        ({
            let dirs = items.take(from).filter(|f: FoundView| f.is_dir);
            stack == start + Seq::new(dirs.len(), |i: int| dirs[i].path)
        }),
    ensures
        from <= k < items.len() && !items[k].is_dir && items[k].name == name && (forall|i: int|
            from <= i < k ==> (#[trigger] items[i]).is_dir || items[i].name != name)
            ==> search_items(stack, name, items, from).1 == Some(items[k].path),
        (forall|i: int|
            from <= i < items.len() ==> (#[trigger] items[i]).is_dir || items[i].name != name) ==> {
            let dirs = items.take(items.len() as int).filter(|f: FoundView| f.is_dir);
            &&& search_items(stack, name, items, from).1 is None
            &&& search_items(stack, name, items, from).0 == start + Seq::new(
                dirs.len(),
                |i: int| dirs[i].path,
            )
        },
    decreases items.len() - from,
{
    let dir = |f: FoundView| f.is_dir;
    if from < items.len() {
        reveal(Seq::filter);
        let before = items.take(from).filter(dir);
        let next = items.take(from + 1);
        assert(next.drop_last() =~= items.take(from));
        assert(next.last() == items[from]);
        if items[from].is_dir {
            assert(next.filter(dir) == before.push(items[from]));
            let longer = stack.push(items[from].path);
            assert(longer =~= start + Seq::new(
                next.filter(dir).len(),
                |i: int| next.filter(dir)[i].path,
            ));
            lemma_search(start, longer, name, items, from + 1, k);
        } else {
            assert(next.filter(dir) == before);
            if items[from].name != name {
                lemma_search(start, stack, name, items, from + 1, k);
            }
        }
    }
}

/// The server's window is the one that is asked for, and never below the least one.
pub proof fn law_server_context_has_a_floor(ctx_size: u32)
    ensures
        server_context(ctx_size) >= MIN_CONTEXT_SIZE,
        server_context(ctx_size) >= ctx_size,
        ctx_size >= MIN_CONTEXT_SIZE ==> server_context(ctx_size) == ctx_size,
{
}

/// Every library and every shader belongs to the runtime, whatever its name.
pub proof fn law_libraries_and_shaders_are_kept(stem: Seq<char>)
    requires
        stem.len() > 0,
    ensures
        keeps(stem + ".dylib"@),
        keeps(stem + ".metal"@),
        keeps("llama-server"@),
{
    reveal_strlit(".dylib");
    reveal_strlit("dylib");
    reveal_strlit(".metal");
    reveal_strlit("metal");
    reveal_strlit("..");
    reveal_with_fuel(crate::paths::last_dot, 7);
    let a = stem + ".dylib"@;
    let n = a.len() as int;
    assert(a[n - 1] == 'b' && a[n - 2] == 'i' && a[n - 3] == 'l' && a[n - 4] == 'y' && a[n - 5]
        == 'd' && a[n - 6] == '.');
    assert(crate::paths::last_dot(a, n) == Some(n - 6));
    assert(".."@.len() == 2);
    assert(a.skip(n - 5) =~= "dylib"@);
    let b = stem + ".metal"@;
    assert(b[n - 1] == 'l' && b[n - 2] == 'a' && b[n - 3] == 't' && b[n - 4] == 'e' && b[n - 5]
        == 'm' && b[n - 6] == '.');
    assert(crate::paths::last_dot(b, n) == Some(n - 6));
    assert(b.skip(n - 5) =~= "metal"@);
}

/// The model that a server serves is named after its file, without the extension.
pub proof fn law_server_is_named_after_its_file(id: Seq<char>)
    requires
        id.len() > 0,
    ensures
        file_stem(id + ".gguf"@) == id,
        !id.contains('.') ==> file_stem(id) == id,
{
    reveal_strlit(".gguf");
    reveal_strlit("..");
    let name = id + ".gguf"@;
    let n = name.len() as int;
    assert(name[n - 1] == 'f' && name[n - 2] == 'u' && name[n - 3] == 'g' && name[n - 4] == 'g'
        && name[n - 5] == '.');
    reveal_with_fuel(crate::paths::last_dot, 6);
    assert(crate::paths::last_dot(name, n) == Some(n - 5));
    assert(".."@.len() == 2);
    assert(name.take(n - 5) =~= id);
    if !id.contains('.') {
        lemma_no_dot(id, id.len() as int);
    }
}

proof fn lemma_no_dot(s: Seq<char>, n: int)
    requires
        0 <= n <= s.len(),
        !s.contains('.'),
    ensures
        crate::paths::last_dot(s, n) is None,
    decreases n,
{
    if n > 0 {
        assert(s[n - 1] != '.') by {
            assert(s.contains(s[n - 1]));
        }
        lemma_no_dot(s, n - 1);
    }
}

} // verus!
