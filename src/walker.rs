//! Breadth-first traversal of one scan root, with the policy that prunes
//! directories not worth visiting. The walker decides; its caller lists
//! directories, reads metadata and sends records on.
use vstd::prelude::*;
use vstd::string::StringExecFns;

use std::collections::VecDeque;

use crate::record::FileMetadata;
use crate::text::{chars_of, contains, eq_ascii_case, eq_ignore_ascii_case, opt_view, seq_contains};

verus! {

/// Names of directories that are never entered: system internals, caches,
/// dependency and build trees, version-control metadata, disk images.
pub open spec fn skip_list() -> Seq<Seq<char>> {
    seq![
        "Windows"@, "Program Files"@, "Program Files (x86)"@, "$Recycle.Bin"@,
        "System Volume Information"@, "Recovery"@, "Config.Msi"@, "swapfile"@,
        "AppData"@, "Application Data"@, "Local Settings"@, "Library"@, "/."@, "/dev"@, "/proc"@, "/sys"@,
        "node_modules"@, "target"@, "vendor"@, "venv"@, ".git"@, ".hg"@, ".svn"@,
        "__pycache__"@, ".pyc"@, ".pyo"@, ".class"@, ".jar"@, ".gradle"@, ".m2"@,
        ".cache"@, "cache"@, "Cache"@, "Temp"@, "tmp"@, "Downloads"@,
        ".vscode"@, ".vscode-server"@, ".idea"@, "Pods"@, ".npm"@, ".cargo"@, ".rustup"@,
        ".vdi"@, ".vmdk"@, ".pvm"@,
    ]
}

fn skip_entries() -> (r: Vec<&'static str>)
    ensures
        r@.map_values(|s: &str| s@) == skip_list(),
{
    let r = vec![
        "Windows", "Program Files", "Program Files (x86)", "$Recycle.Bin",
        "System Volume Information", "Recovery", "Config.Msi", "swapfile",
        "AppData", "Application Data", "Local Settings", "Library", "/.", "/dev", "/proc", "/sys",
        "node_modules", "target", "vendor", "venv", ".git", ".hg", ".svn",
        "__pycache__", ".pyc", ".pyo", ".class", ".jar", ".gradle", ".m2",
        ".cache", "cache", "Cache", "Temp", "tmp", "Downloads",
        ".vscode", ".vscode-server", ".idea", "Pods", ".npm", ".cargo", ".rustup",
        ".vdi", ".vmdk", ".pvm",
    ];
    assert(r@.map_values(|s: &str| s@) =~= skip_list());
    r
}

/// The name contains a skip-list entry, or equals one up to ASCII case.
pub open spec fn in_skip_list(name: Seq<char>) -> bool {
    exists|i: int|
        0 <= i < skip_list().len() && (seq_contains(name, #[trigger] skip_list()[i]) || eq_ascii_case(
            name,
            skip_list()[i],
        ))
}

/// Whether a directory name is on the skip list.
pub fn is_skipped_name(name: &str) -> (r: bool)
    ensures
        r == in_skip_list(name@),
{
    let list = skip_entries();
    let mut i: usize = 0;
    while i < list.len()
        invariant
            list@.map_values(|s: &str| s@) == skip_list(),
            i <= list@.len(),
            forall|k: int|
                0 <= k < i ==> !(seq_contains(name@, #[trigger] skip_list()[k]) || eq_ascii_case(
                    name@,
                    skip_list()[k],
                )),
        decreases list@.len() - i,
    {
        let entry = list[i];
        assert(skip_list()[i as int] == entry@);
        if contains(name, entry) || eq_ignore_ascii_case(name, entry) {
            return true;
        }
        i += 1;
    }
    false
}

/// The separator a platform writes between path components.
#[derive(Debug, Clone, Copy, PartialEq, Eq, Structural)]
pub enum PathStyle {
    Slash,
    Backslash,
}

/// The separator character of a path style.
pub open spec fn sep_of(style: PathStyle) -> char {
    match style {
        PathStyle::Slash => '/',
        PathStyle::Backslash => '\\',
    }
}

/// The characters of `p` after its last separator.
pub open spec fn final_component(p: Seq<char>, sep: char) -> Seq<char>
    decreases p.len(),
{
    if p.len() == 0 || p.last() == sep {
        Seq::empty()
    } else {
        final_component(p.drop_last(), sep).push(p.last())
    }
}

/// `name` joined under `dir`, with one separator between them.
pub open spec fn joined(dir: Seq<char>, name: Seq<char>, sep: char) -> Seq<char> {
    if dir.len() == 0 || dir.last() == sep {
        dir + name
    } else {
        dir + seq![sep] + name
    }
}

/// A name that can stand as one path component.
pub open spec fn is_component(name: Seq<char>, sep: char) -> bool {
    name.len() > 0 && !name.contains(sep)
}

/// Hidden by the leading-dot convention.
pub open spec fn dot_hidden(name: Seq<char>) -> bool {
    name.len() > 0 && name[0] == '.'
}

/// A directory of this name is pruned whatever its attributes.
pub open spec fn name_pruned(name: Seq<char>) -> bool {
    dot_hidden(name) || in_skip_list(name)
}

proof fn lemma_final_component_append(dir: Seq<char>, name: Seq<char>, sep: char)
    requires
        dir.len() == 0 || dir.last() == sep,
        !name.contains(sep),
    ensures
        final_component(dir + name, sep) == name,
    decreases name.len(),
{
    if name.len() == 0 {
        assert(dir + name =~= dir);
    } else {
        assert((dir + name).drop_last() =~= dir + name.drop_last());
        assert(name[name.len() - 1] == name.last());
        lemma_final_component_append(dir, name.drop_last(), sep);
        assert(name.drop_last().push(name.last()) =~= name);
    }
}

/// A record's name is the final component of its path: joining a component
/// under any directory and taking the final component gives the component back.
pub proof fn lemma_name_is_final_component(dir: Seq<char>, name: Seq<char>, sep: char)
    requires
        is_component(name, sep),
    ensures
        final_component(joined(dir, name, sep), sep) == name,
{
    if dir.len() == 0 || dir.last() == sep {
        lemma_final_component_append(dir, name, sep);
    } else {
        assert(dir + seq![sep] + name =~= (dir + seq![sep]) + name);
        lemma_final_component_append(dir + seq![sep], name, sep);
    }
}

fn separator_str(style: PathStyle) -> (r: &'static str)
    ensures
        r@ == seq![sep_of(style)],
{
    match style {
        PathStyle::Slash => {
            proof {
                reveal_strlit("/");
            }
            "/"
        },
        PathStyle::Backslash => {
            proof {
                reveal_strlit("\\");
            }
            "\\"
        },
    }
}

/// `name` joined under `dir`.
pub fn join_path(dir: &str, name: &str, style: PathStyle) -> (r: String)
    ensures
        r@ == joined(dir@, name@, sep_of(style)),
{
    let d = chars_of(dir);
    let sep = separator_str(style);
    let mut r = String::from_str(dir);
    if d.len() > 0 && d[d.len() - 1] != sep_of_exec(style) {
        r.append(sep);
    }
    r.append(name);
    r
}

fn sep_of_exec(style: PathStyle) -> (c: char)
    ensures
        c == sep_of(style),
{
    match style {
        PathStyle::Slash => '/',
        PathStyle::Backslash => '\\',
    }
}

/// Whether `name` is non-empty and free of the separator.
pub fn is_component_name(name: &str, style: PathStyle) -> (r: bool)
    ensures
        r == is_component(name@, sep_of(style)),
{
    let cs = chars_of(name);
    let sep = sep_of_exec(style);
    if cs.len() == 0 {
        return false;
    }
    let mut i: usize = 0;
    while i < cs.len()
        invariant
            cs@ == name@,
            sep == sep_of(style),
            forall|k: int| 0 <= k < i ==> cs@[k] != sep,
        decreases cs@.len() - i,
    {
        if cs[i] == sep {
            assert(name@[i as int] == sep);
            return false;
        }
        i += 1;
    }
    true
}

/// Whether a directory of this name is pruned: hidden by a leading dot, or on
/// the skip list.
pub fn is_pruned_name(name: &str) -> (r: bool)
    ensures
        r == name_pruned(name@),
{
    let cs = chars_of(name);
    (cs.len() > 0 && cs[0] == '.') || is_skipped_name(name)
}

/// What the caller learned of one directory entry.
#[derive(Debug, Clone, Copy)]
pub enum EntryKind {
    /// A regular file; `modified_time` (seconds since the Unix epoch) is
    /// `None` where the platform gives no modification time.
    File { size: u64, modified_time: Option<i64> },
    /// A directory; `hidden_attribute` is the platform's own hidden flag.
    Directory { hidden_attribute: bool },
    /// Anything else.
    Other,
    /// Its metadata could not be read.
    Unreadable,
}

/// Why a directory could not be listed.
#[derive(Debug, Clone, Copy, PartialEq, Eq, Structural)]
pub enum ListingError {
    PermissionDenied,
    NotFound,
    Other,
}

impl ListingError {
    /// Inaccessible and vanished directories are skipped quietly; any other
    /// failure deserves a warning. Either way the walk goes on.
    pub fn should_warn(&self) -> (r: bool)
        ensures
            r == (*self == ListingError::Other),
    {
        match self {
            ListingError::Other => true,
            _ => false,
        }
    }
}

/// Why a walk stopped before its queue ran dry.
#[derive(Debug, Clone, Copy, PartialEq, Eq, Structural)]
pub enum WalkError {
    /// The records' receiver is gone.
    ChannelClosed,
}

impl WalkError {
    /// The text reported for the failure.
    pub fn message(&self) -> (r: String)
        ensures
            r@ == "Channel closed"@,
    {
        String::from_str("Channel closed")
    }
}

/// The state of a walk, as plain values.
pub struct WalkerView {
    pub root: Seq<char>,
    pub style: PathStyle,
    /// Directories waiting to be listed, oldest first.
    pub pending: Seq<Seq<char>>,
    /// For each waiting directory, the components that lead to it from the root.
    pub routes: Seq<Seq<Seq<char>>>,
    /// The directory being listed.
    pub current: Option<Seq<char>>,
    /// The components that lead from the root to the directory being listed.
    pub current_route: Seq<Seq<char>>,
    pub files_found: nat,
}

/// The path reached from `root` through `route`, one component at a time.
pub open spec fn join_all(root: Seq<char>, route: Seq<Seq<char>>, sep: char) -> Seq<char>
    decreases route.len(),
{
    if route.len() == 0 {
        root
    } else {
        joined(join_all(root, route.drop_last(), sep), route.last(), sep)
    }
}

/// Every step of the route is a component whose name is not pruned.
pub open spec fn route_clean(route: Seq<Seq<char>>, sep: char) -> bool {
    forall|j: int| 0 <= j < route.len() ==> is_component(#[trigger] route[j], sep) && !name_pruned(route[j])
}

impl WalkerView {
    /// Every directory waiting or being listed is reached from the root
    /// through unpruned components.
    pub open spec fn wf(self) -> bool {
        &&& self.routes.len() == self.pending.len()
        &&& forall|i: int|
            0 <= i < self.pending.len() ==> #[trigger] self.pending[i] == join_all(
                self.root,
                self.routes[i],
                sep_of(self.style),
            ) && route_clean(self.routes[i], sep_of(self.style))
        &&& self.current is Some ==> self.current->0 == join_all(
            self.root,
            self.current_route,
            sep_of(self.style),
        ) && route_clean(self.current_route, sep_of(self.style))
        &&& self.files_found <= usize::MAX
    }

    /// The entry is a file with a modification time, listed in a directory.
    pub open spec fn emits(self, name: Seq<char>, kind: EntryKind) -> bool {
        &&& self.current is Some
        &&& is_component(name, sep_of(self.style))
        &&& kind matches EntryKind::File { modified_time: Some(_), .. }
    }

    /// The entry is a directory that is neither hidden nor pruned by name.
    pub open spec fn descends(self, name: Seq<char>, kind: EntryKind) -> bool {
        &&& self.current is Some
        &&& is_component(name, sep_of(self.style))
        &&& kind matches EntryKind::Directory { hidden_attribute: false }
        &&& !name_pruned(name)
    }

    /// Path of an entry of the directory being listed.
    pub open spec fn entry_path(self, name: Seq<char>) -> Seq<char> {
        joined(self.current->0, name, sep_of(self.style))
    }
}

/// A directory entry that carries the hidden attribute, or whose name is
/// hidden or on the skip list, is never queued. Nothing under a pruned name is
/// ever reached: no step from the root to a directory that waits or is being
/// listed bears that name. File records come only from the directory being
/// listed, so a pruned directory and its whole subtree contribute none.
pub proof fn lemma_pruned_directory_never_entered(v: WalkerView, name: Seq<char>, hidden_attribute: bool)
    requires
        v.wf(),
        hidden_attribute || name_pruned(name),
    ensures
        !v.descends(name, EntryKind::Directory { hidden_attribute }),
        name_pruned(name) ==> forall|i: int, j: int|
            0 <= i < v.routes.len() && 0 <= j < v.routes[i].len() ==> #[trigger] v.routes[i][j] != name,
        name_pruned(name) && v.current is Some ==> forall|j: int|
            0 <= j < v.current_route.len() ==> #[trigger] v.current_route[j] != name,
{
    assert forall|i: int, j: int|
        0 <= i < v.routes.len() && 0 <= j < v.routes[i].len() implies !name_pruned(
        #[trigger] v.routes[i][j],
    ) by {
        assert(v.pending[i] == join_all(v.root, v.routes[i], sep_of(v.style)));
        assert(route_clean(v.routes[i], sep_of(v.style)));
    }
}

/// A breadth-first walk of one scan root.
pub struct TreeWalker {
    root: String,
    style: PathStyle,
    pending: VecDeque<String>,
    routes: Ghost<Seq<Seq<Seq<char>>>>,
    current: Option<String>,
    current_route: Ghost<Seq<Seq<char>>>,
    files_found: usize,
}

impl View for TreeWalker {
    type V = WalkerView;

    closed spec fn view(&self) -> WalkerView {
        WalkerView {
            root: self.root@,
            style: self.style,
            pending: self.pending@.map_values(|s: String| s@),
            routes: self.routes@,
            current: opt_view(self.current),
            current_route: self.current_route@,
            files_found: self.files_found as nat,
        }
    }
}

impl TreeWalker {
    /// A walk whose queue holds the root alone.
    pub fn new(root: String, style: PathStyle) -> (r: TreeWalker)
        ensures
            r@.wf(),
            r@ == (WalkerView {
                root: root@,
                style,
                pending: seq![root@],
                routes: seq![Seq::empty()],
                current: None,
                current_route: Seq::empty(),
                files_found: 0,
            }),
    {
        let mut pending: VecDeque<String> = VecDeque::new();
        pending.push_back(root.clone());
        let ghost first_routes: Seq<Seq<Seq<char>>> = seq![Seq::empty()];
        let r = TreeWalker {
            root,
            style,
            pending,
            routes: Ghost(first_routes),
            current: None,
            current_route: Ghost(Seq::empty()),
            files_found: 0,
        };
        assert(r@.pending =~= seq![r@.root]);
        r
    }

    /// Files emitted so far.
    pub fn files_found(&self) -> (r: usize)
        ensures
            r == self@.files_found,
    {
        self.files_found
    }

    /// Takes the oldest queued directory as the one being listed; `None` when
    /// the walk is over.
    pub fn next_directory(&mut self) -> (r: Option<String>)
        requires
            old(self)@.wf(),
        ensures
            final(self)@.wf(),
            opt_view(r) == final(self)@.current,
            old(self)@.pending.len() == 0 ==> r is None && final(self)@ == (WalkerView {
                current: None,
                ..old(self)@
            }),
            old(self)@.pending.len() > 0 ==> r is Some && final(self)@ == (WalkerView {
                pending: old(self)@.pending.drop_first(),
                routes: old(self)@.routes.drop_first(),
                current: Some(old(self)@.pending[0]),
                current_route: old(self)@.routes[0],
                ..old(self)@
            }),
    {
        let ghost v = self@;
        let next = self.pending.pop_front();
        match next {
            Some(d) => {
                self.current = Some(d.clone());
                self.current_route = Ghost(v.routes[0]);
                self.routes = Ghost(v.routes.drop_first());
                assert(self@.pending =~= v.pending.drop_first());
                assert(v.pending[0] == join_all(v.root, v.routes[0], sep_of(v.style)));
                assert forall|i: int| 0 <= i < self@.pending.len() implies #[trigger] self@.pending[i]
                    == join_all(self@.root, self@.routes[i], sep_of(self@.style)) && route_clean(
                    self@.routes[i],
                    sep_of(self@.style),
                ) by {
                    assert(v.pending[i + 1] == join_all(v.root, v.routes[i + 1], sep_of(v.style)));
                }
                Some(d)
            },
            None => {
                self.current = None;
                assert(self@.pending =~= v.pending);
                None
            },
        }
    }

    /// Decides what becomes of one entry of the directory being listed: a
    /// file yields its record, a directory that is neither hidden nor pruned
    /// joins the queue, anything else is dropped.
    pub fn handle_entry(&mut self, name: &str, kind: EntryKind) -> (r: Option<FileMetadata>)
        requires
            old(self)@.wf(),
        ensures
            final(self)@.wf(),
            old(self)@.emits(name@, kind) ==> final(self)@ == old(self)@ && r is Some && ({
                let rec = r->0;
                &&& rec.path@ == old(self)@.entry_path(name@)
                &&& rec.name@ == name@
                &&& rec.name@ == final_component(rec.path@, sep_of(old(self)@.style))
                &&& rec.path@ == joined(
                    join_all(old(self)@.root, old(self)@.current_route, sep_of(old(self)@.style)),
                    name@,
                    sep_of(old(self)@.style),
                )
                &&& route_clean(old(self)@.current_route, sep_of(old(self)@.style))
                &&& kind matches EntryKind::File { size, modified_time: Some(t) } && rec.size
                    == size && rec.modified_time == t
            }),
            old(self)@.descends(name@, kind) ==> r is None && final(self)@ == (WalkerView {
                pending: old(self)@.pending.push(old(self)@.entry_path(name@)),
                routes: old(self)@.routes.push(old(self)@.current_route.push(name@)),
                ..old(self)@
            }),
            !old(self)@.emits(name@, kind) && !old(self)@.descends(name@, kind) ==> r is None
                && final(self)@ == old(self)@,
    {
        let ghost v = self@;
        let cur = match &self.current {
            Some(c) => c,
            None => {
                return None;
            },
        };
        if !is_component_name(name, self.style) {
            return None;
        }
        match kind {
            EntryKind::File { size, modified_time: Some(t) } => {
                let path = join_path(cur.as_str(), name, self.style);
                proof {
                    lemma_name_is_final_component(v.current->0, name@, sep_of(v.style));
                }
                Some(FileMetadata { path, name: String::from_str(name), size, modified_time: t })
            },
            EntryKind::Directory { hidden_attribute } => {
                if hidden_attribute || is_pruned_name(name) {
                    return None;
                }
                let path = join_path(cur.as_str(), name, self.style);
                proof {
                    lemma_name_is_final_component(v.current->0, name@, sep_of(v.style));
                }
                self.pending.push_back(path);
                let ghost route = v.current_route.push(name@);
                self.routes = Ghost(v.routes.push(route));
                assert(self@.pending =~= v.pending.push(v.entry_path(name@)));
                assert(route.drop_last() =~= v.current_route);
                assert(v.entry_path(name@) == join_all(v.root, route, sep_of(v.style)));
                assert forall|i: int| 0 <= i < self@.pending.len() implies #[trigger] self@.pending[i]
                    == join_all(self@.root, self@.routes[i], sep_of(self@.style)) && route_clean(
                    self@.routes[i],
                    sep_of(self@.style),
                ) by {
                    if i < v.pending.len() {
                        assert(v.pending[i] == join_all(v.root, v.routes[i], sep_of(v.style)));
                    } else {
                        assert forall|j: int| 0 <= j < route.len() implies is_component(
                            #[trigger] route[j],
                            sep_of(v.style),
                        ) && !name_pruned(route[j]) by {
                            if j < v.current_route.len() {
                                assert(route[j] == v.current_route[j]);
                            }
                        }
                    }
                }
                None
            },
            _ => None,
        }
    }

    /// Records the outcome of sending an emitted record on: a send that
    /// failed ends the walk with `ChannelClosed`; one that went through is
    /// counted.
    pub fn record_sent(&mut self, delivered: bool) -> (r: Result<(), WalkError>)
        requires
            old(self)@.wf(),
        ensures
            final(self)@.wf(),
            delivered ==> r is Ok && final(self)@ == (WalkerView {
                files_found: if old(self)@.files_found < usize::MAX {
                    old(self)@.files_found + 1
                } else {
                    old(self)@.files_found
                },
                ..old(self)@
            }),
            !delivered ==> r == Err::<(), WalkError>(WalkError::ChannelClosed) && final(self)@
                == old(self)@,
    {
        if !delivered {
            return Err(WalkError::ChannelClosed);
        }
        if self.files_found < usize::MAX {
            self.files_found = self.files_found + 1;
        }
        Ok(())
    }
}

} // verus!
