//! Structures that are usually built from shared pointers, held here as
//! owned state: a file tree with parent links, an event bus, a cache that
//! evicts the least recently used entry, a connection pool, a managed
//! configuration and a collector of results. Where several threads use one
//! of them, the caller keeps it behind a lock.

use vstd::prelude::*;
use crate::text::{decimal, push_decimal, string_push_str};

verus! {

/// The place of a node in its tree.
pub type NodeId = usize;

/// A file or a directory of a tree. `children` and `parent` name other
/// nodes of the same tree.
#[derive(Debug)]
pub struct FsNode {
    pub name: String,
    pub is_dir: bool,
    pub children: Vec<NodeId>,
    pub parent: Option<NodeId>,
}

/// The text of the path that leads to the node `id`, found by walking up
/// at most `fuel` parent links.
pub open spec fn path_from(nodes: Seq<FsNode>, id: int, fuel: nat) -> Seq<char>
    decreases fuel,
{
    if fuel > 0 && nodes[id].parent is Some {
        path_from(nodes, nodes[id].parent->0 as int, (fuel - 1) as nat) + "/"@ + nodes[id].name@
    } else {
        "/"@ + nodes[id].name@
    }
}

/// `after` is `before` but for its children.
pub open spec fn node_with_children(before: FsNode, after: FsNode, children: Seq<NodeId>) -> bool {
    &&& after.name == before.name
    &&& after.is_dir == before.is_dir
    &&& after.parent == before.parent
    &&& after.children@ == children
}

/// `after` is `before` but for its parent.
pub open spec fn node_with_parent(before: FsNode, after: FsNode, parent: Option<NodeId>) -> bool {
    &&& after.name == before.name
    &&& after.is_dir == before.is_dir
    &&& after.children == before.children
    &&& after.parent == parent
}

/// The nodes of a file tree. A node is known by its place, which never
/// changes; nodes are added and linked, never removed.
pub struct FsTree {
    nodes: Vec<FsNode>,
}

impl FsTree {
    /// The nodes in the order of creation.
    pub closed spec fn nodes(&self) -> Seq<FsNode> {
        self.nodes@
    }

    /// Every link names a node of this tree.
    pub open spec fn wf(&self) -> bool {
        forall|i: int|
            0 <= i < self.nodes().len() ==> {
                &&& (#[trigger] self.nodes()[i]).parent matches Some(p) ==> p < self.nodes().len()
                &&& forall|k: int|
                    0 <= k < self.nodes()[i].children@.len() ==> #[trigger] self.nodes()[i].children@[k]
                        < self.nodes().len()
            }
    }

    /// A tree without nodes.
    pub fn new() -> (r: Self)
        ensures
            r.wf(),
            r.nodes().len() == 0,
    {
        FsTree { nodes: Vec::new() }
    }

    /// The number of nodes.
    pub fn len(&self) -> (r: usize)
        ensures
            r == self.nodes().len(),
    {
        self.nodes.len()
    }

    /// The node at `id`.
    pub fn node(&self, id: NodeId) -> (r: &FsNode)
        requires
            id < self.nodes().len(),
        ensures
            *r == self.nodes()[id as int],
    {
        &self.nodes[id]
    }

    fn add_node(&mut self, name: &str, is_dir: bool) -> (r: NodeId)
        requires
            old(self).wf(),
        ensures
            final(self).wf(),
            r == old(self).nodes().len(),
            final(self).nodes().len() == r + 1,
            forall|i: int| 0 <= i < r ==> final(self).nodes()[i] == old(self).nodes()[i],
            final(self).nodes()[r as int].name@ == name@,
            final(self).nodes()[r as int].is_dir == is_dir,
            final(self).nodes()[r as int].children@.len() == 0,
            final(self).nodes()[r as int].parent is None,
    {
        let id = self.nodes.len();
        self.nodes.push(
            FsNode { name: name.to_owned(), is_dir, children: Vec::new(), parent: None },
        );
        id
    }

    fn path_up(&self, id: NodeId, fuel: usize) -> (r: String)
        requires
            self.wf(),
            id < self.nodes().len(),
        ensures
            r@ == path_from(self.nodes(), id as int, fuel as nat),
        decreases fuel,
    {
        let node = &self.nodes[id];
        let mut out = match node.parent {
            Some(p) => {
                if fuel > 0 {
                    self.path_up(p, fuel - 1)
                } else {
                    String::new()
                }
            },
            None => String::new(),
        };
        string_push_str(&mut out, "/");
        string_push_str(&mut out, node.name.as_str());
        assert(out@ =~= path_from(self.nodes(), id as int, fuel as nat));
        out
    }
}

impl Default for FsTree {
    fn default() -> (r: Self)
        ensures
            r.wf(),
            r.nodes().len() == 0,
    {
        FsTree::new()
    }
}

impl FsNode {
    /// Adds a file without parent or children to `tree` and returns its
    /// place.
    pub fn new_file(tree: &mut FsTree, name: &str) -> (r: NodeId)
        requires
            old(tree).wf(),
        ensures
            final(tree).wf(),
            r == old(tree).nodes().len(),
            final(tree).nodes().len() == r + 1,
            forall|i: int| 0 <= i < r ==> final(tree).nodes()[i] == old(tree).nodes()[i],
            final(tree).nodes()[r as int].name@ == name@,
            !final(tree).nodes()[r as int].is_dir,
            final(tree).nodes()[r as int].children@.len() == 0,
            final(tree).nodes()[r as int].parent is None,
    {
        tree.add_node(name, false)
    }

    /// Adds a directory without parent or children to `tree` and returns
    /// its place.
    pub fn new_dir(tree: &mut FsTree, name: &str) -> (r: NodeId)
        requires
            old(tree).wf(),
        ensures
            final(tree).wf(),
            r == old(tree).nodes().len(),
            final(tree).nodes().len() == r + 1,
            forall|i: int| 0 <= i < r ==> final(tree).nodes()[i] == old(tree).nodes()[i],
            final(tree).nodes()[r as int].name@ == name@,
            final(tree).nodes()[r as int].is_dir,
            final(tree).nodes()[r as int].children@.len() == 0,
            final(tree).nodes()[r as int].parent is None,
    {
        tree.add_node(name, true)
    }

    /// Puts `child` at the end of the children of `parent` and makes
    /// `parent` the parent of `child`, whatever parent it had.
    pub fn add_child(tree: &mut FsTree, parent: NodeId, child: NodeId)
        requires
            old(tree).wf(),
            parent < old(tree).nodes().len(),
            child < old(tree).nodes().len(),
        ensures
            final(tree).wf(),
            final(tree).nodes().len() == old(tree).nodes().len(),
            forall|i: int|
                0 <= i < old(tree).nodes().len() && i != parent && i != child
                    ==> final(tree).nodes()[i] == old(tree).nodes()[i],
            final(tree).nodes()[parent as int].children@
                == old(tree).nodes()[parent as int].children@.push(child),
            final(tree).nodes()[child as int].parent == Some(parent),
            parent != child ==> node_with_children(
                old(tree).nodes()[parent as int],
                final(tree).nodes()[parent as int],
                old(tree).nodes()[parent as int].children@.push(child),
            ),
            parent != child ==> node_with_parent(
                old(tree).nodes()[child as int],
                final(tree).nodes()[child as int],
                Some(parent),
            ),
            parent == child ==> final(tree).nodes()[child as int].name
                == old(tree).nodes()[child as int].name,
            parent == child ==> final(tree).nodes()[child as int].is_dir
                == old(tree).nodes()[child as int].is_dir,
    {
        tree.nodes[parent].children.push(child);
        tree.nodes[child].parent = Some(parent);
    }

    /// The name of the parent of the node `id`, if it has a parent.
    pub fn parent_name(tree: &FsTree, id: NodeId) -> (r: Option<String>)
        requires
            tree.wf(),
            id < tree.nodes().len(),
        ensures
            r is Some <==> tree.nodes()[id as int].parent is Some,
            r matches Some(name) ==> name@
                == tree.nodes()[tree.nodes()[id as int].parent->0 as int].name@,
    {
        match tree.nodes[id].parent {
            Some(p) => Some(tree.nodes[p].name.clone()),
            None => None,
        }
    }

    /// The path from the root to the node `id`: the names on the way, each
    /// after a `/`. The walk upward follows at most as many parent links as
    /// the tree has nodes, which is every link unless a node is its own
    /// ancestor.
    pub fn full_path(tree: &FsTree, id: NodeId) -> (r: String)
        requires
            tree.wf(),
            id < tree.nodes().len(),
        ensures
            r@ == path_from(tree.nodes(), id as int, tree.nodes().len()),
    {
        tree.path_up(id, tree.nodes.len())
    }

    /// The number of children of the node `id`.
    pub fn children_count(tree: &FsTree, id: NodeId) -> (r: usize)
        requires
            id < tree.nodes().len(),
        ensures
            r == tree.nodes()[id as int].children@.len(),
    {
        tree.nodes[id].children.len()
    }
}

/// Something that is told of events. What an event makes of a listener is
/// for each kind of listener to say, in `after_event`.
pub trait EventListener {
    /// `next` is what this listener becomes when it is told of `event`.
    spec fn after_event(&self, event: Seq<char>, next: &Self) -> bool;

    /// The name that `name` returns.
    spec fn name_text(&self) -> Seq<char>;

    fn on_event(&mut self, event: &str)
        ensures
            old(self).after_event(event@, final(self)),
    ;

    fn name(&self) -> (r: &str)
        ensures
            r@ == self.name_text(),
    ;
}

/// The line that a logger named `name` writes for `event`.
pub open spec fn log_line(name: Seq<char>, event: Seq<char>) -> Seq<char> {
    "["@ + name + "] "@ + event
}

/// A listener that writes a line for every event it is told of.
pub struct Logger {
    pub name: String,
    pub logs: Vec<String>,
}

impl Logger {
    pub fn new(name: &str) -> (r: Self)
        ensures
            r.name@ == name@,
            r.logs@.len() == 0,
    {
        Logger { name: name.to_owned(), logs: Vec::new() }
    }
}

impl EventListener for Logger {
    open spec fn after_event(&self, event: Seq<char>, next: &Self) -> bool {
        &&& next.name == self.name
        &&& next.logs@.len() == self.logs@.len() + 1
        &&& next.logs@.subrange(0, self.logs@.len() as int) == self.logs@
        &&& next.logs@.last()@ == log_line(self.name@, event)
    }

    open spec fn name_text(&self) -> Seq<char> {
        self.name@
    }

    fn on_event(&mut self, event: &str) {
        let mut line = String::new();
        string_push_str(&mut line, "[");
        string_push_str(&mut line, self.name.as_str());
        string_push_str(&mut line, "] ");
        string_push_str(&mut line, event);
        assert(line@ =~= log_line(self.name@, event@));
        self.logs.push(line);
        assert(self.logs@.subrange(0, old(self).logs@.len() as int) =~= old(self).logs@);
    }

    fn name(&self) -> (r: &str) {
        self.name.as_str()
    }
}

/// Tells every listener of every event, in the order in which the
/// listeners subscribed.
pub struct EventBus<L> {
    listeners: Vec<L>,
}

impl<L: EventListener> EventBus<L> {
    /// The listeners in the order in which they subscribed.
    pub closed spec fn listeners(&self) -> Seq<L> {
        self.listeners@
    }

    /// A bus without listeners.
    pub fn new() -> (r: Self)
        ensures
            r.listeners().len() == 0,
    {
        EventBus { listeners: Vec::new() }
    }

    /// Adds a listener after those that are there.
    pub fn subscribe(&mut self, listener: L)
        ensures
            final(self).listeners() == old(self).listeners().push(listener),
    {
        self.listeners.push(listener);
    }

    /// Tells every listener of `event`.
    pub fn publish(&mut self, event: &str)
        ensures
            final(self).listeners().len() == old(self).listeners().len(),
            forall|i: int|
                0 <= i < old(self).listeners().len() ==> (#[trigger] old(self).listeners()[i])
                    .after_event(event@, &final(self).listeners()[i]),
    {
        let n = self.listeners.len();
        let mut i: usize = 0;
        while i < n
            invariant
                i <= n,
                n == self.listeners@.len(),
                n == old(self).listeners@.len(),
                forall|j: int|
                    0 <= j < i ==> (#[trigger] old(self).listeners@[j]).after_event(
                        event@,
                        &self.listeners@[j],
                    ),
                forall|j: int| i <= j < n ==> self.listeners@[j] == old(self).listeners@[j],
            decreases n - i,
        {
            self.listeners[i].on_event(event);
            i += 1;
        }
    }

    /// The number of listeners.
    pub fn listener_count(&self) -> (r: usize)
        ensures
            r == self.listeners().len(),
    {
        self.listeners.len()
    }

    /// The listener that subscribed as number `i`, counted from zero.
    pub fn listener(&self, i: usize) -> (r: &L)
        requires
            i < self.listeners().len(),
        ensures
            *r == self.listeners()[i as int],
    {
        &self.listeners[i]
    }
}

impl<L: EventListener> Default for EventBus<L> {
    fn default() -> (r: Self)
        ensures
            r.listeners().len() == 0,
    {
        EventBus::new()
    }
}

/// The settings of an application.
#[derive(Debug)]
pub struct Config {
    pub debug_mode: bool,
    pub max_connections: usize,
    pub timeout_ms: u64,
    pub app_name: String,
}

impl Clone for Config {
    fn clone(&self) -> (r: Self)
        ensures
            r == *self,
    {
        Config {
            debug_mode: self.debug_mode,
            max_connections: self.max_connections,
            timeout_ms: self.timeout_ms,
            app_name: self.app_name.clone(),
        }
    }
}

/// `c` holds the settings that an application starts with.
pub open spec fn is_default_config(c: Config) -> bool {
    &&& !c.debug_mode
    &&& c.max_connections == 10
    &&& c.timeout_ms == 5000
    &&& c.app_name@ == "MyApp"@
}

impl Default for Config {
    fn default() -> (r: Self)
        ensures
            is_default_config(r),
    {
        Config {
            debug_mode: false,
            max_connections: 10,
            timeout_ms: 5000,
            app_name: "MyApp".to_owned(),
        }
    }
}

/// Holds the settings and hands out copies of them.
pub struct ConfigManager {
    config: Config,
}

impl ConfigManager {
    /// The settings as they stand.
    pub closed spec fn config(&self) -> Config {
        self.config
    }

    /// A manager of the settings that an application starts with.
    pub fn new() -> (r: Self)
        ensures
            is_default_config(r.config()),
    {
        ConfigManager { config: Config::default() }
    }

    /// A manager of the given settings.
    pub fn with_config(config: Config) -> (r: Self)
        ensures
            r.config() == config,
    {
        ConfigManager { config }
    }

    /// A copy of the settings.
    pub fn get_config(&self) -> (r: Config)
        ensures
            r == self.config(),
    {
        self.config.clone()
    }

    /// Whether debugging is switched on.
    pub fn is_debug(&self) -> (r: bool)
        ensures
            r == self.config().debug_mode,
    {
        self.config.debug_mode
    }

    /// Replaces the settings by what `updater` makes of them.
    pub fn update<F>(&mut self, updater: F) where F: FnOnce(Config) -> Config
        requires
            call_requires(updater, (old(self).config(),)),
        ensures
            call_ensures(updater, (old(self).config(),), final(self).config()),
    {
        let current = self.config.clone();
        self.config = updater(current);
    }
}

impl Default for ConfigManager {
    fn default() -> (r: Self)
        ensures
            is_default_config(r.config()),
    {
        ConfigManager::new()
    }
}

/// Gathers results in the order in which they come.
pub struct ResultCollector<T> {
    results: Vec<T>,
}

impl<T> ResultCollector<T> {
    /// The results gathered so far, oldest first.
    pub closed spec fn results(&self) -> Seq<T> {
        self.results@
    }

    /// A collector without results.
    pub fn new() -> (r: Self)
        ensures
            r.results().len() == 0,
    {
        ResultCollector { results: Vec::new() }
    }

    /// Adds a result after those that are there.
    pub fn add(&mut self, result: T)
        ensures
            final(self).results() == old(self).results().push(result),
    {
        self.results.push(result);
    }

    /// A copy of every result, oldest first.
    pub fn get_results(&self) -> (r: Vec<T>) where T: Clone
        ensures
            r@.len() == self.results().len(),
            forall|i: int| 0 <= i < r@.len() ==> cloned(self.results()[i], #[trigger] r@[i]),
    {
        let mut out: Vec<T> = Vec::new();
        let mut i: usize = 0;
        while i < self.results.len()
            invariant
                i <= self.results.len(),
                out@.len() == i,
                forall|j: int| 0 <= j < i ==> cloned(self.results@[j], #[trigger] out@[j]),
            decreases self.results.len() - i,
        {
            out.push(self.results[i].clone());
            i += 1;
        }
        out
    }

    /// The number of results.
    pub fn count(&self) -> (r: usize)
        ensures
            r == self.results().len(),
    {
        self.results.len()
    }
}

impl<T> Default for ResultCollector<T> {
    fn default() -> (r: Self)
        ensures
            r.results().len() == 0,
    {
        ResultCollector::new()
    }
}

/// The square of every number, in the order of the numbers.
pub fn parallel_square(numbers: Vec<i32>) -> (r: Vec<i32>)
    requires
        forall|i: int| 0 <= i < numbers@.len() ==> #[trigger] numbers@[i] * numbers@[i] <= i32::MAX,
    ensures
        r@.len() == numbers@.len(),
        forall|i: int| 0 <= i < r@.len() ==> #[trigger] r@[i] == numbers@[i] * numbers@[i],
{
    let mut out: Vec<i32> = Vec::new();
    let mut i: usize = 0;
    while i < numbers.len()
        invariant
            i <= numbers.len(),
            out@.len() == i,
            forall|j: int|
                0 <= j < numbers@.len() ==> #[trigger] numbers@[j] * numbers@[j] <= i32::MAX,
            forall|j: int| 0 <= j < i ==> #[trigger] out@[j] == numbers@[j] * numbers@[j],
        decreases numbers.len() - i,
    {
        let n = numbers[i];
        assert(numbers@[i as int] * numbers@[i as int] <= i32::MAX);
        assert(n * n >= 0) by (nonlinear_arith);
        out.push(n * n);
        i += 1;
    }
    out
}

/// What `worker` makes of every item, in the order of the items.
pub fn parallel_with_channel<T, F>(items: Vec<T>, worker: F) -> (r: Vec<String>) where
    F: Fn(T) -> String,

    requires
        forall|i: int| 0 <= i < items@.len() ==> call_requires(worker, (#[trigger] items@[i],)),
    ensures
        r@.len() == items@.len(),
        forall|i: int|
            0 <= i < items@.len() ==> call_ensures(worker, (items@[i],), #[trigger] r@[i]),
{
    let mut out: Vec<String> = Vec::new();
    let ghost all = items@;
    for x in it: items
        invariant
            out@.len() == it.index(),
            all == it.seq(),
            forall|i: int| 0 <= i < all.len() ==> call_requires(worker, (#[trigger] all[i],)),
            forall|i: int|
                0 <= i < it.index() ==> call_ensures(worker, (all[i],), #[trigger] out@[i]),
    {
        let s = worker(x);
        out.push(s);
    }
    out
}

/// One entry of a cache.
#[derive(Debug)]
pub struct CacheNode<V> {
    pub key: String,
    pub value: V,
}

/// Some entry is filed under `key`.
pub open spec fn has_key<V>(entries: Seq<CacheNode<V>>, key: Seq<char>) -> bool {
    exists|i: int| 0 <= i < entries.len() && (#[trigger] entries[i]).key@ == key
}

/// The place of an entry filed under `key`.
pub open spec fn key_index<V>(entries: Seq<CacheNode<V>>, key: Seq<char>) -> int {
    choose|i: int| 0 <= i < entries.len() && (#[trigger] entries[i]).key@ == key
}

/// No two entries are filed under the same key.
pub open spec fn distinct_keys<V>(entries: Seq<CacheNode<V>>) -> bool {
    forall|i: int, j: int|
        0 <= i < j < entries.len() ==> (#[trigger] entries[i]).key@ != (#[trigger] entries[j]).key@
}

/// A cache of bounded size that gives up the entry that was used least
/// recently when it needs room. Looking an entry up and storing one both
/// count as use.
pub struct LruCache<V> {
    capacity: usize,
    entries: Vec<CacheNode<V>>,
}

impl<V> LruCache<V> {
    /// The entries from the least recently used to the most recently used.
    pub closed spec fn entries(&self) -> Seq<CacheNode<V>> {
        self.entries@
    }

    /// The number of entries that the cache has room for.
    pub closed spec fn capacity(&self) -> usize {
        self.capacity
    }

    /// The cache holds no more than it has room for, and no key twice.
    pub open spec fn wf(&self) -> bool {
        &&& self.entries().len() <= self.capacity()
        &&& distinct_keys(self.entries())
    }

    /// An empty cache with room for `capacity` entries.
    pub fn new(capacity: usize) -> (r: Self)
        ensures
            r.wf(),
            r.capacity() == capacity,
            r.entries().len() == 0,
    {
        LruCache { capacity, entries: Vec::new() }
    }

    fn find(&self, key: &str) -> (r: Option<usize>)
        requires
            self.wf(),
        ensures
            r is Some <==> has_key(self.entries(), key@),
            r matches Some(i) ==> i < self.entries().len() && i == key_index(self.entries(), key@),
    {
        let wanted = key.to_owned();
        let mut i: usize = 0;
        while i < self.entries.len()
            invariant
                self.wf(),
                wanted@ == key@,
                i <= self.entries.len(),
                forall|j: int| 0 <= j < i ==> (#[trigger] self.entries@[j]).key@ != key@,
            decreases self.entries.len() - i,
        {
            if self.entries[i].key == wanted {
                assert(self.entries@[i as int].key@ == key@);
                let ghost c = key_index(self.entries(), key@);
                assert(c == i) by {
                    if c < i {
                        assert(self.entries@[c].key@ != self.entries@[i as int].key@);
                    } else if c > i {
                        assert(self.entries@[i as int].key@ != self.entries@[c].key@);
                    }
                }
                return Some(i);
            }
            i += 1;
        }
        None
    }

    /// The value stored under `key`, which thereby becomes the most
    /// recently used entry.
    pub fn get(&mut self, key: &str) -> (r: Option<V>) where V: Clone
        requires
            old(self).wf(),
        ensures
            final(self).wf(),
            final(self).capacity() == old(self).capacity(),
            r is Some <==> has_key(old(self).entries(), key@),
            r matches Some(v) ==> {
                let i = key_index(old(self).entries(), key@);
                &&& cloned(old(self).entries()[i].value, v)
                &&& final(self).entries() == old(self).entries().remove(i).push(
                    old(self).entries()[i],
                )
            },
            r is None ==> final(self).entries() == old(self).entries(),
    {
        match self.find(key) {
            Some(i) => {
                let ghost before = self.entries@;
                let node = self.entries.remove(i);
                let value = node.value.clone();
                self.entries.push(node);
                proof {
                    lemma_move_to_end_keeps_keys_distinct(before, i as int);
                }
                Some(value)
            },
            None => None,
        }
    }

    /// Stores `value` under `key` as the most recently used entry. A value
    /// that was stored under the key is replaced. Where the key is new and
    /// the cache is full, the least recently used entry gives way; a cache
    /// without room stores nothing.
    pub fn put(&mut self, key: String, value: V)
        requires
            old(self).wf(),
        ensures
            final(self).wf(),
            final(self).capacity() == old(self).capacity(),
            final(self).entries() == after_put(
                old(self).entries(),
                old(self).capacity(),
                CacheNode { key, value },
            ),
    {
        let ghost before = self.entries@;
        let ghost node = CacheNode { key, value };
        match self.find(key.as_str()) {
            Some(i) => {
                let _ = self.entries.remove(i);
                self.entries.push(CacheNode { key, value });
                proof {
                    lemma_replace_keeps_keys_distinct(before, i as int, node);
                }
            },
            None => {
                if self.capacity == 0 {
                    return ;
                }
                if self.entries.len() >= self.capacity {
                    let _ = self.entries.remove(0);
                    assert(self.entries@ =~= before.drop_first());
                }
                self.entries.push(CacheNode { key, value });
                proof {
                    let kept = if before.len() >= self.capacity {
                        before.drop_first()
                    } else {
                        before
                    };
                    assert forall|a: int, b: int| 0 <= a < b < kept.push(node).len() implies (
                    #[trigger] kept.push(node)[a]).key@ != (#[trigger] kept.push(node)[b]).key@ by {
                        let shift: int = if before.len() >= self.capacity {
                            1
                        } else {
                            0
                        };
                        if b < kept.len() {
                            assert(before[a + shift].key@ != before[b + shift].key@);
                        } else {
                            assert(before[a + shift].key@ != node.key@);
                        }
                    }
                }
            },
        }
    }

    /// The number of entries.
    pub fn len(&self) -> (r: usize)
        ensures
            r == self.entries().len(),
    {
        self.entries.len()
    }

    /// Whether the cache holds nothing.
    pub fn is_empty(&self) -> (r: bool)
        ensures
            r == (self.entries().len() == 0),
    {
        self.len() == 0
    }
}

/// What storing `node` makes of the entries of a cache with room for
/// `capacity` entries.
pub open spec fn after_put<V>(
    entries: Seq<CacheNode<V>>,
    capacity: usize,
    node: CacheNode<V>,
) -> Seq<CacheNode<V>> {
    if has_key(entries, node.key@) {
        entries.remove(key_index(entries, node.key@)).push(node)
    } else if capacity == 0 {
        entries
    } else if entries.len() >= capacity {
        entries.drop_first().push(node)
    } else {
        entries.push(node)
    }
}

/// A cache never grows beyond its room: storing an entry in a cache that
/// respects its capacity gives one that does.
pub proof fn lemma_put_respects_capacity<V>(
    entries: Seq<CacheNode<V>>,
    capacity: usize,
    node: CacheNode<V>,
)
    requires
        entries.len() <= capacity,
    ensures
        after_put(entries, capacity, node).len() <= capacity,
{
    if has_key(entries, node.key@) {
        let i = key_index(entries, node.key@);
        assert(entries.remove(i).push(node).len() == entries.len());
    }
}

/// What is stored can be found: in a cache with room for at least one
/// entry, the entry stored last is the most recently used one.
pub proof fn lemma_put_then_found<V>(
    entries: Seq<CacheNode<V>>,
    capacity: usize,
    node: CacheNode<V>,
)
    requires
        capacity > 0,
    ensures
        after_put(entries, capacity, node).len() > 0,
        after_put(entries, capacity, node).last() == node,
        has_key(after_put(entries, capacity, node), node.key@),
{
    let after = after_put(entries, capacity, node);
    if has_key(entries, node.key@) {
        let i = key_index(entries, node.key@);
        assert(after == entries.remove(i).push(node));
    }
    assert(after[after.len() - 1].key@ == node.key@);
}

/// A full cache gives up its least recently used entry, and only that one,
/// for an entry under a new key.
pub proof fn lemma_put_evicts_least_recently_used<V>(
    entries: Seq<CacheNode<V>>,
    capacity: usize,
    node: CacheNode<V>,
)
    requires
        distinct_keys(entries),
        capacity > 0,
        entries.len() == capacity,
        !has_key(entries, node.key@),
    ensures
        !has_key(after_put(entries, capacity, node), entries[0].key@),
        forall|i: int|
            1 <= i < entries.len() ==> has_key(
                after_put(entries, capacity, node),
                (#[trigger] entries[i]).key@,
            ),
{
    let after = after_put(entries, capacity, node);
    assert(after == entries.drop_first().push(node));
    assert(entries[0].key@ != node.key@);
    assert forall|k: int| 0 <= k < after.len() implies (#[trigger] after[k]).key@
        != entries[0].key@ by {
        if k < after.len() - 1 {
            assert(after[k] == entries[k + 1]);
            assert(entries[0].key@ != entries[k + 1].key@);
        }
    }
    assert forall|i: int| 1 <= i < entries.len() implies has_key(
        after,
        (#[trigger] entries[i]).key@,
    ) by {
        assert(after[i - 1] == entries[i]);
        assert(after[i - 1].key@ == entries[i].key@);
    }
}

/// Moving one entry to the end leaves the keys distinct.
pub proof fn lemma_move_to_end_keeps_keys_distinct<V>(entries: Seq<CacheNode<V>>, i: int)
    requires
        distinct_keys(entries),
        0 <= i < entries.len(),
    ensures
        distinct_keys(entries.remove(i).push(entries[i])),
        entries.remove(i).push(entries[i]).len() == entries.len(),
{
    lemma_replace_keeps_keys_distinct(entries, i, entries[i]);
}

/// Replacing one entry by another under the same key, at the end, leaves
/// the keys distinct.
pub proof fn lemma_replace_keeps_keys_distinct<V>(
    entries: Seq<CacheNode<V>>,
    i: int,
    node: CacheNode<V>,
)
    requires
        distinct_keys(entries),
        0 <= i < entries.len(),
        node.key@ == entries[i].key@,
    ensures
        distinct_keys(entries.remove(i).push(node)),
        entries.remove(i).push(node).len() == entries.len(),
{
    let moved = entries.remove(i).push(node);
    assert forall|a: int, b: int| 0 <= a < b < moved.len() implies (#[trigger] moved[a]).key@ != (
    #[trigger] moved[b]).key@ by {
        let sa = if a < i {
            a
        } else {
            a + 1
        };
        assert(moved[a] == entries[sa]);
        if b < moved.len() - 1 {
            let sb = if b < i {
                b
            } else {
                b + 1
            };
            assert(moved[b] == entries[sb]);
            assert(entries[sa].key@ != entries[sb].key@);
        } else {
            if sa < i {
                assert(entries[sa].key@ != entries[i].key@);
            } else {
                assert(entries[i].key@ != entries[sa].key@);
            }
        }
    }
}

/// A connection to a database, which is either in use or free.
#[derive(Debug, Clone, Copy, PartialEq, Eq, Structural)]
pub struct Connection {
    pub id: usize,
    pub in_use: bool,
}

/// What a connection answers to a query.
pub open spec fn query_answer(id: usize, sql: Seq<char>) -> Seq<char> {
    "Connection "@ + decimal(id as nat) + ": executed '"@ + sql + "'"@
}

impl Connection {
    /// A free connection.
    pub fn new(id: usize) -> (r: Self)
        ensures
            r == (Connection { id, in_use: false }),
    {
        Connection { id, in_use: false }
    }

    /// Answers a query by naming the connection and the query.
    pub fn query(&self, sql: &str) -> (r: String)
        ensures
            r@ == query_answer(self.id, sql@),
    {
        let mut out = String::new();
        string_push_str(&mut out, "Connection ");
        push_decimal(&mut out, self.id as u64);
        string_push_str(&mut out, ": executed '");
        string_push_str(&mut out, sql);
        string_push_str(&mut out, "'");
        assert(out@ =~= query_answer(self.id, sql@));
        out
    }
}

/// The test "is free".
pub open spec fn is_free() -> spec_fn(Connection) -> bool {
    |c: Connection| !c.in_use
}

/// The place of the first free connection, if any is free.
pub open spec fn first_free(connections: Seq<Connection>) -> Option<int> {
    if exists|i: int| 0 <= i < connections.len() && !(#[trigger] connections[i]).in_use {
        Some(
            choose|i: int|
                0 <= i < connections.len() && !(#[trigger] connections[i]).in_use && forall|j: int|
                    0 <= j < i ==> (#[trigger] connections[j]).in_use,
        )
    } else {
        None
    }
}

/// A fixed set of connections, numbered from zero, that are handed out and
/// taken back.
pub struct ConnectionPool {
    connections: Vec<Connection>,
    max_size: usize,
}

impl ConnectionPool {
    /// The connections in the order of their numbers.
    pub closed spec fn connections(&self) -> Seq<Connection> {
        self.connections@
    }

    /// The number of connections that the pool was made with.
    pub closed spec fn max_size(&self) -> usize {
        self.max_size
    }

    /// The pool holds the connections it was made with, each at the place
    /// of its number.
    pub open spec fn wf(&self) -> bool {
        &&& self.connections().len() == self.max_size()
        &&& forall|i: int|
            0 <= i < self.connections().len() ==> (#[trigger] self.connections()[i]).id == i
    }

    /// A pool of `size` free connections.
    pub fn new(size: usize) -> (r: Self)
        ensures
            r.wf(),
            r.max_size() == size,
            r.connections() == Seq::new(
                size as nat,
                |i: int| (Connection { id: i as usize, in_use: false }),
            ),
    {
        let mut connections: Vec<Connection> = Vec::new();
        let mut i: usize = 0;
        while i < size
            invariant
                i <= size,
                connections@ == Seq::new(
                    i as nat,
                    |k: int| (Connection { id: k as usize, in_use: false }),
                ),
            decreases size - i,
        {
            connections.push(Connection::new(i));
            assert(connections@ =~= Seq::new(
                (i + 1) as nat,
                |k: int| (Connection { id: k as usize, in_use: false }),
            ));
            i += 1;
        }
        ConnectionPool { connections, max_size: size }
    }

    /// Hands out the free connection with the lowest number and returns the
    /// number; `None`, changing nothing, when every connection is in use.
    pub fn acquire(&mut self) -> (r: Option<usize>)
        requires
            old(self).wf(),
        ensures
            final(self).wf(),
            final(self).max_size() == old(self).max_size(),
            r is Some <==> first_free(old(self).connections()) is Some,
            r is None <==> forall|i: int|
                0 <= i < old(self).connections().len() ==> (#[trigger] old(self).connections()[i]).in_use,
            r matches Some(id) ==> {
                &&& id < old(self).connections().len()
                &&& id == first_free(old(self).connections())->0
                &&& !old(self).connections()[id as int].in_use
                &&& forall|j: int| 0 <= j < id ==> (#[trigger] old(self).connections()[j]).in_use
                &&& final(self).connections() == old(self).connections().update(
                    id as int,
                    Connection { id, in_use: true },
                )
            },
            r is None ==> final(self).connections() == old(self).connections(),
    {
        let mut i: usize = 0;
        while i < self.connections.len()
            invariant
                self.wf(),
                i <= self.connections.len(),
                *self == *old(self),
                forall|j: int| 0 <= j < i ==> (#[trigger] self.connections@[j]).in_use,
            decreases self.connections.len() - i,
        {
            if !self.connections[i].in_use {
                proof {
                    let c = first_free(self.connections@)->0;
                    assert(!self.connections@[i as int].in_use);
                    assert(c == i) by {
                        if c < i {
                            assert(self.connections@[c].in_use);
                        } else if c > i {
                            assert(self.connections@[i as int].in_use);
                        }
                    }
                }
                self.connections[i].in_use = true;
                assert(self.connections@ =~= old(self).connections@.update(
                    i as int,
                    Connection { id: i, in_use: true },
                ));
                return Some(i);
            }
            i += 1;
        }
        None
    }

    /// Takes the connection `conn_id` back, whether or not it was handed
    /// out. A number that the pool does not have changes nothing.
    pub fn release(&mut self, conn_id: usize)
        requires
            old(self).wf(),
        ensures
            final(self).wf(),
            final(self).max_size() == old(self).max_size(),
            final(self).connections() == if conn_id < old(self).connections().len() {
                old(self).connections().update(
                    conn_id as int,
                    Connection { id: conn_id, in_use: false },
                )
            } else {
                old(self).connections()
            },
    {
        if conn_id < self.connections.len() {
            self.connections[conn_id].in_use = false;
            assert(self.connections@ =~= old(self).connections@.update(
                conn_id as int,
                Connection { id: conn_id, in_use: false },
            ));
        }
    }

    /// The number of free connections.
    pub fn available_count(&self) -> (r: usize)
        ensures
            r == self.connections().filter(is_free()).len(),
    {
        let ghost all = self.connections@;
        let mut count: usize = 0;
        let mut i: usize = 0;
        proof {
            Seq::<Connection>::lemma_filter_len(all.subrange(0, 0), is_free());
        }
        while i < self.connections.len()
            invariant
                i <= self.connections.len(),
                all == self.connections@,
                count == all.subrange(0, i as int).filter(is_free()).len(),
                count <= i,
            decreases self.connections.len() - i,
        {
            proof {
                assert(all.subrange(0, i + 1) =~= all.subrange(0, i as int).push(all[i as int]));
                Seq::<Connection>::lemma_filter_push(
                    all.subrange(0, i as int),
                    all[i as int],
                    is_free(),
                );
            }
            if !self.connections[i].in_use {
                count += 1;
            }
            i += 1;
        }
        assert(all.subrange(0, all.len() as int) =~= all);
        count
    }

    /// Runs a query on the free connection with the lowest number and
    /// leaves the pool as it was; `None` when every connection is in use.
    pub fn execute(&mut self, sql: &str) -> (r: Option<String>)
        requires
            old(self).wf(),
        ensures
            final(self).wf(),
            final(self).max_size() == old(self).max_size(),
            final(self).connections() == old(self).connections(),
            r is Some <==> first_free(old(self).connections()) is Some,
            r matches Some(answer) ==> answer@ == query_answer(
                first_free(old(self).connections())->0 as usize,
                sql@,
            ),
    {
        match self.acquire() {
            Some(id) => {
                let answer = self.connections[id].query(sql);
                self.release(id);
                assert(old(self).connections@[id as int] == (Connection { id, in_use: false }));
                assert(self.connections@ =~= old(self).connections@);
                Some(answer)
            },
            None => None,
        }
    }
}

} // verus!
