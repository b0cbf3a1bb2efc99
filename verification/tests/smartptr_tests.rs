use dojo::smartptr::{
    parallel_square, parallel_with_channel, Config, ConfigManager, Connection, ConnectionPool,
    EventBus, EventListener, FsNode, FsTree, Logger, LruCache, ResultCollector,
};

#[test]
fn test_fs_node_basic() {
    let mut tree = FsTree::new();
    let root = FsNode::new_dir(&mut tree, "root");
    assert_eq!(tree.node(root).name, "root");
    assert!(tree.node(root).is_dir);
}

#[test]
fn mission_1_new_file() {
    let mut tree = FsTree::new();
    let file = FsNode::new_file(&mut tree, "readme.txt");
    assert_eq!(tree.node(file).name, "readme.txt");
    assert!(!tree.node(file).is_dir);
}

#[test]
fn mission_1_new_dir() {
    let mut tree = FsTree::new();
    let dir = FsNode::new_dir(&mut tree, "docs");
    assert_eq!(tree.node(dir).name, "docs");
    assert!(tree.node(dir).is_dir);
}

#[test]
fn mission_1_add_child() {
    let mut tree = FsTree::new();
    let root = FsNode::new_dir(&mut tree, "root");
    let file = FsNode::new_file(&mut tree, "readme.txt");

    FsNode::add_child(&mut tree, root, file);

    assert_eq!(FsNode::children_count(&tree, root), 1);
}

#[test]
fn mission_1_parent_name() {
    let mut tree = FsTree::new();
    let root = FsNode::new_dir(&mut tree, "root");
    let docs = FsNode::new_dir(&mut tree, "docs");

    FsNode::add_child(&mut tree, root, docs);

    assert_eq!(FsNode::parent_name(&tree, docs), Some("root".to_string()));
    assert_eq!(FsNode::parent_name(&tree, root), None);
}

#[test]
fn mission_1_full_path() {
    let mut tree = FsTree::new();
    let root = FsNode::new_dir(&mut tree, "root");
    let docs = FsNode::new_dir(&mut tree, "docs");
    let readme = FsNode::new_file(&mut tree, "readme.txt");

    FsNode::add_child(&mut tree, root, docs);
    FsNode::add_child(&mut tree, docs, readme);

    assert_eq!(FsNode::full_path(&tree, readme), "/root/docs/readme.txt");
    assert_eq!(FsNode::full_path(&tree, docs), "/root/docs");
    assert_eq!(FsNode::full_path(&tree, root), "/root");
}

#[test]
fn mission_2_new_event_bus() {
    let bus: EventBus<Logger> = EventBus::new();
    assert_eq!(bus.listener_count(), 0);
}

#[test]
fn mission_2_subscribe() {
    let mut bus = EventBus::new();
    let logger = Logger::new("test");

    bus.subscribe(logger);

    assert_eq!(bus.listener_count(), 1);
}

#[test]
fn mission_2_publish() {
    let mut bus = EventBus::new();
    let logger = Logger::new("app");

    bus.subscribe(logger);
    bus.publish("user_login");
    bus.publish("user_logout");

    let logs = &bus.listener(0).logs;
    assert_eq!(logs.len(), 2);
    assert!(logs[0].contains("user_login"));
    assert!(logs[1].contains("user_logout"));
}

#[test]
fn mission_2_multiple_listeners() {
    let mut bus = EventBus::new();
    let logger1 = Logger::new("logger1");
    let logger2 = Logger::new("logger2");

    bus.subscribe(logger1);
    bus.subscribe(logger2);
    bus.publish("event");

    assert_eq!(bus.listener(0).logs.len(), 1);
    assert_eq!(bus.listener(1).logs.len(), 1);
}

#[test]
fn mission_3_new_cache() {
    let cache: LruCache<i32> = LruCache::new(3);
    assert!(cache.is_empty());
    assert_eq!(cache.len(), 0);
}

#[test]
fn mission_3_put_and_get() {
    let mut cache: LruCache<String> = LruCache::new(3);

    cache.put("key1".to_string(), "value1".to_string());

    assert_eq!(cache.get("key1"), Some("value1".to_string()));
    assert_eq!(cache.get("key2"), None);
}

#[test]
fn mission_3_lru_eviction() {
    let mut cache: LruCache<i32> = LruCache::new(2);

    cache.put("a".to_string(), 1);
    cache.put("b".to_string(), 2);
    cache.put("c".to_string(), 3);

    assert_eq!(cache.get("a"), None);
    assert_eq!(cache.get("b"), Some(2));
    assert_eq!(cache.get("c"), Some(3));
}

#[test]
fn mission_3_access_updates_lru() {
    let mut cache: LruCache<i32> = LruCache::new(2);

    cache.put("a".to_string(), 1);
    cache.put("b".to_string(), 2);
    cache.get("a");
    cache.put("c".to_string(), 3);

    assert_eq!(cache.get("a"), Some(1));
    assert_eq!(cache.get("b"), None);
    assert_eq!(cache.get("c"), Some(3));
}

#[test]
fn mission_4_new_pool() {
    let pool = ConnectionPool::new(3);
    assert_eq!(pool.available_count(), 3);
}

#[test]
fn mission_4_acquire_and_release() {
    let mut pool = ConnectionPool::new(2);

    let conn1 = pool.acquire();
    assert!(conn1.is_some());
    assert_eq!(pool.available_count(), 1);

    let conn2 = pool.acquire();
    assert!(conn2.is_some());
    assert_eq!(pool.available_count(), 0);

    let conn3 = pool.acquire();
    assert!(conn3.is_none());

    pool.release(conn1.unwrap());
    assert_eq!(pool.available_count(), 1);
}

#[test]
fn mission_4_execute() {
    let mut pool = ConnectionPool::new(2);

    let result = pool.execute("SELECT * FROM users");

    assert!(result.is_some());
    assert!(result.unwrap().contains("SELECT * FROM users"));
    assert_eq!(pool.available_count(), 2);
}

#[test]
fn mission_5_new_config_manager() {
    let manager = ConfigManager::new();
    let config = manager.get_config();

    assert!(!config.debug_mode);
    assert_eq!(config.max_connections, 10);
}

#[test]
fn mission_5_with_config() {
    let config = Config {
        debug_mode: true,
        max_connections: 20,
        timeout_ms: 3000,
        app_name: "TestApp".to_string(),
    };

    let manager = ConfigManager::with_config(config);

    assert!(manager.is_debug());
    assert_eq!(manager.get_config().max_connections, 20);
}

#[test]
fn mission_5_update() {
    let mut manager = ConfigManager::new();

    manager.update(|mut config| {
        config.debug_mode = true;
        config.max_connections = 50;
        config
    });

    assert!(manager.is_debug());
    assert_eq!(manager.get_config().max_connections, 50);
}

#[test]
fn mission_6_new_collector() {
    let collector: ResultCollector<i32> = ResultCollector::new();
    assert_eq!(collector.count(), 0);
}

#[test]
fn mission_6_add_results() {
    let mut collector: ResultCollector<String> = ResultCollector::new();

    collector.add("result1".to_string());
    collector.add("result2".to_string());

    assert_eq!(collector.count(), 2);
}

#[test]
fn mission_6_get_results() {
    let mut collector: ResultCollector<i32> = ResultCollector::new();

    collector.add(1);
    collector.add(2);
    collector.add(3);

    let results = collector.get_results();
    assert_eq!(results.len(), 3);
    assert!(results.contains(&1));
    assert!(results.contains(&2));
    assert!(results.contains(&3));
}

#[test]
fn mission_6_parallel_square() {
    let numbers = vec![1, 2, 3, 4, 5];
    let mut results = parallel_square(numbers);
    results.sort();

    assert_eq!(results, vec![1, 4, 9, 16, 25]);
}

#[test]
fn mission_6_parallel_with_channel() {
    let items = vec!["a", "b", "c"];
    let results = parallel_with_channel(items, |s: &str| s.to_uppercase());

    assert_eq!(results.len(), 3);
    assert!(results.contains(&"A".to_string()));
    assert!(results.contains(&"B".to_string()));
    assert!(results.contains(&"C".to_string()));
}

#[test]
fn tree_links_and_paths() {
    let mut tree = FsTree::default();
    assert_eq!(tree.len(), 0);
    let root = FsNode::new_dir(&mut tree, "root");
    let a = FsNode::new_dir(&mut tree, "a");
    let b = FsNode::new_file(&mut tree, "b");
    assert_eq!((root, a, b), (0, 1, 2));
    assert_eq!(tree.len(), 3);

    FsNode::add_child(&mut tree, a, b);
    FsNode::add_child(&mut tree, root, a);
    assert_eq!(FsNode::full_path(&tree, b), "/root/a/b");
    assert_eq!(tree.node(a).children, vec![b]);
    assert_eq!(tree.node(b).parent, Some(a));
    assert_eq!(tree.node(root).parent, None);

    FsNode::add_child(&mut tree, root, b);
    assert_eq!(FsNode::full_path(&tree, b), "/root/b");
    assert_eq!(FsNode::parent_name(&tree, b), Some("root".to_string()));
    assert_eq!(FsNode::children_count(&tree, root), 2);
    assert_eq!(FsNode::children_count(&tree, a), 1);
}

#[test]
fn path_of_a_node_that_is_its_own_ancestor_is_cut_off() {
    let mut tree = FsTree::new();
    let a = FsNode::new_dir(&mut tree, "a");
    let b = FsNode::new_dir(&mut tree, "b");
    FsNode::add_child(&mut tree, a, b);
    FsNode::add_child(&mut tree, b, a);
    assert_eq!(FsNode::full_path(&tree, a), "/a/b/a");
    let mut lone = FsTree::new();
    let s = FsNode::new_dir(&mut lone, "s");
    FsNode::add_child(&mut lone, s, s);
    assert_eq!(FsNode::full_path(&lone, s), "/s/s");
}

#[test]
fn logger_writes_its_name_before_the_event() {
    let mut logger = Logger::new("app");
    assert_eq!(logger.name(), "app");
    logger.on_event("start");
    logger.on_event("");
    assert_eq!(logger.logs, vec!["[app] start".to_string(), "[app] ".to_string()]);
    let bus: EventBus<Logger> = EventBus::default();
    assert_eq!(bus.listener_count(), 0);
}

#[test]
fn cache_replaces_a_value_without_eviction() {
    let mut cache: LruCache<i32> = LruCache::new(2);
    cache.put("a".to_string(), 1);
    cache.put("b".to_string(), 2);
    cache.put("a".to_string(), 10);
    assert_eq!(cache.len(), 2);
    cache.put("c".to_string(), 3);
    assert_eq!(cache.len(), 2);
    assert_eq!(cache.get("b"), None);
    assert_eq!(cache.get("a"), Some(10));
    assert_eq!(cache.get("c"), Some(3));
    assert!(!cache.is_empty());
}

#[test]
fn cache_without_room_stores_nothing() {
    let mut cache: LruCache<i32> = LruCache::new(0);
    cache.put("a".to_string(), 1);
    assert_eq!(cache.len(), 0);
    assert_eq!(cache.get("a"), None);
    let mut one: LruCache<i32> = LruCache::new(1);
    one.put("a".to_string(), 1);
    one.put("b".to_string(), 2);
    assert_eq!(one.get("a"), None);
    assert_eq!(one.get("b"), Some(2));
}

#[test]
fn pool_hands_out_the_lowest_free_connection() {
    let mut pool = ConnectionPool::new(3);
    assert_eq!(pool.acquire(), Some(0));
    assert_eq!(pool.acquire(), Some(1));
    pool.release(0);
    assert_eq!(pool.acquire(), Some(0));
    assert_eq!(pool.acquire(), Some(2));
    assert_eq!(pool.acquire(), None);
    assert_eq!(pool.execute("SELECT 1"), None);
    pool.release(7);
    assert_eq!(pool.available_count(), 0);
    pool.release(1);
    pool.release(1);
    assert_eq!(pool.available_count(), 1);
    assert_eq!(
        pool.execute("SELECT 1"),
        Some("Connection 1: executed 'SELECT 1'".to_string())
    );
    assert_eq!(pool.available_count(), 1);
    let empty = ConnectionPool::new(0);
    assert_eq!(empty.available_count(), 0);
}

#[test]
fn connection_query_names_connection_and_query() {
    let conn = Connection::new(12);
    assert_eq!(conn, Connection { id: 12, in_use: false });
    assert_eq!(conn.query("SELECT * FROM t"), "Connection 12: executed 'SELECT * FROM t'");
    assert_eq!(Connection::new(0).query(""), "Connection 0: executed ''");
}

#[test]
fn config_defaults() {
    let config = Config::default();
    assert!(!config.debug_mode);
    assert_eq!(config.max_connections, 10);
    assert_eq!(config.timeout_ms, 5000);
    assert_eq!(config.app_name, "MyApp");
    let manager = ConfigManager::default();
    assert_eq!(manager.get_config().app_name, "MyApp");
    assert!(!manager.is_debug());
    let copy = config.clone();
    assert_eq!(copy.timeout_ms, 5000);
}

#[test]
fn results_and_squares_keep_the_order_of_the_input() {
    let mut collector: ResultCollector<&str> = ResultCollector::default();
    collector.add("x");
    collector.add("y");
    assert_eq!(collector.get_results(), vec!["x", "y"]);
    assert_eq!(parallel_square(vec![3, -4, 0, 46340]), vec![9, 16, 0, 2147395600]);
    assert_eq!(parallel_square(Vec::new()), Vec::<i32>::new());
    assert_eq!(
        parallel_with_channel(vec![1, 20, 3], |n: i32| format!("<{}>", n)),
        vec!["<1>".to_string(), "<20>".to_string(), "<3>".to_string()]
    );
}
