use telemed_core::query_optimizer::{IndexAdvisor, QueryCache, QueryOptimizer};
use telemed_core::storage::{MigrationManager, PageResult, QueryBuilder};

#[test]
fn test_query_cache() {
    let mut cache = QueryCache::new(60, 100);

    cache.set("key1".to_string(), "value1".to_string());
    assert_eq!(cache.get("key1"), Some("value1".to_string()));

    assert_eq!(cache.get("key2"), None);
}

#[test]
fn query_cache_overwrites_and_evicts() {
    let mut cache = QueryCache::new(60, 2);
    cache.set("a".to_string(), "1".to_string());
    cache.set("a".to_string(), "2".to_string());
    assert_eq!(cache.get("a"), Some("2".to_string()));

    cache.set("b".to_string(), "3".to_string());
    // the cache is full now; the next insert evicts the oldest entry
    cache.set("c".to_string(), "4".to_string());
    assert_eq!(cache.get("c"), Some("4".to_string()));
    let survivors = [cache.get("a").is_some(), cache.get("b").is_some()];
    assert_eq!(survivors.iter().filter(|s| **s).count(), 1);
}

#[test]
fn query_cache_expiry_at_explicit_clock() {
    let mut cache = QueryCache::new(1, 10);
    cache.set_at("k".to_string(), "v".to_string(), 1_000);
    assert_eq!(cache.get_at("k", 1_500), Some("v".to_string()));
    // two seconds later the entry is stale and gets dropped
    assert_eq!(cache.get_at("k", 3_000), None);
    assert_eq!(cache.get_at("k", 1_500), None);

    cache.set_at("k".to_string(), "v".to_string(), 5_000);
    cache.set_at("fresh".to_string(), "w".to_string(), 9_500);
    cache.clear_expired_at(10_000);
    assert_eq!(cache.get_at("fresh", 9_900), Some("w".to_string()));
    assert_eq!(cache.get_at("k", 5_100), None);

    cache.clear();
    assert_eq!(cache.get_at("fresh", 9_900), None);
}

#[test]
fn query_optimizer_records_statistics() {
    let mut optimizer = QueryOptimizer::new(100);
    assert!(optimizer.get_stats("q").is_none());

    optimizer.record_query("q", 50_000_000);
    optimizer.record_query("q", 150_000_000);
    optimizer.record_query("other", 1_000_000);

    let stats = optimizer.get_stats("q").unwrap();
    assert_eq!(stats.query, "q");
    assert_eq!(stats.execution_count, 2);
    assert_eq!(stats.total_duration, 200_000_000);
    assert_eq!(stats.avg_duration, 100_000_000);
    assert_eq!(stats.min_duration, 50_000_000);
    assert_eq!(stats.max_duration, 150_000_000);

    assert_eq!(optimizer.get_all_stats().len(), 2);
    // only "q" averages above the 100 ms threshold... its average sits
    // exactly at the threshold, so nothing is slow yet
    assert_eq!(optimizer.get_slow_queries().len(), 0);
    optimizer.record_query("q", 400_000_000);
    assert_eq!(optimizer.get_slow_queries().len(), 1);

    optimizer.clear_stats();
    assert!(optimizer.get_stats("q").is_none());
    assert_eq!(optimizer.get_all_stats().len(), 0);
}

#[test]
fn index_advisor_suggests_per_clause() {
    let s = IndexAdvisor::analyze_query("SELECT * FROM t WHERE a = 1 ORDER BY b");
    assert_eq!(s.len(), 2);
    assert_eq!(s[0], "考虑在WHERE子句中的列上创建索引");
    assert_eq!(s[1], "考虑在ORDER BY的列上创建索引");

    let s = IndexAdvisor::analyze_query("SELECT * FROM t JOIN u ON t.id = u.id");
    assert_eq!(s.len(), 1);
    assert_eq!(s[0], "考虑在JOIN条件的列上创建索引");

    assert_eq!(IndexAdvisor::analyze_query("SELECT 1").len(), 0);
}

#[test]
fn query_builder_builds_clauses() {
    let q = QueryBuilder::new()
        .add_condition("name LIKE ?1", "%张%")
        .add_condition("age > ?2", "30")
        .order_by("created_at DESC")
        .limit(20)
        .offset(40);
    assert_eq!(q.build_where_clause(), "WHERE name LIKE ?1 AND age > ?2");
    assert_eq!(q.build_order_clause(), "ORDER BY created_at DESC");
    assert_eq!(q.build_limit_clause(), "LIMIT 20 OFFSET 40");
    assert_eq!(q.params, vec!["%张%".to_string(), "30".to_string()]);

    let empty = QueryBuilder::new();
    assert_eq!(empty.build_where_clause(), "");
    assert_eq!(empty.build_order_clause(), "");
    assert_eq!(empty.build_limit_clause(), "");

    let only_limit = QueryBuilder::new().limit(5);
    assert_eq!(only_limit.build_limit_clause(), "LIMIT 5");
}

#[test]
fn page_result_rounds_pages_up() {
    let p: PageResult<u32> = PageResult::new(vec![1, 2, 3], 45, 2, 20);
    assert_eq!(p.total_pages, 3);
    assert_eq!(p.items, vec![1, 2, 3]);
    assert_eq!(p.page, 2);
    assert_eq!(p.page_size, 20);

    let exact: PageResult<u32> = PageResult::new(vec![], 40, 1, 20);
    assert_eq!(exact.total_pages, 2);
    let none: PageResult<u32> = PageResult::new(vec![], 0, 1, 20);
    assert_eq!(none.total_pages, 0);
}

#[test]
fn migration_catalogue_starts_at_the_initial_schema() {
    let manager = MigrationManager::new();
    assert_eq!(manager.migrations.len(), 1);
    assert_eq!(manager.migrations[0].version, 1);
    assert_eq!(manager.migrations[0].description, "Initial database schema");
    assert!(manager.migrations[0].up_sql.contains("CREATE TABLE IF NOT EXISTS audit_logs"));
    assert!(manager.migrations[0].down_sql.contains("DROP TABLE IF EXISTS users"));
}
