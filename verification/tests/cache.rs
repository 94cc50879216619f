use kvcache::dispatch::handle_line;
use kvcache::is_expired;
use kvcache::protocol;
use kvcache::stats::Stats;
use kvcache::store::Store;

fn line(store: &mut Store, stats: &mut Stats, now_ms: u64, input: &str) -> String {
    stats.inc_commands();
    let (resp, _close) = handle_line(input.as_bytes(), store, stats, now_ms);
    resp
}

#[test]
fn set_get_roundtrip() {
    let mut store = Store::new();
    let mut stats = Stats::new();
    let r1 = line(&mut store, &mut stats, 0, "SET a hello");
    assert_eq!(r1, "+OK\n");
    let r2 = line(&mut store, &mut stats, 0, "GET a");
    assert!(r2.starts_with("$5\n"));
    assert!(r2.contains("hello"));
}

#[test]
fn del_removes() {
    let mut store = Store::new();
    let mut stats = Stats::new();
    assert_eq!(line(&mut store, &mut stats, 0, "SET a hello"), "+OK\n");
    assert_eq!(line(&mut store, &mut stats, 0, "DEL a"), ":1\n");
    assert_eq!(line(&mut store, &mut stats, 0, "GET a"), "$-1\n");
}

#[test]
fn expire_and_ttl() {
    let mut store = Store::new();
    let mut stats = Stats::new();
    assert_eq!(line(&mut store, &mut stats, 0, "SET x value EX 1"), "+OK\n");
    let got = line(&mut store, &mut stats, 0, "GET x");
    assert!(got.contains("value"));
    let ttl = line(&mut store, &mut stats, 0, "TTL x");
    assert_eq!(ttl, ":1\n");
    // 1.2 seconds later the entry has lapsed.
    assert_eq!(line(&mut store, &mut stats, 1200, "GET x"), "$-1\n");
    assert_eq!(line(&mut store, &mut stats, 1200, "TTL x"), ":-2\n");
}

#[test]
fn stats_command_works() {
    let mut store = Store::new();
    let mut stats = Stats::new();
    assert_eq!(line(&mut store, &mut stats, 0, "PING"), "+PONG\n");
    assert_eq!(line(&mut store, &mut stats, 0, "GET missing"), "$-1\n");
    let r = line(&mut store, &mut stats, 0, "STATS");
    assert!(r.starts_with("+STATS\n"));
    assert!(r.contains("commands="));
}

#[test]
fn concurrent_clients_smoke() {
    let mut store = Store::new();
    let mut stats = Stats::new();
    for i in 0..20 {
        let resp = line(&mut store, &mut stats, 0, &format!("SET k{} v{}", i, i));
        assert_eq!(resp, "+OK\n");
    }
    for i in 0..20 {
        let resp = line(&mut store, &mut stats, 0, &format!("GET k{}", i));
        assert_eq!(resp, format!("${}\nv{}\n", format!("v{}", i).len(), i));
    }
}

#[test]
fn codec_fixed_lines() {
    assert_eq!(protocol::ok(), "+OK\n");
    assert_eq!(protocol::pong(), "+PONG\n");
    assert_eq!(protocol::nil(), "$-1\n");
    assert_eq!(protocol::err("boom"), "-ERR boom\n");
}

#[test]
fn codec_integer() {
    assert_eq!(protocol::integer(0), ":0\n");
    assert_eq!(protocol::integer(42), ":42\n");
    assert_eq!(protocol::integer(-1), ":-1\n");
    assert_eq!(protocol::integer(-2), ":-2\n");
    assert_eq!(protocol::integer(i64::MAX), format!(":{}\n", i64::MAX));
    assert_eq!(protocol::integer(i64::MIN), format!(":{}\n", i64::MIN));
}

#[test]
fn codec_bulk_string() {
    assert_eq!(protocol::bulk_string(b"hello"), "$5\nhello\n");
    assert_eq!(protocol::bulk_string(b""), "$0\n\n");
    // The declared length is the raw byte count even when the bytes
    // are not valid UTF-8 and render lossily.
    let raw = [0xffu8, 0xfe];
    let r = protocol::bulk_string(&raw);
    assert!(r.starts_with("$2\n"));
    assert!(r.ends_with("\n"));
}

#[test]
fn store_set_get_no_ttl() {
    let mut s = Store::new();
    s.set(b"k".to_vec(), b"v".to_vec(), None, 5);
    assert_eq!(s.get(b"k", 1_000_000), Some(b"v".to_vec()));
    assert_eq!(s.ttl(b"k", 1_000_000), -1);
}

#[test]
fn store_set_with_ttl_lapses() {
    let mut s = Store::new();
    s.set(b"k".to_vec(), b"v".to_vec(), Some(2), 100);
    let t = s.ttl(b"k", 100);
    assert!(0 <= t && t <= 2);
    assert_eq!(s.get(b"k", 600), Some(b"v".to_vec()));
    // At exactly the expiry instant the entry is already gone.
    assert_eq!(s.get(b"k", 2100), None);
    assert_eq!(s.ttl(b"k", 2100), -2);
}

#[test]
fn store_del_then_absent() {
    let mut s = Store::new();
    assert!(!s.del(b"k"));
    s.set(b"k".to_vec(), b"v".to_vec(), None, 0);
    assert!(s.del(b"k"));
    assert_eq!(s.get(b"k", 0), None);
    // Repeated deletions after the first all fail.
    assert!(!s.del(b"k"));
    assert!(!s.del(b"k"));
}

#[test]
fn store_expire_semantics() {
    let mut s = Store::new();
    assert!(!s.expire(b"k", 10, 0));
    assert_eq!(s.get(b"k", 0), None);
    s.set(b"k".to_vec(), b"v".to_vec(), Some(100), 0);
    assert!(s.expire(b"k", 10, 0));
    let t = s.ttl(b"k", 0);
    assert!(0 <= t && t <= 10);
    // An expired-but-unswept entry can still be refreshed.
    s.set(b"e".to_vec(), b"v".to_vec(), Some(1), 0);
    assert!(s.expire(b"e", 5, 2000));
    assert_eq!(s.get(b"e", 2000), Some(b"v".to_vec()));
}

#[test]
fn store_sweep_exact() {
    let mut s = Store::new();
    s.set(b"dead1".to_vec(), b"a".to_vec(), Some(1), 0);
    s.set(b"dead2".to_vec(), b"b".to_vec(), Some(2), 0);
    s.set(b"alive".to_vec(), b"c".to_vec(), Some(100), 0);
    s.set(b"forever".to_vec(), b"d".to_vec(), None, 0);
    let removed = s.remove_expired_batch(2000);
    assert_eq!(removed, 2);
    assert_eq!(s.get(b"dead1", 2000), None);
    assert_eq!(s.get(b"dead2", 2000), None);
    assert_eq!(s.get(b"alive", 2000), Some(b"c".to_vec()));
    assert_eq!(s.get(b"forever", 2000), Some(b"d".to_vec()));
    // Nothing more to sweep.
    assert_eq!(s.remove_expired_batch(2000), 0);
}

#[test]
fn expired_predicate() {
    assert!(!is_expired(None, u64::MAX));
    assert!(is_expired(Some(5), 5));
    assert!(is_expired(Some(5), 6));
    assert!(!is_expired(Some(5), 4));
}

#[test]
fn get_miss_counts_once() {
    let mut store = Store::new();
    let mut stats = Stats::new();
    assert_eq!(line(&mut store, &mut stats, 0, "GET missing"), "$-1\n");
    assert_eq!(stats.misses, 1);
    assert_eq!(stats.hits, 0);
    assert_eq!(stats.gets, 1);
}

#[test]
fn set_without_value_is_an_error() {
    let mut store = Store::new();
    let mut stats = Stats::new();
    assert_eq!(
        line(&mut store, &mut stats, 0, "SET a"),
        "-ERR SET requires value\n"
    );
    assert_eq!(line(&mut store, &mut stats, 0, "GET a"), "$-1\n");
}

#[test]
fn set_value_spacing_and_ex_suffix() {
    let mut store = Store::new();
    let mut stats = Stats::new();
    // Internal whitespace collapses to single spaces.
    assert_eq!(line(&mut store, &mut stats, 0, "SET a x   y"), "+OK\n");
    assert_eq!(line(&mut store, &mut stats, 0, "GET a"), "$3\nx y\n");
    // A trailing EX <integer> pair is the time-to-live, case-insensitively.
    assert_eq!(line(&mut store, &mut stats, 0, "SET b one two ex 3"), "+OK\n");
    assert_eq!(line(&mut store, &mut stats, 0, "GET b"), "$7\none two\n");
    assert_eq!(line(&mut store, &mut stats, 0, "TTL b"), ":3\n");
    // With only two tokens after the key there is no suffix.
    assert_eq!(line(&mut store, &mut stats, 0, "SET c EX 5"), "+OK\n");
    assert_eq!(line(&mut store, &mut stats, 0, "GET c"), "$4\nEX 5\n");
    assert_eq!(line(&mut store, &mut stats, 0, "TTL c"), ":-1\n");
}

#[test]
fn dispatcher_error_replies() {
    let mut store = Store::new();
    let mut stats = Stats::new();
    assert_eq!(line(&mut store, &mut stats, 0, "GET"), "-ERR GET requires key\n");
    assert_eq!(line(&mut store, &mut stats, 0, "SET"), "-ERR SET requires key\n");
    assert_eq!(
        line(&mut store, &mut stats, 0, "SET a b EX nope"),
        "-ERR EX requires integer seconds\n"
    );
    assert_eq!(line(&mut store, &mut stats, 0, "DEL"), "-ERR DEL requires key\n");
    assert_eq!(line(&mut store, &mut stats, 0, "TTL"), "-ERR TTL requires key\n");
    assert_eq!(
        line(&mut store, &mut stats, 0, "EXPIRE"),
        "-ERR EXPIRE requires key\n"
    );
    assert_eq!(
        line(&mut store, &mut stats, 0, "EXPIRE k"),
        "-ERR EXPIRE requires seconds\n"
    );
    assert_eq!(
        line(&mut store, &mut stats, 0, "EXPIRE k nope"),
        "-ERR EXPIRE requires integer seconds\n"
    );
    assert_eq!(line(&mut store, &mut stats, 0, "NOSUCH"), "-ERR unknown command\n");
    assert_eq!(line(&mut store, &mut stats, 0, ""), "-ERR empty command\n");
    // The verb is matched case-insensitively, but the SET needle is
    // searched for verbatim, so a lower-case SET cannot locate it.
    assert_eq!(
        line(&mut store, &mut stats, 0, "set a hello"),
        "-ERR SET parse error\n"
    );
}

#[test]
fn set_rejects_oversized_value() {
    let mut store = Store::new();
    let mut stats = Stats::new();
    let big = "x".repeat(1048577);
    assert_eq!(
        line(&mut store, &mut stats, 0, &format!("SET a {}", big)),
        "-ERR value too large\n"
    );
    assert_eq!(line(&mut store, &mut stats, 0, "GET a"), "$-1\n");
    // One byte less is accepted.
    let fitting = "x".repeat(1048576);
    assert_eq!(
        line(&mut store, &mut stats, 0, &format!("SET a {}", fitting)),
        "+OK\n"
    );
}

#[test]
fn quit_and_help() {
    let mut store = Store::new();
    let mut stats = Stats::new();
    stats.inc_commands();
    let (resp, close) = handle_line(b"QUIT", &mut store, &mut stats, 0);
    assert_eq!(resp, "+BYE\n");
    assert!(close);
    stats.inc_commands();
    let (help, close2) = handle_line(b"help", &mut store, &mut stats, 0);
    assert!(help.starts_with("+COMMANDS:\n"));
    assert!(help.contains("EXPIRE <key> <seconds>\n"));
    assert!(!close2);
}

#[test]
fn stats_render_exact() {
    let mut stats = Stats::new();
    stats.inc_connections();
    stats.inc_commands();
    stats.inc_commands();
    stats.inc_gets();
    stats.inc_hits();
    stats.inc_misses();
    stats.inc_sets();
    stats.inc_dels();
    stats.inc_ttl();
    stats.inc_expire();
    stats.add_expired_removed(7);
    let r = stats.render();
    assert_eq!(
        r,
        "+STATS\nconnections=1\ncommands=2\ngets=1\nhits=1\nmisses=1\nsets=1\ndels=1\nttl=1\nexpire=1\nexpired_removed=7\n"
    );
}

#[test]
fn expire_through_protocol() {
    let mut store = Store::new();
    let mut stats = Stats::new();
    assert_eq!(line(&mut store, &mut stats, 0, "SET a v"), "+OK\n");
    assert_eq!(line(&mut store, &mut stats, 0, "EXPIRE a 5"), ":1\n");
    assert_eq!(line(&mut store, &mut stats, 0, "TTL a"), ":5\n");
    assert_eq!(line(&mut store, &mut stats, 0, "EXPIRE missing 5"), ":0\n");
    assert_eq!(line(&mut store, &mut stats, 0, "DEL missing"), ":0\n");
}

#[test]
fn seconds_syntax_edges() {
    let mut store = Store::new();
    let mut stats = Stats::new();
    assert_eq!(line(&mut store, &mut stats, 0, "SET a v"), "+OK\n");
    // A leading plus sign is accepted, as the usual integer syntax has it.
    assert_eq!(line(&mut store, &mut stats, 0, "EXPIRE a +5"), ":1\n");
    // A value that does not fit in 64 bits is rejected.
    assert_eq!(
        line(&mut store, &mut stats, 0, "EXPIRE a 99999999999999999999"),
        "-ERR EXPIRE requires integer seconds\n"
    );
    assert_eq!(
        line(&mut store, &mut stats, 0, "SET b v EX -1"),
        "-ERR EX requires integer seconds\n"
    );
}
