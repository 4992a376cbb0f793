//! The sinks of the benchmark workload.

use karac_fmt::probe::{get_sink, key, live_map, loop_sink, step};

#[test]
fn sinks_of_short_runs() {
    assert_eq!(step(12345), (12345 * 1103515245 + 12345) % 2147483648);
    assert_eq!(get_sink(0), 0);
    assert_eq!(get_sink(1000), 140118);
    assert_eq!(loop_sink(1000), 2089624);
}

#[test]
fn keys_are_the_high_bits() {
    assert_eq!(key(0), 0);
    assert_eq!(key(65535), 0);
    assert_eq!(key(5 * 65536 + 7), 5);
    assert_eq!(key(4096 * 65536), 0);
    assert_eq!(key(2147483647), 4095);
}

#[test]
fn map_holds_every_fourth_key() {
    let map = live_map();
    assert_eq!(map.len(), 1024);
    assert_eq!(map.get(&4092), Some(&1023));
    assert_eq!(map.get(&2), None);
    assert_eq!(map.get(&4096), None);
}

#[test]
fn sink_of_the_full_run() {
    assert_eq!(get_sink(32_000_000), 4101321192);
}
