use stolas::deploy::{destination, run_command, ssh_args};
use stolas::frame::Frame;
use stolas::network::{config_packet, frame_packet, read_command, Command, TAG_CONFIG, TAG_FRAME, TAG_SHUTDOWN};
use stolas::watch::{contains_path, source_path_changes, ChangedPaths};
use stolas::webui::{is_fresh, js_file_name, latest_modification, needs_rebuild, wasm_file_name, Timestamp};

#[test]
fn network_packets_carry_native_tags() {
    let p = config_packet(b"{}");
    assert_eq!(p, [TAG_CONFIG.to_ne_bytes().as_slice(), b"{}"].concat());
    let f = Frame { serial: 1, timestamp: 2, bins: vec![3] };
    let p = frame_packet(&f);
    assert_eq!(&p[..2], &TAG_FRAME.to_ne_bytes());
    assert_eq!(p.len(), 2 + 24);
}

#[test]
fn network_commands() {
    assert_eq!(read_command(&TAG_CONFIG.to_ne_bytes()), Command::Config);
    let mut shutdown = TAG_SHUTDOWN.to_ne_bytes().to_vec();
    shutdown.extend_from_slice(b"ignored");
    assert_eq!(read_command(&shutdown), Command::Shutdown);
    assert_eq!(read_command(&0x0777u16.to_ne_bytes()), Command::Unrecognized { tag: 0x0777 });
}

#[test]
fn deploy_command_lines() {
    assert_eq!(destination("pi@telescope", "/opt/stolas"), "pi@telescope:/opt/stolas");
    assert_eq!(run_command("/opt/stolas"), "cd /opt/stolas && cargo run --bin stolas-telescope --release");
    assert_eq!(run_command("my dir"), "cd 'my dir' && cargo run --bin stolas-telescope --release");
    assert_eq!(run_command("it's!"), "cd 'it'\\''s'\\!'' && cargo run --bin stolas-telescope --release");
    assert_eq!(run_command(""), "cd '' && cargo run --bin stolas-telescope --release");
    let args = ssh_args("host", "cd /x && ls");
    assert_eq!(args, vec!["host", "sh", "-c", "'cd /x && ls'"]);
}

fn ts(secs: i64, nanos: u32) -> Timestamp {
    Timestamp { secs, nanos }
}

#[test]
fn webui_freshness() {
    assert!(is_fresh(None, None));
    assert!(is_fresh(None, Some(ts(1, 0))));
    assert!(!is_fresh(Some(ts(1, 0)), None));
    assert!(is_fresh(Some(ts(5, 10)), Some(ts(5, 10))));
    assert!(is_fresh(Some(ts(4, 999)), Some(ts(5, 0))));
    assert!(!is_fresh(Some(ts(5, 11)), Some(ts(5, 10))));
    assert!(needs_rebuild(false, None, None));
    assert!(!needs_rebuild(true, Some(ts(1, 0)), Some(ts(2, 0))));
    assert!(needs_rebuild(true, Some(ts(3, 0)), Some(ts(2, 0))));
}

#[test]
fn webui_latest_modification() {
    assert_eq!(latest_modification(&vec![]), None);
    assert_eq!(latest_modification(&vec![ts(3, 1), ts(7, 0), ts(7, 5), ts(2, 9)]), Some(ts(7, 5)));
}

#[test]
fn webui_file_names() {
    assert_eq!(wasm_file_name("stolas_webui"), "stolas_webui_bg.wasm");
    assert_eq!(js_file_name("stolas_webui"), "stolas_webui.js");
}

#[test]
fn watched_source_path_changes() {
    let p = |s: &str| s.as_bytes().to_vec();
    let current = vec![p("src/a.rs"), p("src/b.rs")];
    let new = vec![p("src/b.rs"), p("src/c.rs")];
    let (unwatch, watch) = source_path_changes(&current, &new);
    assert_eq!(unwatch, vec![p("src/a.rs")]);
    assert_eq!(watch, vec![p("src/c.rs")]);
    assert!(contains_path(&current, b"src/b.rs"));
    assert!(!contains_path(&current, b"src/c.rs"));
}

#[test]
fn watch_changes_applied_reach_new_set() {
    let p = |s: &str| s.as_bytes().to_vec();
    let current = vec![p("a"), p("b"), p("c")];
    let new = vec![p("c"), p("d")];
    let (unwatch, watch) = source_path_changes(&current, &new);
    let mut watched: Vec<Vec<u8>> = current.iter().filter(|x| !unwatch.contains(x)).cloned().collect();
    watched.extend(watch);
    watched.sort();
    assert_eq!(watched, vec![p("c"), p("d")]);
}

#[test]
fn changed_paths_merge_batches_once() {
    let p = |s: &str| s.as_bytes().to_vec();
    let mut changed = ChangedPaths::new();
    assert!(changed.paths.is_empty());
    changed.extend(&vec![p("src/a.rs"), p("src/b.rs"), p("src/a.rs")]);
    changed.extend(&vec![p("src/b.rs"), p("src/c.rs")]);
    assert_eq!(changed.paths, vec![p("src/a.rs"), p("src/b.rs"), p("src/c.rs")]);
}

#[test]
fn watch_changes_list_each_path_once() {
    let p = |s: &str| s.as_bytes().to_vec();
    let current = vec![p("a"), p("b")];
    let new = vec![p("c"), p("a"), p("d")];
    let (unwatch, watch) = source_path_changes(&current, &new);
    assert_eq!(unwatch, vec![p("b")]);
    assert_eq!(watch, vec![p("c"), p("d")]);
}

#[test]
fn packet_tags_read_back() {
    assert_eq!(read_command(&config_packet(b"{\"a\":1}")), Command::Config);
    let f = Frame { serial: 9, timestamp: 0, bins: vec![] };
    assert_eq!(read_command(&frame_packet(&f)), Command::Unrecognized { tag: TAG_FRAME });
}
