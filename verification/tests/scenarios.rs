use node_dashboard::format::{fit, format_size, format_uptime};
use node_dashboard::metrics::{percent, push_sample, HISTORY_SAMPLES};
use node_dashboard::procinfo::status_kib;
use node_dashboard::rpc::{base64, json_bool, json_f64_text, json_u64};
use node_dashboard::screen::physical_position;
use node_dashboard::status::Mempool;

fn json_f64(body: &str, key: &str) -> Option<f64> {
    json_f64_text(body, key).and_then(|text| text.parse().ok())
}

#[test]
fn parses_rpc_scalars_without_a_json_dependency() {
    let body = r#"{"blocks":960554,"headers":960574,"verificationprogress":0.9999,"initialblockdownload":false,"pruned":false,"size_on_disk":864053269491,"warnings":""}"#;
    assert_eq!(json_u64(body, "blocks"), Some(960554));
    assert_eq!(json_u64(body, "headers"), Some(960574));
    assert_eq!(json_bool(body, "initialblockdownload"), Some(false));
    assert_eq!(json_f64(body, "verificationprogress"), Some(0.9999));
}

#[test]
fn cookie_auth_encoding_is_stable() {
    assert_eq!(base64(b"__cookie__:abc"), "X19jb29raWVfXzphYmM=");
}

#[test]
fn parses_mempool_statistics() {
    let mempool = Mempool::from_rpc(
        r#"{"size":17,"bytes":4920,"usage":18432,"maxmempool":5000000,"mempoolminfee":0.00001000,"unbroadcastcount":2}"#,
    );
    let min_fee: f64 = mempool
        .min_fee
        .as_deref()
        .and_then(|text| text.parse().ok())
        .unwrap_or(0.0);
    assert!(mempool.available);
    assert_eq!(mempool.entries, 17);
    assert_eq!(mempool.bytes, 4920);
    assert_eq!(mempool.usage, 18432);
    assert_eq!(mempool.limit, 5_000_000);
    assert_eq!(min_fee, 0.00001);
    assert_eq!(mempool.unbroadcast, 2);
}

#[test]
fn formatting_stays_short_for_the_frame() {
    assert_eq!(format_uptime(90_061), "1d 01h 01m");
    assert_eq!(format_size(864_053_269_491), "864G");
    assert_eq!(fit("ABCDEFGHIJKLMNOPQRSTUVWXYZ", 8), "ABCDEFGH");
}

#[test]
fn logical_landscape_maps_to_the_visible_physical_strip() {
    assert_eq!(physical_position(0, 0), (1279, 0));
    assert_eq!(physical_position(1279, 479), (0, 479));
}

#[test]
fn metric_history_is_bounded_and_percent_is_safe() {
    let mut samples = Vec::new();
    for value in 0..100 {
        push_sample(&mut samples, value);
    }
    assert_eq!(samples.len(), HISTORY_SAMPLES);
    assert_eq!(samples[0], 20);
    assert_eq!(samples[HISTORY_SAMPLES - 1], 99);
    assert_eq!(percent(1, 0), 0);
    assert_eq!(percent(3, 4), 75);
}

#[test]
fn reads_core_resident_memory_from_proc_status() {
    assert_eq!(
        status_kib("Name:\tbitcoind\nVmRSS:\t115712 kB\n", "VmRSS"),
        Some(115712)
    );
    assert_eq!(status_kib("Name:\tbitcoind\n", "VmRSS"), None);
}
