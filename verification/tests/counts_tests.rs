use node_monitor::counts::{derive_monitor_counts, determine_gpu_check_count, get_gpu_check_count};

#[test]
fn model_counts_match_table() {
    assert_eq!(get_gpu_check_count("NVIDIA GeForce RTX 5090"), 20);
    assert_eq!(get_gpu_check_count("NVIDIA RTX A6000"), 20);
    assert_eq!(get_gpu_check_count("NVIDIA GeForce RTX 4090"), 20);
    assert_eq!(get_gpu_check_count("NVIDIA GeForce RTX 3090"), 60);
    assert_eq!(get_gpu_check_count("NVIDIA A10"), 60);
    assert_eq!(get_gpu_check_count("Tesla V100"), 60);
    assert_eq!(get_gpu_check_count(""), 60);
}

#[test]
fn model_match_is_case_insensitive() {
    assert_eq!(get_gpu_check_count("nvidia geforce rtx 5090"), 20);
    assert_eq!(get_gpu_check_count("rtx a6000"), 20);
    assert_eq!(get_gpu_check_count("a10"), 60);
}

#[test]
fn failed_query_means_unbounded() {
    assert_eq!(determine_gpu_check_count(None), 144000);
}

#[test]
fn empty_query_output_means_unbounded() {
    assert_eq!(determine_gpu_check_count(Some("")), 144000);
}

#[test]
fn smallest_model_count_wins() {
    let out = "0, NVIDIA GeForce RTX 3090\n1, NVIDIA GeForce RTX 4090";
    assert_eq!(determine_gpu_check_count(Some(out)), 20);
    let out = "0, NVIDIA A10\n1, NVIDIA GeForce RTX 3090";
    assert_eq!(determine_gpu_check_count(Some(out)), 60);
}

#[test]
fn single_gpu_line() {
    assert_eq!(determine_gpu_check_count(Some("0, NVIDIA GeForce RTX 5090")), 20);
}

#[test]
fn lines_without_second_field_fall_back_to_default() {
    assert_eq!(determine_gpu_check_count(Some("garbage")), 60);
}

#[test]
fn field_is_trimmed_before_matching() {
    assert_eq!(determine_gpu_check_count(Some("0,   NVIDIA RTX A6000  ")), 20);
}

#[test]
fn debug_partition_disables_both_signals() {
    assert_eq!(derive_monitor_counts("debug", None), (144000, 144000));
    assert_eq!(
        derive_monitor_counts("Debug-Queue", Some("0, NVIDIA GeForce RTX 4090")),
        (144000, 144000)
    );
}

#[test]
fn gpu_partition_gets_unbounded_cpu() {
    assert_eq!(
        derive_monitor_counts("gpu-a100", Some("0, NVIDIA GeForce RTX 4090")),
        (20, 144000)
    );
    assert_eq!(derive_monitor_counts("GPU", None), (144000, 144000));
}

#[test]
fn other_partitions_get_default_cpu_count() {
    assert_eq!(
        derive_monitor_counts("cpu-part", Some("0, NVIDIA GeForce RTX 3090")),
        (60, 60)
    );
    assert_eq!(derive_monitor_counts("batch", None), (144000, 60));
}
