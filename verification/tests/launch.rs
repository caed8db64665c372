use qbot_with_typ::launch::{log_filter, pool_config, worker_args, Args};
use qbot_with_typ::worker::TimeLimit;

fn args() -> Args {
    Args {
        font_dir: None,
        package_path: None,
        package_cache_path: None,
        pool_size: 3,
        render_timeout: 31,
        spawn_timeout: 121,
        memory_limit: 256,
        cpu_lifetime: 60,
        no_fsize_lim: false,
        debug: false,
        qq_sandbox: false,
    }
}

#[test]
fn workers_get_the_paths_that_are_given() {
    assert_eq!(worker_args(&args()), vec!["worker", "--meter", "--max-pages", "10"]);
    let mut full = args();
    full.font_dir = Some("f".to_string());
    full.package_path = Some("p".to_string());
    full.package_cache_path = Some("c".to_string());
    assert_eq!(
        worker_args(&full),
        vec![
            "worker",
            "--meter",
            "--max-pages",
            "10",
            "--font-path",
            "f",
            "--package-path",
            "p",
            "--package-cache-path",
            "c"
        ]
    );
}

#[test]
fn pool_is_configured_from_the_arguments() {
    let config = pool_config(&args());
    assert_eq!(config.pool_size, 3);
    assert_eq!(config.render_timeout, TimeLimit::from_secs(31));
    assert_eq!(config.spawn_timeout, TimeLimit::from_secs(121));
    assert_eq!(config.memory_limit_bytes, 268435456);
    assert_eq!(config.cpu_lifetime_secs, 60);
    assert_eq!(config.fsize_limit_bytes, Some(0));
    assert_eq!(config.extra_args.len(), 4);
    assert_eq!(config.worker_bin, "typst-stdio-worker");

    let mut unlimited = args();
    unlimited.no_fsize_lim = true;
    assert_eq!(pool_config(&unlimited).fsize_limit_bytes, None);
}

#[test]
fn filter_comes_from_the_flag_or_the_environment() {
    assert_eq!(log_filter(true, Some("x".to_string())), "botrs=debug,qbot_with_typ=debug");
    assert_eq!(log_filter(false, Some("x".to_string())), "x");
    assert_eq!(log_filter(false, None), "botrs=info,qbot_with_typ=info");
}
