//! From the command line to the configuration of the pool and of the log.

use vstd::prelude::*;
use crate::text;
use crate::worker::{PoolConfig, TimeLimit};

verus! {

/// The arguments of the program.
#[derive(Debug)]
pub struct Args {
    pub font_dir: Option<String>,
    pub package_path: Option<String>,
    pub package_cache_path: Option<String>,
    pub pool_size: usize,
    /// In seconds.
    pub render_timeout: u64,
    /// In seconds.
    pub spawn_timeout: u64,
    /// In MiB.
    pub memory_limit: u64,
    /// In seconds.
    pub cpu_lifetime: u64,
    pub no_fsize_lim: bool,
    pub debug: bool,
    pub qq_sandbox: bool,
}

/// A flag and its value, where there is one.
pub open spec fn flag(name: Seq<char>, value: Option<String>) -> Seq<Seq<char>> {
    match value {
        None => Seq::empty(),
        Some(v) => seq![name, v@],
    }
}

/// The command line of a worker.
pub open spec fn worker_command(args: Args) -> Seq<Seq<char>> {
    seq!["worker"@, "--meter"@, "--max-pages"@, "10"@] + flag("--font-path"@, args.font_dir) + flag(
        "--package-path"@,
        args.package_path,
    ) + flag("--package-cache-path"@, args.package_cache_path)
}

fn push_flag(list: &mut Vec<String>, name: &str, value: &Option<String>)
    ensures
        text::views(final(list)@) == text::views(old(list)@) + flag(name@, *value),
{
    let ghost before = text::views(list@);
    if let Some(v) = value {
        list.push(name.to_owned());
        list.push(v.clone());
        proof {
            assert(text::views(list@) == before.push(name@).push(v@));
            assert(text::views(list@) == before + flag(name@, *value));
        }
    } else {
        proof {
            assert(text::views(list@) == before + flag(name@, *value));
        }
    }
}

/// The arguments that every worker is started with.
pub fn worker_args(args: &Args) -> (r: Vec<String>)
    ensures
        text::views(r@) == worker_command(*args),
{
    let mut list: Vec<String> = Vec::new();
    list.push("worker".to_owned());
    list.push("--meter".to_owned());
    list.push("--max-pages".to_owned());
    list.push("10".to_owned());
    proof {
        assert(text::views(list@) == seq!["worker"@, "--meter"@, "--max-pages"@, "10"@]);
    }
    push_flag(&mut list, "--font-path", &args.font_dir);
    push_flag(&mut list, "--package-path", &args.package_path);
    push_flag(&mut list, "--package-cache-path", &args.package_cache_path);
    list
}

/// The configuration of the pool. The memory limit in bytes has to fit in 64 bits.
pub fn pool_config(args: &Args) -> (r: PoolConfig)
    requires
        args.memory_limit * 1024 * 1024 <= u64::MAX,
    ensures
        r.pool_size == args.pool_size,
        r.render_timeout.seconds() == args.render_timeout && r.render_timeout.subsec() == 0,
        r.spawn_timeout.seconds() == args.spawn_timeout && r.spawn_timeout.subsec() == 0,
        r.memory_limit_bytes == args.memory_limit * 1024 * 1024,
        r.cpu_lifetime_secs == args.cpu_lifetime,
        r.fsize_limit_bytes == if args.no_fsize_lim {
            None
        } else {
            Some(0u64)
        },
        text::views(r.extra_args@) == worker_command(*args),
        r.worker_bin@ == "typst-stdio-worker"@,
        configures(r, *args),
{
    let defaults: PoolConfig = Default::default();
    PoolConfig {
        pool_size: args.pool_size,
        render_timeout: TimeLimit::from_secs(args.render_timeout),
        spawn_timeout: TimeLimit::from_secs(args.spawn_timeout),
        memory_limit_bytes: args.memory_limit * 1024 * 1024,
        cpu_lifetime_secs: args.cpu_lifetime,
        fsize_limit_bytes: if args.no_fsize_lim {
            None
        } else {
            Some(0)
        },
        extra_args: worker_args(args),
        worker_bin: defaults.worker_bin,
    }
}

/// Which log lines are written: all of the bot's own with `debug`, otherwise what the environment
/// asks for, otherwise those of note.
pub fn log_filter(debug: bool, from_env: Option<String>) -> (r: String)
    ensures
        r@ == if debug {
            "botrs=debug,qbot_with_typ=debug"@
        } else {
            match from_env {
                Some(filter) => filter@,
                None => "botrs=info,qbot_with_typ=info"@,
            }
        },
        is_filter(r@, debug, from_env),
{
    if debug {
        return "botrs=debug,qbot_with_typ=debug".to_owned();
    }
    match from_env {
        Some(filter) => filter,
        None => "botrs=info,qbot_with_typ=info".to_owned(),
    }
}

/// A worker is started to meter its renders and with at most ten pages; each directory that is given
/// follows behind the flag that names it, in order, and one that is not given leaves no trace.
pub proof fn law_directories_follow_their_flags(args: Args)
    ensures
        ({
            let fixed = seq!["worker"@, "--meter"@, "--max-pages"@, "10"@];
            let fonts = match args.font_dir {
                Some(dir) => seq!["--font-path"@, dir@],
                None => Seq::empty(),
            };
            let packages = match args.package_path {
                Some(dir) => seq!["--package-path"@, dir@],
                None => Seq::empty(),
            };
            let cache = match args.package_cache_path {
                Some(dir) => seq!["--package-cache-path"@, dir@],
                None => Seq::empty(),
            };
            worker_command(args) == fixed + fonts + packages + cache
        }),
{
}

/// Whether `config` is what the arguments ask for.
pub open spec fn configures(config: PoolConfig, args: Args) -> bool {
    &&& config.pool_size == args.pool_size
    &&& config.render_timeout.seconds() == args.render_timeout
    &&& config.render_timeout.subsec() == 0
    &&& config.spawn_timeout.seconds() == args.spawn_timeout
    &&& config.spawn_timeout.subsec() == 0
    &&& config.memory_limit_bytes == args.memory_limit * 1024 * 1024
    &&& config.cpu_lifetime_secs == args.cpu_lifetime
    &&& config.fsize_limit_bytes == if args.no_fsize_lim {
        None
    } else {
        Some(0u64)
    }
    &&& text::views(config.extra_args@) == worker_command(args)
    &&& config.worker_bin@ == "typst-stdio-worker"@
}

/// The arguments reach the workers: as many are started as asked for, of the program
/// `typst-stdio-worker` with the directories that are given, each under its memory limit in bytes,
/// its lifetime in seconds and, unless that is switched off, without leave to write to files; a
/// start and a render are given the whole seconds that are asked for.
pub proof fn law_arguments_reach_the_workers(
    config: PoolConfig,
    args: Args,
    resource: crate::worker::Resource,
    value: u64,
)
    requires
        configures(config, args),
    ensures
        config.pool_size == args.pool_size,
        config.worker_bin@ == "typst-stdio-worker"@,
        text::views(config.extra_args@) == worker_command(args),
        config.render_timeout.seconds() == args.render_timeout,
        config.render_timeout.subsec() == 0,
        config.spawn_timeout.seconds() == args.spawn_timeout,
        config.spawn_timeout.subsec() == 0,
        crate::worker::limits_of(config).contains((resource, value)) <==> match resource {
            crate::worker::Resource::AddressSpace => value == args.memory_limit * 0x10_0000,
            crate::worker::Resource::CpuSeconds => value == args.cpu_lifetime,
            crate::worker::Resource::FileSize => !args.no_fsize_lim && value == 0,
        },
{
    crate::worker::law_limits_are_those_asked_for(config, resource, value);
}

/// Whether `filter` names the log lines to write.
pub open spec fn is_filter(filter: Seq<char>, debug: bool, from_env: Option<String>) -> bool {
    filter == if debug {
        "botrs=debug,qbot_with_typ=debug"@
    } else {
        match from_env {
            Some(asked) => asked@,
            None => "botrs=info,qbot_with_typ=info"@,
        }
    }
}

/// The switch for debugging goes before what the environment asks for, and that, word for word,
/// before the default.
pub proof fn law_switch_goes_before_environment(
    filter: Seq<char>,
    debug: bool,
    from_env: Option<String>,
)
    requires
        is_filter(filter, debug, from_env),
    ensures
        debug ==> filter == "botrs=debug,qbot_with_typ=debug"@,
        !debug && from_env is Some ==> filter == from_env->0@,
        !debug && from_env is None ==> filter == "botrs=info,qbot_with_typ=info"@,
{
}

} // verus!
