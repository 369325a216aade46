//! Services of plugins: processes that a plugin ships, started and stopped on
//! demand, with a log of each, and the `service` command line.

use crate::agents::{find_plugin, plugin_with};
use crate::collections::StrSet;
use crate::db::PluginRow;
use crate::manager::Installed;
use crate::plugins::{join_path, path_join};
use crate::text::{
    concat, decimal, number, opt, parse_u32, parsed, str_eq, texts, trim, trimmed,
};
use crate::tree::key;
use crate::view::{concat3, concat4};
use vstd::prelude::*;

verus! {

// ---------- places ----------

/// Where the files of the services live below the data directory.
pub open spec fn services_path(data_dir: Option<Seq<char>>) -> Seq<char> {
    let base = match data_dir {
        Some(d) => d,
        None => "."@,
    };
    path_join(path_join(base, "cordanui"@), "services"@)
}

/// Where the files of the services live.
pub fn services_dir(data_dir: Option<&str>) -> (r: String)
    ensures
        r@ == services_path(key(data_dir)),
{
    let base = match data_dir {
        Some(d) => d,
        None => ".",
    };
    join_path(join_path(base, "cordanui").as_str(), "services")
}

/// The file with the process id of a service.
pub fn pidfile_path(data_dir: Option<&str>, plugin: &str) -> (r: String)
    ensures
        r@ == path_join(services_path(key(data_dir)), plugin@ + ".pid"@),
{
    join_path(services_dir(data_dir).as_str(), concat(plugin, ".pid").as_str())
}

/// The log file of a service.
pub fn logfile_path(data_dir: Option<&str>, plugin: &str) -> (r: String)
    ensures
        r@ == path_join(services_path(key(data_dir)), plugin@ + ".log"@),
{
    join_path(services_dir(data_dir).as_str(), concat(plugin, ".log").as_str())
}

/// The process id that a pid file holds.
pub fn read_pid(text: &str) -> (r: Option<u32>)
    ensures
        match r {
            Some(n) => parsed(trimmed(text@), u32::MAX as nat) == Some(n as nat),
            None => parsed(trimmed(text@), u32::MAX as nat) is None,
        },
{
    parse_u32(trim(text).as_str())
}

/// The path that exists exactly while a process lives.
pub fn pid_alive(pid: u32) -> (r: String)
    ensures
        r@ == "/proc/"@ + decimal(pid as nat),
{
    concat("/proc/", number(pid as u64).as_str())
}

// ---------- the manager ----------

/// How a service is started.
#[derive(Debug)]
pub struct ServiceConfig {
    pub cmd: String,
    pub args: Vec<String>,
    pub addr: Option<String>,
    pub health: Option<String>,
    pub autostart: bool,
}

/// A known service: its plugin, its directory, and how it is started.
#[derive(Debug)]
pub struct Registered {
    pub plugin: String,
    pub dir: String,
    pub spec: ServiceConfig,
}

/// The log of a service, the most recent line last.
#[derive(Debug)]
pub struct ServiceLog {
    pub plugin: String,
    pub lines: Vec<String>,
}

/// The known services, those that run, and their logs.
#[derive(Debug)]
pub struct ServiceManager {
    pub running: StrSet,
    pub registry: Vec<Registered>,
    pub logs: Vec<ServiceLog>,
}

/// The most lines that a log keeps.
pub const LOG_CAP: usize = 100;

/// Where a name stands, or a negative number.
pub open spec fn place(names: Seq<Seq<char>>, name: Seq<char>) -> int
    decreases names.len(),
{
    if names.len() == 0 {
        -1
    } else if names.last() == name {
        names.len() - 1
    } else {
        place(names.drop_last(), name)
    }
}

proof fn lemma_place(names: Seq<Seq<char>>, name: Seq<char>)
    ensures
        place(names, name) < names.len(),
        place(names, name) >= 0 ==> names[place(names, name)] == name,
    decreases names.len(),
{
    if names.len() > 0 {
        lemma_place(names.drop_last(), name);
    }
}

/// The plugins of the known services.
pub open spec fn registered_names(s: Seq<Registered>) -> Seq<Seq<char>> {
    s.map_values(|r: Registered| r.plugin@)
}

/// The plugins that have a log.
pub open spec fn logged_names(s: Seq<ServiceLog>) -> Seq<Seq<char>> {
    s.map_values(|l: ServiceLog| l.plugin@)
}

/// The service of a plugin.
pub open spec fn service_of(s: Seq<Registered>, plugin: Seq<char>) -> Option<Registered> {
    let i = place(registered_names(s), plugin);
    if i >= 0 {
        Some(s[i])
    } else {
        None
    }
}

/// The log of a plugin.
pub open spec fn log_of(s: Seq<ServiceLog>, plugin: Seq<char>) -> Seq<Seq<char>> {
    let i = place(logged_names(s), plugin);
    if i >= 0 {
        texts(s[i].lines@)
    } else {
        Seq::empty()
    }
}

/// A log with one more line, of which the last hundred are kept.
pub open spec fn capped(log: Seq<Seq<char>>, line: Seq<char>) -> Seq<Seq<char>> {
    let all = log.push(line);
    if all.len() > LOG_CAP {
        all.skip(all.len() - LOG_CAP)
    } else {
        all
    }
}

/// A log never grows beyond its cap, and its last line is the newest.
pub proof fn law_log_is_capped(log: Seq<Seq<char>>, line: Seq<char>)
    requires
        log.len() <= LOG_CAP,
    ensures
        capped(log, line).len() <= LOG_CAP,
        capped(log, line).last() == line,
{
}

fn push_capped(lines: &mut Vec<String>, line: String)
    ensures
        texts(final(lines)@) == capped(texts(old(lines)@), line@),
{
    let ghost start = texts(lines@);
    let ghost text = line@;
    lines.push(line);
    assert(texts(lines@) =~= start.push(text));
    if lines.len() > LOG_CAP {
        let n: usize = lines.len();
        let kept = lines.split_off(n - LOG_CAP);
        assert(texts(kept@) =~= start.push(text).skip(n - LOG_CAP));
        *lines = kept;
    }
}

/// Whether the process of a service has ended.
#[derive(Clone, Copy, Debug, PartialEq, Eq, Structural)]
pub enum Waited {
    Exited,
    Alive,
    Failed,
}

/// What starting a service leads to.
#[derive(Debug)]
pub enum StartStep {
    /// It runs already.
    Nothing,
    /// Spawn this command with these arguments in this directory.
    Spawn { cmd: String, args: Vec<String>, dir: String },
}

impl ServiceManager {
    /// No services.
    pub fn new() -> (r: ServiceManager)
        ensures
            r.running@ == Set::<Seq<char>>::empty(),
            r.registry@.len() == 0,
            r.logs@.len() == 0,
    {
        ServiceManager { running: StrSet::new(), registry: Vec::new(), logs: Vec::new() }
    }

    fn registered_place(&self, plugin: &str) -> (r: Option<usize>)
        ensures
            match r {
                Some(i) => i == place(registered_names(self.registry@), plugin@) && i
                    < self.registry@.len(),
                None => place(registered_names(self.registry@), plugin@) < 0,
            },
    {
        let ghost names = registered_names(self.registry@);
        let mut i: usize = self.registry.len();
        assert(names.take(i as int) =~= names);
        while i > 0
            invariant
                i <= self.registry@.len(),
                names == registered_names(self.registry@),
                place(names, plugin@) == place(names.take(i as int), plugin@),
            decreases i,
        {
            assert(names.take(i as int).drop_last() =~= names.take(i - 1));
            if str_eq(self.registry[i - 1].plugin.as_str(), plugin) {
                return Some(i - 1);
            }
            i = i - 1;
        }
        None
    }

    /// Makes a service known; a later one of the same plugin replaces it.
    pub fn register(&mut self, plugin: &str, dir: &str, spec: ServiceConfig)
        ensures
            final(self).running == old(self).running,
            final(self).logs == old(self).logs,
            ({
                let s = service_of(final(self).registry@, plugin@);
                s is Some && s->0.plugin@ == plugin@ && s->0.dir@ == dir@ && s->0.spec == spec
            }),
            forall|p: Seq<char>|
                p != plugin@ ==> #[trigger] service_of(final(self).registry@, p) == service_of(
                    old(self).registry@,
                    p,
                ),
    {
        let ghost before = self.registry@;
        let ghost names = registered_names(before);
        let entry = Registered { plugin: plugin.to_owned(), dir: dir.to_owned(), spec };
        match self.registered_place(plugin) {
            Some(i) => {
                proof {
                    lemma_place(names, plugin@);
                }
                self.registry.set(i, entry);
                assert(registered_names(self.registry@) =~= names);
                assert forall|p: Seq<char>| p != plugin@ implies #[trigger] service_of(
                    self.registry@,
                    p,
                ) == service_of(before, p) by {
                    lemma_place(names, p);
                }
            },
            None => {
                self.registry.push(entry);
                assert(registered_names(self.registry@) =~= names.push(plugin@));
                assert(names.push(plugin@).drop_last() =~= names);
                assert forall|p: Seq<char>| p != plugin@ implies #[trigger] service_of(
                    self.registry@,
                    p,
                ) == service_of(before, p) by {
                    lemma_place(names, p);
                }
            },
        }
    }

    /// The service of a plugin.
    fn registered(&self, plugin: &str) -> (r: Option<&Registered>)
        ensures
            match r {
                Some(s) => service_of(self.registry@, plugin@) == Some(*s),
                None => service_of(self.registry@, plugin@) is None,
            },
    {
        match self.registered_place(plugin) {
            Some(i) => Some(&self.registry[i]),
            None => None,
        }
    }

    /// How the service of a plugin is started.
    pub fn registered_spec(&self, plugin: &str) -> (r: Option<&ServiceConfig>)
        ensures
            match r {
                Some(s) => service_of(self.registry@, plugin@) is Some && *s == service_of(
                    self.registry@,
                    plugin@,
                )->0.spec,
                None => service_of(self.registry@, plugin@) is None,
            },
    {
        match self.registered(plugin) {
            Some(s) => Some(&s.spec),
            None => None,
        }
    }

    fn log_place(&self, plugin: &str) -> (r: Option<usize>)
        ensures
            match r {
                Some(i) => i == place(logged_names(self.logs@), plugin@) && i < self.logs@.len(),
                None => place(logged_names(self.logs@), plugin@) < 0,
            },
    {
        let ghost names = logged_names(self.logs@);
        let mut i: usize = self.logs.len();
        assert(names.take(i as int) =~= names);
        while i > 0
            invariant
                i <= self.logs@.len(),
                names == logged_names(self.logs@),
                place(names, plugin@) == place(names.take(i as int), plugin@),
            decreases i,
        {
            assert(names.take(i as int).drop_last() =~= names.take(i - 1));
            if str_eq(self.logs[i - 1].plugin.as_str(), plugin) {
                return Some(i - 1);
            }
            i = i - 1;
        }
        None
    }

    fn push_log(&mut self, plugin: &str, line: String)
        ensures
            final(self).running == old(self).running,
            final(self).registry == old(self).registry,
            log_of(final(self).logs@, plugin@) == capped(log_of(old(self).logs@, plugin@), line@),
            forall|p: Seq<char>|
                p != plugin@ ==> #[trigger] log_of(final(self).logs@, p) == log_of(
                    old(self).logs@,
                    p,
                ),
    {
        let ghost before = self.logs@;
        let ghost names = logged_names(before);
        let mut lines = self.recent_logs(plugin);
        push_capped(&mut lines, line);
        let entry = ServiceLog { plugin: plugin.to_owned(), lines };
        match self.log_place(plugin) {
            Some(i) => {
                proof {
                    lemma_place(names, plugin@);
                }
                self.logs.set(i, entry);
                assert(logged_names(self.logs@) =~= names);
                assert forall|p: Seq<char>| p != plugin@ implies #[trigger] log_of(self.logs@, p)
                    == log_of(before, p) by {
                    lemma_place(names, p);
                }
            },
            None => {
                self.logs.push(entry);
                assert(logged_names(self.logs@) =~= names.push(plugin@));
                assert(names.push(plugin@).drop_last() =~= names);
                assert forall|p: Seq<char>| p != plugin@ implies #[trigger] log_of(self.logs@, p)
                    == log_of(before, p) by {
                    lemma_place(names, p);
                }
            },
        }
    }

    /// The recent lines of a service, oldest first.
    pub fn recent_logs(&self, plugin: &str) -> (r: Vec<String>)
        ensures
            texts(r@) == log_of(self.logs@, plugin@),
    {
        match self.log_place(plugin) {
            Some(i) => copy_texts(&self.logs[i].lines),
            None => {
                let none: Vec<String> = Vec::new();
                assert(texts(none@) =~= Seq::empty());
                none
            },
        }
    }

    /// Whether a service runs, given what its process says; one that has ended is
    /// forgotten.
    pub fn is_running(&mut self, plugin: &str, waited: Waited) -> (r: bool)
        ensures
            final(self).registry == old(self).registry,
            final(self).logs == old(self).logs,
            r == (old(self).running@.contains(plugin@) && waited == Waited::Alive),
            final(self).running@ == (if waited == Waited::Exited {
                old(self).running@.remove(plugin@)
            } else {
                old(self).running@
            }),
    {
        let known = self.running.contains(plugin);
        match waited {
            Waited::Exited => {
                self.running.remove(plugin);
                false
            },
            Waited::Alive => known,
            Waited::Failed => false,
        }
    }

    /// What starting the known service of a plugin leads to; an error where none is
    /// known. The extra arguments stand behind those of the service.
    pub fn start_registered(&self, plugin: &str, running: bool, extra: &Vec<String>) -> (r: Result<
        StartStep,
        String,
    >)
        ensures
            match service_of(self.registry@, plugin@) {
                Some(s) => r is Ok && (if running {
                    r->Ok_0 is Nothing
                } else {
                    r->Ok_0 matches StartStep::Spawn { cmd, args, dir } && cmd@ == s.spec.cmd@
                        && dir@ == s.dir@ && texts(args@) == texts(s.spec.args@) + texts(extra@)
                }),
                None => r is Err && r->Err_0@ == "no service registered for '"@ + plugin@ + "'"@,
            },
    {
        match self.registered(plugin) {
            Some(s) => Ok(self.start_service(running, s.dir.as_str(), &s.spec, extra)),
            None => Err(concat3("no service registered for '", plugin, "'")),
        }
    }

    /// What starting a service leads to: nothing where it runs already.
    pub fn start_service(
        &self,
        running: bool,
        dir: &str,
        spec: &ServiceConfig,
        extra: &Vec<String>,
    ) -> (r: StartStep)
        ensures
            if running {
                r is Nothing
            } else {
                r matches StartStep::Spawn { cmd, args, dir: d } && cmd@ == spec.cmd@ && d@ == dir@
                    && texts(args@) == texts(spec.args@) + texts(extra@)
            },
    {
        if running {
            return StartStep::Nothing;
        }
        let mut args = copy_texts(&spec.args);
        let mut more = copy_texts(extra);
        let ghost a = texts(args@);
        let ghost b = texts(more@);
        args.append(&mut more);
        assert(texts(args@) =~= a + b);
        StartStep::Spawn { cmd: spec.cmd.clone(), args, dir: dir.to_owned() }
    }

    /// After a service was spawned.
    pub fn service_started(&mut self, plugin: &str, pid: u32)
        ensures
            final(self).registry == old(self).registry,
            final(self).running@ == old(self).running@.insert(plugin@),
            log_of(final(self).logs@, plugin@) == capped(
                log_of(old(self).logs@, plugin@),
                "[started pid "@ + decimal(pid as nat) + "]"@,
            ),
            forall|p: Seq<char>|
                p != plugin@ ==> #[trigger] log_of(final(self).logs@, p) == log_of(
                    old(self).logs@,
                    p,
                ),
    {
        self.push_log(plugin, concat3("[started pid ", number(pid as u64).as_str(), "]"));
        self.running.insert(plugin.to_owned());
    }

    /// Stops a service: says whether it ran, and so its process is to be ended.
    pub fn stop_service(&mut self, plugin: &str) -> (r: bool)
        ensures
            final(self).registry == old(self).registry,
            r == old(self).running@.contains(plugin@),
            final(self).running@ == old(self).running@.remove(plugin@),
            log_of(final(self).logs@, plugin@) == (if r {
                capped(log_of(old(self).logs@, plugin@), "[stopped]"@)
            } else {
                log_of(old(self).logs@, plugin@)
            }),
            forall|p: Seq<char>|
                p != plugin@ ==> #[trigger] log_of(final(self).logs@, p) == log_of(
                    old(self).logs@,
                    p,
                ),
    {
        let ran = self.running.contains(plugin);
        self.running.remove(plugin);
        if ran {
            self.push_log(plugin, "[stopped]".to_string());
        }
        ran
    }
}

impl Default for ServiceManager {
    fn default() -> (r: ServiceManager)
        ensures
            r.running@ == Set::<Seq<char>>::empty(),
            r.registry@.len() == 0,
            r.logs@.len() == 0,
    {
        ServiceManager::new()
    }
}

fn copy_texts(v: &Vec<String>) -> (r: Vec<String>)
    ensures
        texts(r@) == texts(v@),
{
    let mut out: Vec<String> = Vec::new();
    for i in 0..v.len()
        invariant
            texts(out@) =~= texts(v@).take(i as int),
    {
        let ghost before = texts(out@);
        let s = v[i].clone();
        out.push(s);
        assert(texts(out@) =~= before.push(texts(v@)[i as int]));
    }
    assert(texts(v@).take(v@.len() as int) =~= texts(v@));
    out
}

/// The error of a service that could not be spawned.
pub open spec fn spawn_error_text(
    cmd: Seq<char>,
    dir: Seq<char>,
    error: Seq<char>,
    not_found: bool,
    hint: Seq<char>,
) -> Seq<char> {
    let base = "spawning '"@ + cmd + "' in "@ + dir + ": "@ + error;
    if not_found {
        base + " — binary not found in PATH. Install '"@ + cmd + "'"@ + hint
            + " or use absolute `cmd` in cordanui.toml [service]"@
    } else {
        base
    }
}

/// The error of a service that could not be spawned.
pub fn spawn_error(cmd: &str, dir: &str, error: &str, not_found: bool, hint: &str) -> (r: String)
    ensures
        r@ == spawn_error_text(cmd@, dir@, error@, not_found, hint@),
{
    let a = concat3("spawning '", cmd, "' in ");
    let base = concat4(a.as_str(), dir, ": ", error);
    if !not_found {
        return base;
    }
    let b = concat4(base.as_str(), " — binary not found in PATH. Install '", cmd, "'");
    concat3(b.as_str(), hint, " or use absolute `cmd` in cordanui.toml [service]")
}

// ---------- command line ----------

/// A subcommand of `service`.
#[derive(Debug)]
pub enum ServiceCommand {
    List,
    Start { plugin: Option<String>, extra: Vec<String> },
    Stop { plugin: Option<String> },
    Status { plugin: Option<String> },
    Unknown { name: String },
}

/// The word at a position.
pub open spec fn arg_at(args: Seq<String>, i: int) -> Option<Seq<char>> {
    if 0 <= i < args.len() {
        Some(args[i]@)
    } else {
        None
    }
}

fn get_arg(args: &Vec<String>, i: usize) -> (r: Option<String>)
    ensures
        opt(r) == arg_at(args@, i as int),
{
    if i < args.len() {
        Some(args[i].clone())
    } else {
        None
    }
}

/// The arguments from a position on, without a leading `--`.
pub open spec fn args_after(args: Seq<Seq<char>>, from: int) -> Seq<Seq<char>> {
    let rest = if from <= args.len() {
        args.skip(from)
    } else {
        Seq::empty()
    };
    if rest.len() > 0 && rest[0] == "--"@ {
        rest.skip(1)
    } else {
        rest
    }
}

/// The arguments from a position on, without a leading `--`.
pub fn args_iter_after(args: &Vec<String>, from: usize) -> (r: Vec<String>)
    ensures
        texts(r@) == args_after(texts(args@), from as int),
{
    let n: usize = args.len();
    let mut start: usize = if from <= n {
        from
    } else {
        n
    };
    if start < n {
        assert(texts(args@).skip(start as int)[0] == args@[start as int]@);
        if str_eq(args[start].as_str(), "--") {
            start = start + 1;
        }
    }
    let ghost all = texts(args@);
    let mut out: Vec<String> = Vec::new();
    let mut i: usize = start;
    while i < n
        invariant
            start <= i <= n == args@.len(),
            all == texts(args@),
            texts(out@) =~= all.subrange(start as int, i as int),
        decreases n - i,
    {
        let ghost before = texts(out@);
        let s = args[i].clone();
        out.push(s);
        assert(texts(out@) =~= before.push(all[i as int]));
        i = i + 1;
    }
    assert(texts(out@) =~= all.skip(start as int));
    if from < n {
        assert(all.skip(from as int).skip(1) =~= all.skip(from + 1));
    }
    out
}

/// The subcommand that some arguments name; none means a list.
pub fn cli_run(args: &Vec<String>) -> (r: ServiceCommand)
    ensures
        ({
            let sub = match arg_at(args@, 0) {
                Some(s) => s,
                None => "list"@,
            };
            if sub == "list"@ {
                r is List
            } else if sub == "start"@ {
                r matches ServiceCommand::Start { plugin, extra } && opt(plugin) == arg_at(args@, 1)
                    && texts(extra@) == args_after(texts(args@), 2)
            } else if sub == "stop"@ {
                r matches ServiceCommand::Stop { plugin } && opt(plugin) == arg_at(args@, 1)
            } else if sub == "status"@ {
                r matches ServiceCommand::Status { plugin } && opt(plugin) == arg_at(args@, 1)
            } else {
                r matches ServiceCommand::Unknown { name } && name@ == sub
            }
        }),
{
    let sub = match get_arg(args, 0) {
        Some(s) => s,
        None => "list".to_string(),
    };
    if str_eq(sub.as_str(), "list") {
        ServiceCommand::List
    } else if str_eq(sub.as_str(), "start") {
        ServiceCommand::Start { plugin: get_arg(args, 1), extra: args_iter_after(args, 2) }
    } else if str_eq(sub.as_str(), "stop") {
        ServiceCommand::Stop { plugin: get_arg(args, 1) }
    } else if str_eq(sub.as_str(), "status") {
        ServiceCommand::Status { plugin: get_arg(args, 1) }
    } else {
        ServiceCommand::Unknown { name: sub }
    }
}

/// What is printed for an unknown subcommand.
pub fn unknown_subcommand(name: &str) -> (r: (String, String))
    ensures
        r.0@ == "unknown subcommand '"@ + name@ + "'"@,
        r.1@
            == "usage: cordanui service list | start <plugin> [-- args...] | stop <plugin> | status <plugin>"@,
{
    (
        concat3("unknown subcommand '", name, "'"),
        "usage: cordanui service list | start <plugin> [-- args...] | stop <plugin> | status <plugin>".to_string(),
    )
}

/// The lines of the plugins that ship a service.
pub open spec fn service_lines(s: Seq<Installed>) -> Seq<Seq<char>>
    decreases s.len(),
{
    if s.len() == 0 {
        Seq::empty()
    } else {
        let p = s.last();
        let before = service_lines(s.drop_last());
        if p.manifest is Some && p.manifest->0.service_cmd is Some {
            before.push(
                p.row.id@ + "  "@ + (if p.row.active {
                    "active"@
                } else {
                    "inactive"@
                }) + "  ["@ + p.manifest->0.service_cmd->0@ + "]"@,
            )
        } else {
            before
        }
    }
}

/// What the list of services prints.
pub fn cli_list(installed: &Vec<Installed>) -> (r: Vec<String>)
    ensures
        texts(r@) == (if service_lines(installed@).len() == 0 {
            seq!["no installed plugins expose a [service]"@]
        } else {
            service_lines(installed@)
        }),
{
    let mut out: Vec<String> = Vec::new();
    assert(texts(out@) =~= Seq::empty());
    assert(installed@.take(0) =~= Seq::empty());
    for i in 0..installed.len()
        invariant
            texts(out@) == service_lines(installed@.take(i as int)),
    {
        assert(installed@.take(i + 1).drop_last() =~= installed@.take(i as int));
        let p = &installed[i];
        if let Some(m) = &p.manifest {
            if let Some(cmd) = &m.service_cmd {
                let state = if p.row.active {
                    "active"
                } else {
                    "inactive"
                };
                let a = concat4(p.row.id.as_str(), "  ", state, "  [");
                let ghost before = texts(out@);
                let line = concat3(a.as_str(), cmd.as_str(), "]");
                let ghost v = line@;
                out.push(line);
                assert(texts(out@) =~= before.push(v));
            }
        }
    }
    assert(installed@.take(installed@.len() as int) =~= installed@);
    assert(texts(out@).len() == out@.len());
    if out.len() == 0 {
        let mut none: Vec<String> = Vec::new();
        none.push("no installed plugins expose a [service]".to_string());
        assert(texts(none@) =~= seq!["no installed plugins expose a [service]"@]);
        return none;
    }
    out
}

/// The installed plugin that is to be started; an error without a name, or where
/// it is not installed.
pub fn cli_start(plugin: &Option<String>, rows: &Vec<PluginRow>) -> (r: Result<PluginRow, String>)
    ensures
        match plugin {
            None => r is Err && r->Err_0@
                == "usage: cordanui service start <plugin> [-- args...]"@,
            Some(p) => match find_plugin(rows@, p@) {
                Some(row) => r is Ok && r->Ok_0 == row,
                None => r is Err && r->Err_0@ == "plugin '"@ + p@ + "' is not installed"@,
            },
        },
{
    let name = match plugin {
        Some(p) => p,
        None => {
            return Err("usage: cordanui service start <plugin> [-- args...]".to_string());
        },
    };
    match plugin_with(rows, name.as_str()) {
        Some(row) => Ok(row.clone()),
        None => Err(concat3("plugin '", name.as_str(), "' is not installed")),
    }
}

/// The error of a plugin that ships no service.
pub fn no_service(plugin: &str) -> (r: String)
    ensures
        r@ == "plugin '"@ + plugin@ + "' declares no [service]"@,
{
    concat3("plugin '", plugin, "' declares no [service]")
}

/// The process id of a service that runs already, with what is printed.
pub fn already_running(plugin: &str, pid: Option<u32>, alive: bool) -> (r: Option<String>)
    ensures
        opt(r) == (if pid is Some && alive {
            Some(plugin@ + " already running (pid "@ + decimal(pid->0 as nat) + ")"@)
        } else {
            None
        }),
{
    match pid {
        Some(n) => {
            if alive {
                Some(concat4(plugin, " already running (pid ", number(n as u64).as_str(), ")"))
            } else {
                None
            }
        },
        None => None,
    }
}

/// What is printed after a service was started.
pub fn started_message(plugin: &str, pid: u32, logfile: &str) -> (r: String)
    ensures
        r@ == "started "@ + plugin@ + " (pid "@ + decimal(pid as nat) + ") — logs: "@ + logfile@,
{
    let a = concat4("started ", plugin, " (pid ", number(pid as u64).as_str());
    concat3(a.as_str(), ") — logs: ", logfile)
}

/// What stopping a service leads to.
#[derive(Debug)]
pub enum StopStep {
    /// Print this.
    Print(String),
    /// Remove the pid file and print this.
    Clean(String),
    /// End this process.
    Kill(u32),
}

/// What stopping a service leads to; an error without a name.
pub fn cli_stop(plugin: &Option<String>, pid: Option<u32>, alive: bool) -> (r: Result<
    StopStep,
    String,
>)
    ensures
        match plugin {
            None => r is Err && r->Err_0@ == "usage: cordanui service stop <plugin>"@,
            Some(p) => r is Ok && (match pid {
                None => r->Ok_0 matches StopStep::Print(t) && t@ == p@
                    + " is not running (no pidfile)"@,
                Some(n) => if alive {
                    r->Ok_0 == StopStep::Kill(n)
                } else {
                    r->Ok_0 matches StopStep::Clean(t) && t@ == p@
                        + " was not running (stale pidfile cleaned)"@
                },
            }),
        },
{
    let name = match plugin {
        Some(p) => p.as_str(),
        None => {
            return Err("usage: cordanui service stop <plugin>".to_string());
        },
    };
    match pid {
        None => Ok(StopStep::Print(concat(name, " is not running (no pidfile)"))),
        Some(n) => {
            if alive {
                Ok(StopStep::Kill(n))
            } else {
                Ok(StopStep::Clean(concat(name, " was not running (stale pidfile cleaned)")))
            }
        },
    }
}

/// What follows the end of a process: the pid file is removed and a line printed,
/// or an error.
pub fn killed(plugin: &str, pid: u32, success: bool) -> (r: Result<String, String>)
    ensures
        if success {
            r is Ok && r->Ok_0@ == "stopped "@ + plugin@ + " (pid "@ + decimal(pid as nat) + ")"@
        } else {
            r is Err && r->Err_0@ == "failed to kill pid "@ + decimal(pid as nat)
        },
{
    let n = number(pid as u64);
    if success {
        let a = concat4("stopped ", plugin, " (pid ", n.as_str());
        Ok(concat(a.as_str(), ")"))
    } else {
        Err(concat("failed to kill pid ", n.as_str()))
    }
}

/// The state of a service; an error without a name.
pub fn cli_status(plugin: &Option<String>, pid: Option<u32>, alive: bool) -> (r: Result<
    String,
    String,
>)
    ensures
        match plugin {
            None => r is Err && r->Err_0@ == "usage: cordanui service status <plugin>"@,
            Some(p) => r is Ok && r->Ok_0@ == (match pid {
                Some(n) => if alive {
                    p@ + " running (pid "@ + decimal(n as nat) + ")"@
                } else {
                    p@ + " not running (stale pidfile)"@
                },
                None => p@ + " not running"@,
            }),
        },
{
    let name = match plugin {
        Some(p) => p.as_str(),
        None => {
            return Err("usage: cordanui service status <plugin>".to_string());
        },
    };
    match pid {
        Some(n) => {
            if alive {
                Ok(concat4(name, " running (pid ", number(n as u64).as_str(), ")"))
            } else {
                Ok(concat(name, " not running (stale pidfile)"))
            }
        },
        None => Ok(concat(name, " not running")),
    }
}

/// A name is found at its last place, and not where it does not stand.
pub proof fn law_names_are_found(names: Seq<Seq<char>>, name: Seq<char>)
    ensures
        place(names, name) >= 0 ==> place(names, name) < names.len() && names[place(names, name)]
            == name && forall|j: int| place(names, name) < j < names.len() ==> #[trigger] names[j]
            != name,
        place(names, name) < 0 ==> forall|j: int| 0 <= j < names.len() ==> #[trigger] names[j]
            != name,
    decreases names.len(),
{
    if names.len() > 0 {
        let t = names.drop_last();
        law_names_are_found(t, name);
        assert(forall|j: int| 0 <= j < t.len() ==> t[j] == #[trigger] names[j]);
        assert(names[names.len() - 1] == names.last());
    }
}

/// The service and the log of a plugin are the ones that bear its name.
pub proof fn law_services_are_found_by_plugin(
    s: Seq<Registered>,
    logs: Seq<ServiceLog>,
    plugin: Seq<char>,
)
    ensures
        service_of(s, plugin) is Some <==> exists|i: int|
            0 <= i < s.len() && (#[trigger] s[i]).plugin@ == plugin,
        service_of(s, plugin) is Some ==> service_of(s, plugin)->0.plugin@ == plugin,
        (forall|i: int| 0 <= i < logs.len() ==> (#[trigger] logs[i]).plugin@ != plugin) ==> log_of(
            logs,
            plugin,
        ).len() == 0,
        log_of(logs, plugin).len() > 0 ==> exists|i: int|
            0 <= i < logs.len() && (#[trigger] logs[i]).plugin@ == plugin && texts(logs[i].lines@)
                == log_of(logs, plugin),
{
    let names = registered_names(s);
    law_names_are_found(names, plugin);
    assert(forall|i: int| 0 <= i < s.len() ==> names[i] == (#[trigger] s[i]).plugin@);
    if place(names, plugin) >= 0 {
        assert(s[place(names, plugin)].plugin@ == plugin);
    }
    if exists|i: int| 0 <= i < s.len() && (#[trigger] s[i]).plugin@ == plugin {
        let i = choose|i: int| 0 <= i < s.len() && (#[trigger] s[i]).plugin@ == plugin;
        assert(names[i] == plugin);
    }
    let l = logged_names(logs);
    law_names_are_found(l, plugin);
    assert(forall|i: int| 0 <= i < logs.len() ==> l[i] == (#[trigger] logs[i]).plugin@);
    if place(l, plugin) >= 0 {
        assert(logs[place(l, plugin)].plugin@ == plugin);
    }
}

/// A log keeps its newest lines, a hundred at most, in their order.
pub proof fn law_logs_keep_a_hundred_lines(log: Seq<Seq<char>>, line: Seq<char>, i: int)
    requires
        log.len() <= 100,
    ensures
        log.len() < 100 ==> capped(log, line) == log.push(line),
        log.len() == 100 ==> capped(log, line).len() == 100 && capped(log, line)[99] == line && (0
            <= i < 99 ==> capped(log, line)[i] == log[i + 1]),
{
}

/// The arguments behind a command are all that follow it, without the two dashes that may
/// stand in front of them.
pub proof fn law_arguments_follow_the_command(
    front: Seq<Seq<char>>,
    args: Seq<Seq<char>>,
)
    ensures
        args.len() == 0 || args[0] != "--"@ ==> args_after(front + args, front.len() as int) == args,
        args_after(front + seq!["--"@] + args, front.len() as int) == args,
        args_after(front, front.len() as int + 1).len() == 0,
{
    assert((front + args).skip(front.len() as int) =~= args);
    let s = front + seq!["--"@] + args;
    let rest = s.skip(front.len() as int);
    assert(rest =~= seq!["--"@] + args);
    assert(rest.skip(1) =~= args);
}

/// The list of services has a line for each plugin that ships one, with its id, its state
/// and its command.
pub proof fn law_services_are_listed(s: Seq<Installed>, k: int)
    requires
        0 <= k < s.len(),
        s[k].manifest is Some,
        s[k].manifest->0.service_cmd is Some,
    ensures
        service_lines(s).contains(
            s[k].row.id@ + "  "@ + (if s[k].row.active {
                "active"@
            } else {
                "inactive"@
            }) + "  ["@ + s[k].manifest->0.service_cmd->0@ + "]"@,
        ),
        service_lines(s).len() <= s.len(),
    decreases s.len(),
{
    let t = s.drop_last();
    lemma_service_lines(t);
    let x = s[k].row.id@ + "  "@ + (if s[k].row.active {
        "active"@
    } else {
        "inactive"@
    }) + "  ["@ + s[k].manifest->0.service_cmd->0@ + "]"@;
    if k < t.len() {
        assert(t[k] == s[k]);
        law_services_are_listed(t, k);
        let j = choose|j: int| 0 <= j < service_lines(t).len() && service_lines(t)[j] == x;
        assert(service_lines(s)[j] == x);
    } else {
        let all = service_lines(s);
        assert(all[all.len() - 1] == x);
    }
}

proof fn lemma_service_lines(s: Seq<Installed>)
    ensures
        service_lines(s).len() <= s.len(),
    decreases s.len(),
{
    if s.len() > 0 {
        lemma_service_lines(s.drop_last());
    }
}

/// The files of the services live below the data directory.
pub proof fn law_services_live_below_the_data_directory(dir: Seq<char>)
    requires
        dir.len() > 0,
        dir.last() != '/',
    ensures
        services_path(Some(dir)) == dir + "/cordanui/services"@,
        services_path(None) == "./cordanui/services"@,
{
    reveal_strlit("/");
    reveal_strlit(".");
    reveal_strlit("cordanui");
    reveal_strlit("services");
    reveal_strlit("/cordanui/services");
    reveal_strlit("./cordanui/services");
    assert(services_path(Some(dir)) =~= dir + "/cordanui/services"@);
    assert(services_path(None) =~= "./cordanui/services"@);
}

/// The error of a service that did not start names its command, its folder and the reason,
/// and tells what to do where the command was not found.
pub proof fn law_failed_starts_name_the_command(
    cmd: Seq<char>,
    dir: Seq<char>,
    error: Seq<char>,
    hint: Seq<char>,
)
    ensures
        spawn_error_text(cmd, dir, error, false, hint) == "spawning '"@ + cmd + "' in "@ + dir
            + ": "@ + error,
        spawn_error_text(cmd, dir, error, true, hint) == spawn_error_text(
            cmd,
            dir,
            error,
            false,
            hint,
        ) + " — binary not found in PATH. Install '"@ + cmd + "'"@ + hint
            + " or use absolute `cmd` in cordanui.toml [service]"@,
{
}

/// A word is found at its position, and none behind the last.
pub proof fn law_words_are_found_by_position(args: Seq<String>, i: int)
    ensures
        0 <= i < args.len() ==> arg_at(args, i) == Some(args[i]@),
        i >= args.len() ==> arg_at(args, i) is None,
{
}

} // verus!
