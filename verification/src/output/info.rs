//! The detailed information about one process as JSON: all of it, or one
//! tab of the info panel.
use vstd::prelude::*;

use crate::json::{field_of, lemma_array_tree, lemma_member_at, lemma_object_tree, members_tree, items_tree, tree, Json, JsonTree};
use crate::models::{NetworkConnection, ProcessDetail};

use super::json::{state_json_name, state_word};

verus! {

/// The tabs of the info panel.
#[derive(Debug, Clone, Copy, PartialEq, Eq, Structural)]
pub enum InfoTab {
    Overview,
    Resources,
    Network,
    Env,
}

/// A string or null.
pub open spec fn opt_str_tree(o: Option<String>) -> JsonTree {
    match o {
        Some(s) => JsonTree::Str(s@),
        None => JsonTree::Null,
    }
}

/// A connection as a JSON object.
pub open spec fn connection_tree(c: NetworkConnection) -> JsonTree {
    JsonTree::Object(seq![
        ("proto"@, JsonTree::Str(c.proto@)),
        ("local_addr"@, JsonTree::Str(c.local_addr@)),
        ("remote_addr"@, opt_str_tree(c.remote_addr)),
        ("state"@, opt_str_tree(c.state)),
    ])
}

/// The connections as a JSON array.
pub open spec fn connections_tree(cs: Seq<NetworkConnection>) -> JsonTree {
    JsonTree::Array(Seq::new(cs.len(), |i: int| connection_tree(cs[i])))
}

/// The environment as an object of names and values; a name given twice
/// keeps its first place and its last value, as a JSON map does.
pub open spec fn env_members(env: Seq<(String, String)>) -> Seq<(Seq<char>, JsonTree)> {
    Seq::new(env.len(), |i: int| (env[i].0@, JsonTree::Str(env[i].1@)))
}

/// The environment as an array of `[name, value]` pairs.
pub open spec fn env_pairs_tree(env: Seq<(String, String)>) -> JsonTree {
    JsonTree::Array(Seq::new(env.len(), |i: int| JsonTree::Array(seq![JsonTree::Str(env[i].0@), JsonTree::Str(env[i].1@)])))
}

/// The overview tab.
pub open spec fn overview_tree(d: ProcessDetail) -> JsonTree {
    JsonTree::Object(seq![
        ("pid"@, JsonTree::Int(d.pid as i64)),
        ("ppid"@, JsonTree::Int(d.ppid as i64)),
        ("parent_name"@, JsonTree::Str(d.parent_name@)),
        ("name"@, JsonTree::Str(d.name@)),
        ("path"@, JsonTree::Str(d.path@)),
        ("cwd"@, JsonTree::Str(d.cwd@)),
        ("user"@, JsonTree::Str(d.user@)),
        ("uid"@, JsonTree::Uint(d.uid as u64)),
        ("state"@, JsonTree::Str(state_word(d.state))),
        ("nice"@, JsonTree::Int(d.nice as i64)),
        ("started_secs"@, JsonTree::Uint(d.started_secs)),
    ])
}

/// The resources tab.
pub open spec fn resources_tree(d: ProcessDetail) -> JsonTree {
    JsonTree::Object(seq![
        ("thread_count"@, JsonTree::Int(d.thread_count as i64)),
        ("virtual_size"@, JsonTree::Uint(d.virtual_size)),
        ("memory_rss"@, JsonTree::Uint(d.memory_rss)),
        ("memory_phys"@, JsonTree::Uint(d.memory_phys)),
        ("cpu_time_ns"@, JsonTree::Uint(d.cpu_time_ns)),
        ("fds"@, JsonTree::Object(seq![
            ("files"@, JsonTree::Uint(d.fd_files as u64)),
            ("sockets"@, JsonTree::Uint(d.fd_sockets as u64)),
            ("pipes"@, JsonTree::Uint(d.fd_pipes as u64)),
            ("other"@, JsonTree::Uint(d.fd_other as u64)),
            ("total"@, JsonTree::Uint(d.fd_total as u64)),
        ])),
    ])
}

/// The whole detail, fields in declaration order.
pub open spec fn detail_tree(d: ProcessDetail) -> JsonTree {
    JsonTree::Object(seq![
        ("pid"@, JsonTree::Int(d.pid as i64)),
        ("ppid"@, JsonTree::Int(d.ppid as i64)),
        ("parent_name"@, JsonTree::Str(d.parent_name@)),
        ("name"@, JsonTree::Str(d.name@)),
        ("path"@, JsonTree::Str(d.path@)),
        ("cwd"@, JsonTree::Str(d.cwd@)),
        ("user"@, JsonTree::Str(d.user@)),
        ("uid"@, JsonTree::Uint(d.uid as u64)),
        ("state"@, JsonTree::Str(state_word(d.state))),
        ("nice"@, JsonTree::Int(d.nice as i64)),
        ("started_secs"@, JsonTree::Uint(d.started_secs)),
        ("thread_count"@, JsonTree::Int(d.thread_count as i64)),
        ("virtual_size"@, JsonTree::Uint(d.virtual_size)),
        ("memory_rss"@, JsonTree::Uint(d.memory_rss)),
        ("memory_phys"@, JsonTree::Uint(d.memory_phys)),
        ("cpu_time_ns"@, JsonTree::Uint(d.cpu_time_ns)),
        ("fd_files"@, JsonTree::Uint(d.fd_files as u64)),
        ("fd_sockets"@, JsonTree::Uint(d.fd_sockets as u64)),
        ("fd_pipes"@, JsonTree::Uint(d.fd_pipes as u64)),
        ("fd_other"@, JsonTree::Uint(d.fd_other as u64)),
        ("fd_total"@, JsonTree::Uint(d.fd_total as u64)),
        ("faults"@, JsonTree::Int(d.faults as i64)),
        ("context_switches"@, JsonTree::Int(d.context_switches as i64)),
        ("syscalls_mach"@, JsonTree::Int(d.syscalls_mach as i64)),
        ("syscalls_unix"@, JsonTree::Int(d.syscalls_unix as i64)),
        ("disk_bytes_read"@, JsonTree::Uint(d.disk_bytes_read)),
        ("disk_bytes_written"@, JsonTree::Uint(d.disk_bytes_written)),
        ("network"@, connections_tree(d.network@)),
        ("environment"@, env_pairs_tree(d.environment@)),
    ])
}

/// What `--info` prints for a tab (all of the detail without one).
pub open spec fn info_tree(d: ProcessDetail, tab: Option<InfoTab>) -> JsonTree {
    match tab {
        Some(InfoTab::Overview) => overview_tree(d),
        Some(InfoTab::Resources) => resources_tree(d),
        Some(InfoTab::Network) => connections_tree(d.network@),
        Some(InfoTab::Env) => JsonTree::Object(env_members(d.environment@)),
        None => detail_tree(d),
    }
}

/// A member `key: value`.
fn member(key: &str, value: Json) -> (r: (String, Json))
    ensures
        r.0@ == key@,
        r.1 == value,
{
    (key.to_string(), value)
}

/// A string or null.
fn opt_str_json(o: &Option<String>) -> (j: Json)
    ensures
        j@ == opt_str_tree(*o),
{
    match o {
        Some(s) => Json::Str(s.clone()),
        None => Json::Null,
    }
}

/// A connection as a JSON object.
fn connection_json(c: &NetworkConnection) -> (j: Json)
    ensures
        j@ == connection_tree(*c),
{
    let m = vec![
        member("proto", Json::Str(c.proto.clone())),
        member("local_addr", Json::Str(c.local_addr.clone())),
        member("remote_addr", opt_str_json(&c.remote_addr)),
        member("state", opt_str_json(&c.state)),
    ];
    let ghost mv = m;
    let j = Json::Object(m);
    proof {
        reveal_strlit("proto");
        reveal_strlit("local_addr");
        reveal_strlit("remote_addr");
        reveal_strlit("state");
        lemma_object_tree(mv);
        assert(members_tree(mv@) =~= seq![
            ("proto"@, JsonTree::Str(c.proto@)),
            ("local_addr"@, JsonTree::Str(c.local_addr@)),
            ("remote_addr"@, opt_str_tree(c.remote_addr)),
            ("state"@, opt_str_tree(c.state)),
        ]);
    }
    j
}

/// The connections as a JSON array.
fn connections_json(cs: &Vec<NetworkConnection>) -> (j: Json)
    ensures
        j@ == connections_tree(cs@),
{
    let mut items: Vec<Json> = Vec::new();
    let mut i: usize = 0;
    while i < cs.len()
        invariant
            i <= cs@.len(),
            items@.len() == i,
            forall|k: int| 0 <= k < i ==> #[trigger] items@[k]@ == connection_tree(cs@[k]),
        decreases cs@.len() - i,
    {
        items.push(connection_json(&cs[i]));
        i = i + 1;
    }
    let ghost iv = items;
    let j = Json::Array(items);
    proof {
        lemma_array_tree(iv);
        assert forall|k: int| 0 <= k < iv@.len() implies #[trigger] tree(iv@[k]) == connection_tree(cs@[k]) by {
            assert(iv@[k]@ == connection_tree(cs@[k]));
        }
        assert(items_tree(iv@) =~= Seq::new(cs@.len(), |i: int| connection_tree(cs@[i])));
    }
    j
}

/// The environment as an object of names and values.
fn env_object(env: &Vec<(String, String)>) -> (j: Json)
    ensures
        j@ == JsonTree::Object(env_members(env@)),
{
    let mut m: Vec<(String, Json)> = Vec::new();
    let mut i: usize = 0;
    while i < env.len()
        invariant
            i <= env@.len(),
            m@.len() == i,
            forall|k: int| 0 <= k < i ==> #[trigger] m@[k].0@ == env@[k].0@ && tree(m@[k].1) == JsonTree::Str(env@[k].1@),
        decreases env@.len() - i,
    {
        let pair = (env[i].0.clone(), Json::Str(env[i].1.clone()));
        m.push(pair);
        i = i + 1;
    }
    let ghost mv = m;
    let j = Json::Object(m);
    proof {
        lemma_object_tree(mv);
        assert(members_tree(mv@) =~= env_members(env@));
    }
    j
}

/// The environment as an array of `[name, value]` pairs.
fn env_pairs(env: &Vec<(String, String)>) -> (j: Json)
    ensures
        j@ == env_pairs_tree(env@),
{
    let mut items: Vec<Json> = Vec::new();
    let mut i: usize = 0;
    while i < env.len()
        invariant
            i <= env@.len(),
            items@.len() == i,
            forall|k: int| 0 <= k < i ==> #[trigger] tree(items@[k])
                == JsonTree::Array(seq![JsonTree::Str(env@[k].0@), JsonTree::Str(env@[k].1@)]),
        decreases env@.len() - i,
    {
        let pair = vec![Json::Str(env[i].0.clone()), Json::Str(env[i].1.clone())];
        let ghost pv = pair;
        let item = Json::Array(pair);
        proof {
            lemma_array_tree(pv);
            assert(items_tree(pv@) =~= seq![JsonTree::Str(env@[i as int].0@), JsonTree::Str(env@[i as int].1@)]);
        }
        items.push(item);
        i = i + 1;
    }
    let ghost iv = items;
    let j = Json::Array(items);
    proof {
        lemma_array_tree(iv);
        assert(items_tree(iv@) =~= Seq::new(
            env@.len(),
            |i: int| JsonTree::Array(seq![JsonTree::Str(env@[i].0@), JsonTree::Str(env@[i].1@)]),
        ));
    }
    j
}

/// What `--info` prints for a tab, as JSON.
pub fn info_json(d: &ProcessDetail, tab: Option<InfoTab>) -> (j: Json)
    ensures
        j@ == info_tree(*d, tab),
{
    match tab {
        Some(InfoTab::Overview) => {
            let m = vec![
                member("pid", Json::Int(d.pid as i64)),
                member("ppid", Json::Int(d.ppid as i64)),
                member("parent_name", Json::Str(d.parent_name.clone())),
                member("name", Json::Str(d.name.clone())),
                member("path", Json::Str(d.path.clone())),
                member("cwd", Json::Str(d.cwd.clone())),
                member("user", Json::Str(d.user.clone())),
                member("uid", Json::Uint(d.uid as u64)),
                member("state", Json::Str(state_json_name(d.state).to_string())),
                member("nice", Json::Int(d.nice as i64)),
                member("started_secs", Json::Uint(d.started_secs)),
            ];
            let ghost mv = m;
            let j = Json::Object(m);
            proof {
                reveal_strlit("pid");
                reveal_strlit("ppid");
                reveal_strlit("parent_name");
                reveal_strlit("name");
                reveal_strlit("path");
                reveal_strlit("cwd");
                reveal_strlit("user");
                reveal_strlit("uid");
                reveal_strlit("state");
                reveal_strlit("nice");
                reveal_strlit("started_secs");
                lemma_object_tree(mv);
                assert(members_tree(mv@) =~= overview_tree(*d)->Object_0);
            }
            j
        },
        Some(InfoTab::Resources) => {
            let fm = vec![
                member("files", Json::Uint(d.fd_files as u64)),
                member("sockets", Json::Uint(d.fd_sockets as u64)),
                member("pipes", Json::Uint(d.fd_pipes as u64)),
                member("other", Json::Uint(d.fd_other as u64)),
                member("total", Json::Uint(d.fd_total as u64)),
            ];
            let ghost fmv = fm;
            let fds = Json::Object(fm);
            let m = vec![
                member("thread_count", Json::Int(d.thread_count as i64)),
                member("virtual_size", Json::Uint(d.virtual_size)),
                member("memory_rss", Json::Uint(d.memory_rss)),
                member("memory_phys", Json::Uint(d.memory_phys)),
                member("cpu_time_ns", Json::Uint(d.cpu_time_ns)),
                member("fds", fds),
            ];
            let ghost mv = m;
            let j = Json::Object(m);
            proof {
                reveal_strlit("files");
                reveal_strlit("sockets");
                reveal_strlit("pipes");
                reveal_strlit("other");
                reveal_strlit("total");
                reveal_strlit("thread_count");
                reveal_strlit("virtual_size");
                reveal_strlit("memory_rss");
                reveal_strlit("memory_phys");
                reveal_strlit("cpu_time_ns");
                reveal_strlit("fds");
                lemma_object_tree(fmv);
                assert(members_tree(fmv@) =~= seq![
                    ("files"@, JsonTree::Uint(d.fd_files as u64)),
                    ("sockets"@, JsonTree::Uint(d.fd_sockets as u64)),
                    ("pipes"@, JsonTree::Uint(d.fd_pipes as u64)),
                    ("other"@, JsonTree::Uint(d.fd_other as u64)),
                    ("total"@, JsonTree::Uint(d.fd_total as u64)),
                ]);
                lemma_object_tree(mv);
                assert(members_tree(mv@) =~= resources_tree(*d)->Object_0);
            }
            j
        },
        Some(InfoTab::Network) => connections_json(&d.network),
        Some(InfoTab::Env) => env_object(&d.environment),
        None => detail_json(d),
    }
}

/// The whole detail as JSON.
fn detail_json(d: &ProcessDetail) -> (j: Json)
    ensures
        j@ == detail_tree(*d),
{
    let m = vec![
        member("pid", Json::Int(d.pid as i64)),
        member("ppid", Json::Int(d.ppid as i64)),
        member("parent_name", Json::Str(d.parent_name.clone())),
        member("name", Json::Str(d.name.clone())),
        member("path", Json::Str(d.path.clone())),
        member("cwd", Json::Str(d.cwd.clone())),
        member("user", Json::Str(d.user.clone())),
        member("uid", Json::Uint(d.uid as u64)),
        member("state", Json::Str(state_json_name(d.state).to_string())),
        member("nice", Json::Int(d.nice as i64)),
        member("started_secs", Json::Uint(d.started_secs)),
        member("thread_count", Json::Int(d.thread_count as i64)),
        member("virtual_size", Json::Uint(d.virtual_size)),
        member("memory_rss", Json::Uint(d.memory_rss)),
        member("memory_phys", Json::Uint(d.memory_phys)),
        member("cpu_time_ns", Json::Uint(d.cpu_time_ns)),
        member("fd_files", Json::Uint(d.fd_files as u64)),
        member("fd_sockets", Json::Uint(d.fd_sockets as u64)),
        member("fd_pipes", Json::Uint(d.fd_pipes as u64)),
        member("fd_other", Json::Uint(d.fd_other as u64)),
        member("fd_total", Json::Uint(d.fd_total as u64)),
        member("faults", Json::Int(d.faults as i64)),
        member("context_switches", Json::Int(d.context_switches as i64)),
        member("syscalls_mach", Json::Int(d.syscalls_mach as i64)),
        member("syscalls_unix", Json::Int(d.syscalls_unix as i64)),
        member("disk_bytes_read", Json::Uint(d.disk_bytes_read)),
        member("disk_bytes_written", Json::Uint(d.disk_bytes_written)),
        member("network", connections_json(&d.network)),
        member("environment", env_pairs(&d.environment)),
    ];
    let ghost mv = m;
    let j = Json::Object(m);
    proof {
        reveal_strlit("pid");
        reveal_strlit("ppid");
        reveal_strlit("parent_name");
        reveal_strlit("name");
        reveal_strlit("path");
        reveal_strlit("cwd");
        reveal_strlit("user");
        reveal_strlit("uid");
        reveal_strlit("state");
        reveal_strlit("nice");
        reveal_strlit("started_secs");
        reveal_strlit("thread_count");
        reveal_strlit("virtual_size");
        reveal_strlit("memory_rss");
        reveal_strlit("memory_phys");
        reveal_strlit("cpu_time_ns");
        reveal_strlit("fd_files");
        reveal_strlit("fd_sockets");
        reveal_strlit("fd_pipes");
        reveal_strlit("fd_other");
        reveal_strlit("fd_total");
        reveal_strlit("faults");
        reveal_strlit("context_switches");
        reveal_strlit("syscalls_mach");
        reveal_strlit("syscalls_unix");
        reveal_strlit("disk_bytes_read");
        reveal_strlit("disk_bytes_written");
        reveal_strlit("network");
        reveal_strlit("environment");
        lemma_object_tree(mv);
        assert(members_tree(mv@) =~= detail_tree(*d)->Object_0);
    }
    j
}

/// Appends the pretty JSON of what `--info` prints for a tab to `writer`;
/// it always succeeds.
pub fn format_info(d: &ProcessDetail, tab: Option<InfoTab>, writer: &mut Vec<u8>) -> (r: Result<(), crate::error::PrexpError>)
    ensures
        r is Ok,
        final(writer)@ == old(writer)@ + crate::json::pretty_text(info_tree(*d, tab)),
{
    let j = info_json(d, tab);
    match crate::json::to_pretty(&j) {
        Ok(bytes) => {
            let mut i: usize = 0;
            while i < bytes.len()
                invariant
                    i <= bytes@.len(),
                    writer@ == old(writer)@ + bytes@.take(i as int),
                decreases bytes@.len() - i,
            {
                writer.push(bytes[i]);
                i = i + 1;
                assert(writer@ =~= old(writer)@ + bytes@.take(i as int));
            }
            assert(bytes@.take(i as int) =~= bytes@);
            Ok(())
        },
        Err(msg) => Err(crate::error::PrexpError::Serialization(msg)),
    }
}

/// The overview tab shows, under each name, the detail's field of that
/// name, and nothing else.
pub proof fn lemma_overview_fields(d: ProcessDetail)
    ensures
        ({
            let t = info_tree(d, Some(InfoTab::Overview));
            &&& t is Object && t->Object_0.len() == 11
            &&& field_of(t, "pid"@) == Some(JsonTree::Int(d.pid as i64))
            &&& field_of(t, "ppid"@) == Some(JsonTree::Int(d.ppid as i64))
            &&& field_of(t, "parent_name"@) == Some(JsonTree::Str(d.parent_name@))
            &&& field_of(t, "name"@) == Some(JsonTree::Str(d.name@))
            &&& field_of(t, "path"@) == Some(JsonTree::Str(d.path@))
            &&& field_of(t, "cwd"@) == Some(JsonTree::Str(d.cwd@))
            &&& field_of(t, "user"@) == Some(JsonTree::Str(d.user@))
            &&& field_of(t, "uid"@) == Some(JsonTree::Uint(d.uid as u64))
            &&& field_of(t, "state"@) == Some(JsonTree::Str(state_word(d.state)))
            &&& field_of(t, "nice"@) == Some(JsonTree::Int(d.nice as i64))
            &&& field_of(t, "started_secs"@) == Some(JsonTree::Uint(d.started_secs))
        }),
{
    reveal_strlit("pid");
    reveal_strlit("ppid");
    reveal_strlit("parent_name");
    reveal_strlit("name");
    reveal_strlit("path");
    reveal_strlit("cwd");
    reveal_strlit("user");
    reveal_strlit("uid");
    reveal_strlit("state");
    reveal_strlit("nice");
    reveal_strlit("started_secs");
    let ms = info_tree(d, Some(InfoTab::Overview))->Object_0;
    assert("pid"@.len() == 3 && "ppid"@.len() == 4 && "parent_name"@.len() == 11 && "name"@.len() == 4);
    assert("path"@.len() == 4 && "cwd"@.len() == 3 && "user"@.len() == 4 && "uid"@.len() == 3);
    assert("state"@.len() == 5 && "nice"@.len() == 4 && "started_secs"@.len() == 12);
    assert("ppid"@[1] == 'p' && "path"@[1] == 'a' && "name"@[1] == 'a' && "user"@[0] == 'u' && "nice"@[0] == 'n');
    assert("pid"@[0] == 'p' && "cwd"@[0] == 'c' && "uid"@[0] == 'u' && "name"@[0] == 'n' && "path"@[0] == 'p');
    lemma_member_at(ms, 0, "pid"@);
    lemma_member_at(ms, 1, "ppid"@);
    lemma_member_at(ms, 2, "parent_name"@);
    lemma_member_at(ms, 3, "name"@);
    lemma_member_at(ms, 4, "path"@);
    lemma_member_at(ms, 5, "cwd"@);
    lemma_member_at(ms, 6, "user"@);
    lemma_member_at(ms, 7, "uid"@);
    lemma_member_at(ms, 8, "state"@);
    lemma_member_at(ms, 9, "nice"@);
    lemma_member_at(ms, 10, "started_secs"@);
}

/// The whole detail shows, under each name, the field of that name: the
/// numbers, texts and state as they are, the connections and the
/// environment as their own JSON.
pub proof fn lemma_detail_fields(d: ProcessDetail)
    ensures
        ({
            let t = info_tree(d, None);
            &&& t is Object && t->Object_0.len() == 29
            &&& field_of(t, "pid"@) == Some(JsonTree::Int(d.pid as i64))
            &&& field_of(t, "ppid"@) == Some(JsonTree::Int(d.ppid as i64))
            &&& field_of(t, "parent_name"@) == Some(JsonTree::Str(d.parent_name@))
            &&& field_of(t, "name"@) == Some(JsonTree::Str(d.name@))
            &&& field_of(t, "path"@) == Some(JsonTree::Str(d.path@))
            &&& field_of(t, "cwd"@) == Some(JsonTree::Str(d.cwd@))
            &&& field_of(t, "user"@) == Some(JsonTree::Str(d.user@))
            &&& field_of(t, "uid"@) == Some(JsonTree::Uint(d.uid as u64))
            &&& field_of(t, "state"@) == Some(JsonTree::Str(state_word(d.state)))
            &&& field_of(t, "nice"@) == Some(JsonTree::Int(d.nice as i64))
            &&& field_of(t, "started_secs"@) == Some(JsonTree::Uint(d.started_secs))
            &&& field_of(t, "thread_count"@) == Some(JsonTree::Int(d.thread_count as i64))
            &&& field_of(t, "virtual_size"@) == Some(JsonTree::Uint(d.virtual_size))
            &&& field_of(t, "memory_rss"@) == Some(JsonTree::Uint(d.memory_rss))
            &&& field_of(t, "memory_phys"@) == Some(JsonTree::Uint(d.memory_phys))
            &&& field_of(t, "cpu_time_ns"@) == Some(JsonTree::Uint(d.cpu_time_ns))
            &&& field_of(t, "fd_files"@) == Some(JsonTree::Uint(d.fd_files as u64))
            &&& field_of(t, "fd_sockets"@) == Some(JsonTree::Uint(d.fd_sockets as u64))
            &&& field_of(t, "fd_pipes"@) == Some(JsonTree::Uint(d.fd_pipes as u64))
            &&& field_of(t, "fd_other"@) == Some(JsonTree::Uint(d.fd_other as u64))
            &&& field_of(t, "fd_total"@) == Some(JsonTree::Uint(d.fd_total as u64))
            &&& field_of(t, "faults"@) == Some(JsonTree::Int(d.faults as i64))
            &&& field_of(t, "context_switches"@) == Some(JsonTree::Int(d.context_switches as i64))
            &&& field_of(t, "syscalls_mach"@) == Some(JsonTree::Int(d.syscalls_mach as i64))
            &&& field_of(t, "syscalls_unix"@) == Some(JsonTree::Int(d.syscalls_unix as i64))
            &&& field_of(t, "disk_bytes_read"@) == Some(JsonTree::Uint(d.disk_bytes_read))
            &&& field_of(t, "disk_bytes_written"@) == Some(JsonTree::Uint(d.disk_bytes_written))
            &&& field_of(t, "network"@) == Some(connections_tree(d.network@))
            &&& field_of(t, "environment"@) == Some(env_pairs_tree(d.environment@))
        }),
{
    reveal_strlit("pid");
    reveal_strlit("ppid");
    reveal_strlit("parent_name");
    reveal_strlit("name");
    reveal_strlit("path");
    reveal_strlit("cwd");
    reveal_strlit("user");
    reveal_strlit("uid");
    reveal_strlit("state");
    reveal_strlit("nice");
    reveal_strlit("started_secs");
    reveal_strlit("thread_count");
    reveal_strlit("virtual_size");
    reveal_strlit("memory_rss");
    reveal_strlit("memory_phys");
    reveal_strlit("cpu_time_ns");
    reveal_strlit("fd_files");
    reveal_strlit("fd_sockets");
    reveal_strlit("fd_pipes");
    reveal_strlit("fd_other");
    reveal_strlit("fd_total");
    reveal_strlit("faults");
    reveal_strlit("context_switches");
    reveal_strlit("syscalls_mach");
    reveal_strlit("syscalls_unix");
    reveal_strlit("disk_bytes_read");
    reveal_strlit("disk_bytes_written");
    reveal_strlit("network");
    reveal_strlit("environment");
    assert("pid"@.len() == 3 && "ppid"@.len() == 4 && "parent_name"@.len() == 11 && "name"@.len() == 4);
    assert("path"@.len() == 4 && "cwd"@.len() == 3 && "user"@.len() == 4 && "uid"@.len() == 3);
    assert("state"@.len() == 5 && "nice"@.len() == 4 && "started_secs"@.len() == 12 && "thread_count"@.len() == 12);
    assert("virtual_size"@.len() == 12 && "memory_rss"@.len() == 10 && "memory_phys"@.len() == 11 && "cpu_time_ns"@.len() == 11);
    assert("fd_files"@.len() == 8 && "fd_sockets"@.len() == 10 && "fd_pipes"@.len() == 8 && "fd_other"@.len() == 8);
    assert("fd_total"@.len() == 8 && "faults"@.len() == 6 && "context_switches"@.len() == 16 && "syscalls_mach"@.len() == 13);
    assert("syscalls_unix"@.len() == 13 && "disk_bytes_read"@.len() == 15 && "disk_bytes_written"@.len() == 18 && "network"@.len() == 7);
    assert("environment"@.len() == 11 && "pid"@[0] == 'p' && "cwd"@[0] == 'c' && "uid"@[0] == 'u');
    assert("ppid"@[0] == 'p' && "name"@[0] == 'n' && "ppid"@[1] == 'p' && "path"@[1] == 'a');
    assert("user"@[0] == 'u' && "nice"@[0] == 'n' && "parent_name"@[0] == 'p' && "memory_phys"@[0] == 'm');
    assert("cpu_time_ns"@[0] == 'c' && "environment"@[0] == 'e' && "path"@[0] == 'p' && "name"@[1] == 'a');
    assert("nice"@[1] == 'i' && "started_secs"@[0] == 's' && "thread_count"@[0] == 't' && "virtual_size"@[0] == 'v');
    assert("memory_rss"@[0] == 'm' && "fd_sockets"@[0] == 'f' && "fd_files"@[3] == 'f' && "fd_pipes"@[3] == 'p');
    assert("fd_other"@[3] == 'o' && "fd_total"@[3] == 't' && "syscalls_mach"@[9] == 'm' && "syscalls_unix"@[9] == 'u');
    let ms = info_tree(d, None)->Object_0;
    lemma_member_at(ms, 0, "pid"@);
    lemma_member_at(ms, 1, "ppid"@);
    lemma_member_at(ms, 2, "parent_name"@);
    lemma_member_at(ms, 3, "name"@);
    lemma_member_at(ms, 4, "path"@);
    lemma_member_at(ms, 5, "cwd"@);
    lemma_member_at(ms, 6, "user"@);
    lemma_member_at(ms, 7, "uid"@);
    lemma_member_at(ms, 8, "state"@);
    lemma_member_at(ms, 9, "nice"@);
    lemma_member_at(ms, 10, "started_secs"@);
    lemma_member_at(ms, 11, "thread_count"@);
    lemma_member_at(ms, 12, "virtual_size"@);
    lemma_member_at(ms, 13, "memory_rss"@);
    lemma_member_at(ms, 14, "memory_phys"@);
    lemma_member_at(ms, 15, "cpu_time_ns"@);
    lemma_member_at(ms, 16, "fd_files"@);
    lemma_member_at(ms, 17, "fd_sockets"@);
    lemma_member_at(ms, 18, "fd_pipes"@);
    lemma_member_at(ms, 19, "fd_other"@);
    lemma_member_at(ms, 20, "fd_total"@);
    lemma_member_at(ms, 21, "faults"@);
    lemma_member_at(ms, 22, "context_switches"@);
    lemma_member_at(ms, 23, "syscalls_mach"@);
    lemma_member_at(ms, 24, "syscalls_unix"@);
    lemma_member_at(ms, 25, "disk_bytes_read"@);
    lemma_member_at(ms, 26, "disk_bytes_written"@);
    lemma_member_at(ms, 27, "network"@);
    lemma_member_at(ms, 28, "environment"@);
}

/// The resources tab shows the thread count and memory figures under their
/// names, and the descriptor counts by kind under "fds".
pub proof fn lemma_resources_fields(d: ProcessDetail)
    ensures
        ({
            let t = info_tree(d, Some(InfoTab::Resources));
            let f = field_of(t, "fds"@)->Some_0;
            &&& t is Object && t->Object_0.len() == 6
            &&& field_of(t, "thread_count"@) == Some(JsonTree::Int(d.thread_count as i64))
            &&& field_of(t, "virtual_size"@) == Some(JsonTree::Uint(d.virtual_size))
            &&& field_of(t, "memory_rss"@) == Some(JsonTree::Uint(d.memory_rss))
            &&& field_of(t, "memory_phys"@) == Some(JsonTree::Uint(d.memory_phys))
            &&& field_of(t, "cpu_time_ns"@) == Some(JsonTree::Uint(d.cpu_time_ns))
            &&& field_of(t, "fds"@) is Some && f is Object && f->Object_0.len() == 5
            &&& field_of(f, "files"@) == Some(JsonTree::Uint(d.fd_files as u64))
            &&& field_of(f, "sockets"@) == Some(JsonTree::Uint(d.fd_sockets as u64))
            &&& field_of(f, "pipes"@) == Some(JsonTree::Uint(d.fd_pipes as u64))
            &&& field_of(f, "other"@) == Some(JsonTree::Uint(d.fd_other as u64))
            &&& field_of(f, "total"@) == Some(JsonTree::Uint(d.fd_total as u64))
        }),
{
    reveal_strlit("thread_count");
    reveal_strlit("virtual_size");
    reveal_strlit("memory_rss");
    reveal_strlit("memory_phys");
    reveal_strlit("cpu_time_ns");
    reveal_strlit("fds");
    assert("thread_count"@.len() == 12 && "virtual_size"@.len() == 12 && "memory_rss"@.len() == 10 && "memory_phys"@.len() == 11);
    assert("cpu_time_ns"@.len() == 11 && "fds"@.len() == 3 && "thread_count"@[0] == 't' && "virtual_size"@[0] == 'v');
    assert("memory_phys"@[0] == 'm' && "cpu_time_ns"@[0] == 'c');
    let ms = info_tree(d, Some(InfoTab::Resources))->Object_0;
    lemma_member_at(ms, 0, "thread_count"@);
    lemma_member_at(ms, 1, "virtual_size"@);
    lemma_member_at(ms, 2, "memory_rss"@);
    lemma_member_at(ms, 3, "memory_phys"@);
    lemma_member_at(ms, 4, "cpu_time_ns"@);
    lemma_member_at(ms, 5, "fds"@);
    reveal_strlit("files");
    reveal_strlit("sockets");
    reveal_strlit("pipes");
    reveal_strlit("other");
    reveal_strlit("total");
    assert("files"@.len() == 5 && "sockets"@.len() == 7 && "pipes"@.len() == 5 && "other"@.len() == 5);
    assert("total"@.len() == 5 && "files"@[0] == 'f' && "pipes"@[0] == 'p' && "other"@[0] == 'o');
    assert("total"@[0] == 't');
    let fs = ms[5].1->Object_0;
    lemma_member_at(fs, 0, "files"@);
    lemma_member_at(fs, 1, "sockets"@);
    lemma_member_at(fs, 2, "pipes"@);
    lemma_member_at(fs, 3, "other"@);
    lemma_member_at(fs, 4, "total"@);
}

/// A connection's object shows its protocol, addresses and state under
/// their names, with null for a missing remote address or state.
pub proof fn lemma_connection_fields(c: NetworkConnection)
    ensures
        ({
            let t = connection_tree(c);
            &&& t is Object && t->Object_0.len() == 4
            &&& field_of(t, "proto"@) == Some(JsonTree::Str(c.proto@))
            &&& field_of(t, "local_addr"@) == Some(JsonTree::Str(c.local_addr@))
            &&& field_of(t, "remote_addr"@) == Some(opt_str_tree(c.remote_addr))
            &&& field_of(t, "state"@) == Some(opt_str_tree(c.state))
        }),
{
    reveal_strlit("proto");
    reveal_strlit("local_addr");
    reveal_strlit("remote_addr");
    reveal_strlit("state");
    assert("proto"@.len() == 5 && "local_addr"@.len() == 10 && "remote_addr"@.len() == 11 && "state"@.len() == 5);
    assert("proto"@[0] == 'p' && "state"@[0] == 's');
    let ms = connection_tree(c)->Object_0;
    lemma_member_at(ms, 0, "proto"@);
    lemma_member_at(ms, 1, "local_addr"@);
    lemma_member_at(ms, 2, "remote_addr"@);
    lemma_member_at(ms, 3, "state"@);
}

/// The network tab lists the connections in order, one object each.
pub proof fn lemma_network_tab(d: ProcessDetail)
    ensures
        info_tree(d, Some(InfoTab::Network)) is Array,
        info_tree(d, Some(InfoTab::Network))->Array_0.len() == d.network@.len(),
        forall|i: int| 0 <= i < d.network@.len()
            ==> #[trigger] info_tree(d, Some(InfoTab::Network))->Array_0[i] == connection_tree(d.network@[i]),
{
}

} // verus!
