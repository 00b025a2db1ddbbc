//! The JSON format: the snapshots as an array of objects, pretty printed.
use vstd::prelude::*;

use crate::error::PrexpError;
use crate::json::{field_of, items_tree, lemma_array_tree, lemma_member_at, lemma_object_tree, members_tree, pretty_text, to_pretty, tree, Json, JsonTree};
use crate::models::{
    DiskIo, OpenResource, ProcessActivity, ProcessMemory, ProcessSnapshot, ProcessState, kind_name,
};

verus! {

/// The lowercase name of a process state, as written in JSON.
pub open spec fn state_word(s: ProcessState) -> Seq<char> {
    match s {
        ProcessState::Running => "running"@,
        ProcessState::Sleeping => "sleeping"@,
        ProcessState::Stopped => "stopped"@,
        ProcessState::Zombie => "zombie"@,
        ProcessState::Idle => "idle"@,
        ProcessState::Unknown => "unknown"@,
    }
}

/// A resource as a JSON object: descriptor, kind, path (null when none).
pub open spec fn resource_tree(r: OpenResource) -> JsonTree {
    JsonTree::Object(seq![
        ("descriptor"@, JsonTree::Int(r.descriptor as i64)),
        ("kind"@, JsonTree::Str(kind_name(r.kind))),
        ("path"@, match r.path { Some(p) => JsonTree::Str(p@), None => JsonTree::Null }),
    ])
}

/// Memory as a JSON object.
pub open spec fn memory_tree(m: ProcessMemory) -> JsonTree {
    JsonTree::Object(seq![("rss"@, JsonTree::Uint(m.rss)), ("phys"@, JsonTree::Uint(m.phys))])
}

/// Activity as a JSON object.
pub open spec fn activity_tree(a: ProcessActivity) -> JsonTree {
    JsonTree::Object(seq![
        ("cpu_time_ns"@, JsonTree::Uint(a.cpu_time_ns)),
        ("thread_count"@, JsonTree::Int(a.thread_count as i64)),
        ("faults"@, JsonTree::Int(a.faults as i64)),
        ("context_switches"@, JsonTree::Int(a.context_switches as i64)),
        ("syscalls_mach"@, JsonTree::Int(a.syscalls_mach as i64)),
        ("syscalls_unix"@, JsonTree::Int(a.syscalls_unix as i64)),
    ])
}

/// Disk counters as a JSON object.
pub open spec fn disk_tree(d: DiskIo) -> JsonTree {
    JsonTree::Object(seq![("bytes_read"@, JsonTree::Uint(d.bytes_read)), ("bytes_written"@, JsonTree::Uint(d.bytes_written))])
}

/// A snapshot as a JSON object, fields in declaration order.
pub open spec fn snapshot_tree(s: ProcessSnapshot) -> JsonTree {
    JsonTree::Object(seq![
        ("pid"@, JsonTree::Int(s.pid as i64)),
        ("ppid"@, JsonTree::Int(s.ppid as i64)),
        ("name"@, JsonTree::Str(s.name@)),
        ("state"@, JsonTree::Str(state_word(s.state))),
        ("accessible"@, JsonTree::Bool(s.accessible)),
        ("memory"@, memory_tree(s.memory)),
        ("activity"@, activity_tree(s.activity)),
        ("disk_io"@, disk_tree(s.disk_io)),
        ("resources"@, JsonTree::Array(Seq::new(s.resources@.len(), |i: int| resource_tree(s.resources@[i])))),
    ])
}

/// The snapshots as a JSON array.
pub open spec fn snapshots_tree(ss: Seq<ProcessSnapshot>) -> JsonTree {
    JsonTree::Array(Seq::new(ss.len(), |i: int| snapshot_tree(ss[i])))
}

/// A member `key: value`.
fn member(key: &str, value: Json) -> (r: (String, Json))
    ensures
        r.0@ == key@,
        r.1 == value,
{
    (key.to_string(), value)
}

/// The lowercase name of a process state.
pub fn state_json_name(s: ProcessState) -> (r: &'static str)
    ensures
        r@ == state_word(s),
{
    match s {
        ProcessState::Running => "running",
        ProcessState::Sleeping => "sleeping",
        ProcessState::Stopped => "stopped",
        ProcessState::Zombie => "zombie",
        ProcessState::Idle => "idle",
        ProcessState::Unknown => "unknown",
    }
}

/// A resource as a JSON object.
pub fn resource_json(r: &OpenResource) -> (j: Json)
    ensures
        j@ == resource_tree(*r),
{
    let path = match &r.path {
        Some(p) => Json::Str(p.clone()),
        None => Json::Null,
    };
    let m = vec![
        member("descriptor", Json::Int(r.descriptor as i64)),
        member("kind", Json::Str(r.kind.name().to_string())),
        member("path", path),
    ];
    let j = Json::Object(m);
    proof {
        reveal_strlit("descriptor");
        reveal_strlit("kind");
        reveal_strlit("path");
        lemma_object_tree(m);
        assert(members_tree(m@) =~= seq![
            ("descriptor"@, JsonTree::Int(r.descriptor as i64)),
            ("kind"@, JsonTree::Str(kind_name(r.kind))),
            ("path"@, match r.path { Some(p) => JsonTree::Str(p@), None => JsonTree::Null }),
        ]);
    }
    j
}

/// A snapshot as a JSON object.
pub fn snapshot_json(s: &ProcessSnapshot) -> (j: Json)
    ensures
        j@ == snapshot_tree(*s),
{
    let mut rs: Vec<Json> = Vec::new();
    let mut i: usize = 0;
    while i < s.resources.len()
        invariant
            i <= s.resources@.len(),
            rs@.len() == i,
            forall|k: int| 0 <= k < i ==> #[trigger] rs@[k]@ == resource_tree(s.resources@[k]),
        decreases s.resources@.len() - i,
    {
        rs.push(resource_json(&s.resources[i]));
        i = i + 1;
    }
    let ghost rv = rs;
    let resources = Json::Array(rs);
    proof {
        lemma_array_tree(rv);
        assert forall|k: int| 0 <= k < rv@.len() implies #[trigger] tree(rv@[k]) == resource_tree(s.resources@[k]) by {
            assert(rv@[k]@ == resource_tree(s.resources@[k]));
        }
        assert(items_tree(rv@) =~= Seq::new(s.resources@.len(), |i: int| resource_tree(s.resources@[i])));
    }
    let mm = vec![
        member("rss", Json::Uint(s.memory.rss)),
        member("phys", Json::Uint(s.memory.phys)),
    ];
    let ghost mmv = mm;
    let memory = Json::Object(mm);
    let am = vec![
        member("cpu_time_ns", Json::Uint(s.activity.cpu_time_ns)),
        member("thread_count", Json::Int(s.activity.thread_count as i64)),
        member("faults", Json::Int(s.activity.faults as i64)),
        member("context_switches", Json::Int(s.activity.context_switches as i64)),
        member("syscalls_mach", Json::Int(s.activity.syscalls_mach as i64)),
        member("syscalls_unix", Json::Int(s.activity.syscalls_unix as i64)),
    ];
    let ghost amv = am;
    let activity = Json::Object(am);
    let dm = vec![
        member("bytes_read", Json::Uint(s.disk_io.bytes_read)),
        member("bytes_written", Json::Uint(s.disk_io.bytes_written)),
    ];
    let ghost dmv = dm;
    let disk = Json::Object(dm);
    proof {
        reveal_strlit("rss");
        reveal_strlit("phys");
        reveal_strlit("cpu_time_ns");
        reveal_strlit("thread_count");
        reveal_strlit("faults");
        reveal_strlit("context_switches");
        reveal_strlit("syscalls_mach");
        reveal_strlit("syscalls_unix");
        reveal_strlit("bytes_read");
        reveal_strlit("bytes_written");
        lemma_object_tree(mmv);
        lemma_object_tree(amv);
        lemma_object_tree(dmv);
        assert(members_tree(mmv@) =~= seq![("rss"@, JsonTree::Uint(s.memory.rss)), ("phys"@, JsonTree::Uint(s.memory.phys))]);
        assert(members_tree(amv@) =~= seq![
            ("cpu_time_ns"@, JsonTree::Uint(s.activity.cpu_time_ns)),
            ("thread_count"@, JsonTree::Int(s.activity.thread_count as i64)),
            ("faults"@, JsonTree::Int(s.activity.faults as i64)),
            ("context_switches"@, JsonTree::Int(s.activity.context_switches as i64)),
            ("syscalls_mach"@, JsonTree::Int(s.activity.syscalls_mach as i64)),
            ("syscalls_unix"@, JsonTree::Int(s.activity.syscalls_unix as i64)),
        ]);
        assert(members_tree(dmv@) =~= seq![
            ("bytes_read"@, JsonTree::Uint(s.disk_io.bytes_read)),
            ("bytes_written"@, JsonTree::Uint(s.disk_io.bytes_written)),
        ]);
    }
    let top = vec![
        member("pid", Json::Int(s.pid as i64)),
        member("ppid", Json::Int(s.ppid as i64)),
        member("name", Json::Str(s.name.clone())),
        member("state", Json::Str(state_json_name(s.state).to_string())),
        member("accessible", Json::Bool(s.accessible)),
        member("memory", memory),
        member("activity", activity),
        member("disk_io", disk),
        member("resources", resources),
    ];
    let ghost topv = top;
    let j = Json::Object(top);
    proof {
        reveal_strlit("pid");
        reveal_strlit("ppid");
        reveal_strlit("name");
        reveal_strlit("state");
        reveal_strlit("accessible");
        reveal_strlit("memory");
        reveal_strlit("activity");
        reveal_strlit("disk_io");
        reveal_strlit("resources");
        lemma_object_tree(topv);
        assert(members_tree(topv@) =~= seq![
            ("pid"@, JsonTree::Int(s.pid as i64)),
            ("ppid"@, JsonTree::Int(s.ppid as i64)),
            ("name"@, JsonTree::Str(s.name@)),
            ("state"@, JsonTree::Str(state_word(s.state))),
            ("accessible"@, JsonTree::Bool(s.accessible)),
            ("memory"@, memory_tree(s.memory)),
            ("activity"@, activity_tree(s.activity)),
            ("disk_io"@, disk_tree(s.disk_io)),
            ("resources"@, JsonTree::Array(Seq::new(s.resources@.len(), |i: int| resource_tree(s.resources@[i])))),
        ]);
    }
    j
}

/// The snapshots as a JSON array.
pub fn snapshots_json(snapshots: &[ProcessSnapshot]) -> (j: Json)
    ensures
        j@ == snapshots_tree(snapshots@),
{
    let mut items: Vec<Json> = Vec::new();
    let mut i: usize = 0;
    while i < snapshots.len()
        invariant
            i <= snapshots@.len(),
            items@.len() == i,
            forall|k: int| 0 <= k < i ==> #[trigger] items@[k]@ == snapshot_tree(snapshots@[k]),
        decreases snapshots@.len() - i,
    {
        items.push(snapshot_json(&snapshots[i]));
        i = i + 1;
    }
    let ghost iv = items;
    let j = Json::Array(items);
    proof {
        lemma_array_tree(iv);
        assert forall|k: int| 0 <= k < iv@.len() implies #[trigger] tree(iv@[k]) == snapshot_tree(snapshots@[k]) by {
            assert(iv@[k]@ == snapshot_tree(snapshots@[k]));
        }
        assert(items_tree(iv@) =~= Seq::new(snapshots@.len(), |i: int| snapshot_tree(snapshots@[i])));
    }
    j
}

/// Appends the pretty JSON of the snapshots to `writer`; it always
/// succeeds.
pub fn format(snapshots: &[ProcessSnapshot], writer: &mut Vec<u8>) -> (r: Result<(), PrexpError>)
    ensures
        r is Ok,
        final(writer)@ == old(writer)@ + pretty_text(snapshots_tree(snapshots@)),
{
    let j = snapshots_json(snapshots);
    match to_pretty(&j) {
        Ok(bytes) => {
            let mut i: usize = 0;
            while i < bytes.len()
                invariant
                    i <= bytes@.len(),
                    writer@ == old(writer)@ + bytes@.take(i as int),
                decreases bytes@.len() - i,
            {
                writer.push(bytes[i]);
                i = i + 1;
                assert(writer@ =~= old(writer)@ + bytes@.take(i as int));
            }
            assert(bytes@.take(i as int) =~= bytes@);
            Ok(())
        },
        Err(msg) => Err(PrexpError::Serialization(msg)),
    }
}

/// A resource's object shows its descriptor, its kind word and its path
/// (null when it has none) under their names.
pub proof fn lemma_resource_fields(r: OpenResource)
    ensures
        ({
            let t = resource_tree(r);
            &&& t is Object && t->Object_0.len() == 3
            &&& field_of(t, "descriptor"@) == Some(JsonTree::Int(r.descriptor as i64))
            &&& field_of(t, "kind"@) == Some(JsonTree::Str(kind_name(r.kind)))
            &&& field_of(t, "path"@) == Some(match r.path { Some(p) => JsonTree::Str(p@), None => JsonTree::Null })
        }),
{
    reveal_strlit("descriptor");
    reveal_strlit("kind");
    reveal_strlit("path");
    assert("descriptor"@.len() == 10 && "kind"@.len() == 4 && "path"@.len() == 4 && "kind"@[0] == 'k');
    assert("path"@[0] == 'p');
    let ms = resource_tree(r)->Object_0;
    lemma_member_at(ms, 0, "descriptor"@);
    lemma_member_at(ms, 1, "kind"@);
    lemma_member_at(ms, 2, "path"@);
}

/// A snapshot's object shows its pid, parent pid, name, state word and
/// accessibility under their names, its memory, activity and disk figures
/// in objects of their own, and its resources as an array in order.
pub proof fn lemma_snapshot_fields(s: ProcessSnapshot)
    ensures
        ({
            let t = snapshot_tree(s);
            let m = field_of(t, "memory"@)->Some_0;
            let a = field_of(t, "activity"@)->Some_0;
            let d = field_of(t, "disk_io"@)->Some_0;
            let rs = field_of(t, "resources"@)->Some_0;
            &&& t is Object && t->Object_0.len() == 9
            &&& field_of(t, "pid"@) == Some(JsonTree::Int(s.pid as i64))
            &&& field_of(t, "ppid"@) == Some(JsonTree::Int(s.ppid as i64))
            &&& field_of(t, "name"@) == Some(JsonTree::Str(s.name@))
            &&& field_of(t, "state"@) == Some(JsonTree::Str(state_word(s.state)))
            &&& field_of(t, "accessible"@) == Some(JsonTree::Bool(s.accessible))
            &&& field_of(t, "memory"@) is Some && m is Object && m->Object_0.len() == 2
            &&& field_of(m, "rss"@) == Some(JsonTree::Uint(s.memory.rss))
            &&& field_of(m, "phys"@) == Some(JsonTree::Uint(s.memory.phys))
            &&& field_of(t, "activity"@) is Some && a is Object && a->Object_0.len() == 6
            &&& field_of(a, "cpu_time_ns"@) == Some(JsonTree::Uint(s.activity.cpu_time_ns))
            &&& field_of(a, "thread_count"@) == Some(JsonTree::Int(s.activity.thread_count as i64))
            &&& field_of(a, "faults"@) == Some(JsonTree::Int(s.activity.faults as i64))
            &&& field_of(a, "context_switches"@) == Some(JsonTree::Int(s.activity.context_switches as i64))
            &&& field_of(a, "syscalls_mach"@) == Some(JsonTree::Int(s.activity.syscalls_mach as i64))
            &&& field_of(a, "syscalls_unix"@) == Some(JsonTree::Int(s.activity.syscalls_unix as i64))
            &&& field_of(t, "disk_io"@) is Some && d is Object && d->Object_0.len() == 2
            &&& field_of(d, "bytes_read"@) == Some(JsonTree::Uint(s.disk_io.bytes_read))
            &&& field_of(d, "bytes_written"@) == Some(JsonTree::Uint(s.disk_io.bytes_written))
            &&& field_of(t, "resources"@) is Some && rs is Array && rs->Array_0.len() == s.resources@.len()
            &&& forall|i: int| 0 <= i < s.resources@.len() ==> #[trigger] rs->Array_0[i] == resource_tree(s.resources@[i])
        }),
{
    reveal_strlit("pid");
    reveal_strlit("ppid");
    reveal_strlit("name");
    reveal_strlit("state");
    reveal_strlit("accessible");
    reveal_strlit("memory");
    reveal_strlit("activity");
    reveal_strlit("disk_io");
    reveal_strlit("resources");
    assert("pid"@.len() == 3 && "ppid"@.len() == 4 && "name"@.len() == 4 && "state"@.len() == 5);
    assert("accessible"@.len() == 10 && "memory"@.len() == 6 && "activity"@.len() == 8 && "disk_io"@.len() == 7);
    assert("resources"@.len() == 9 && "ppid"@[0] == 'p' && "name"@[0] == 'n');
    let ms = snapshot_tree(s)->Object_0;
    lemma_member_at(ms, 0, "pid"@);
    lemma_member_at(ms, 1, "ppid"@);
    lemma_member_at(ms, 2, "name"@);
    lemma_member_at(ms, 3, "state"@);
    lemma_member_at(ms, 4, "accessible"@);
    lemma_member_at(ms, 5, "memory"@);
    lemma_member_at(ms, 6, "activity"@);
    lemma_member_at(ms, 7, "disk_io"@);
    lemma_member_at(ms, 8, "resources"@);
    reveal_strlit("rss");
    reveal_strlit("phys");
    assert("rss"@.len() == 3 && "phys"@.len() == 4);
    let mm = ms[5].1->Object_0;
    lemma_member_at(mm, 0, "rss"@);
    lemma_member_at(mm, 1, "phys"@);
    reveal_strlit("cpu_time_ns");
    reveal_strlit("thread_count");
    reveal_strlit("faults");
    reveal_strlit("context_switches");
    reveal_strlit("syscalls_mach");
    reveal_strlit("syscalls_unix");
    assert("cpu_time_ns"@.len() == 11 && "thread_count"@.len() == 12 && "faults"@.len() == 6 && "context_switches"@.len() == 16);
    assert("syscalls_mach"@.len() == 13 && "syscalls_unix"@.len() == 13 && "syscalls_mach"@[9] == 'm' && "syscalls_unix"@[9] == 'u');
    let am = ms[6].1->Object_0;
    lemma_member_at(am, 0, "cpu_time_ns"@);
    lemma_member_at(am, 1, "thread_count"@);
    lemma_member_at(am, 2, "faults"@);
    lemma_member_at(am, 3, "context_switches"@);
    lemma_member_at(am, 4, "syscalls_mach"@);
    lemma_member_at(am, 5, "syscalls_unix"@);
    reveal_strlit("bytes_read");
    reveal_strlit("bytes_written");
    assert("bytes_read"@.len() == 10 && "bytes_written"@.len() == 13);
    let dm = ms[7].1->Object_0;
    lemma_member_at(dm, 0, "bytes_read"@);
    lemma_member_at(dm, 1, "bytes_written"@);
}

/// The JSON output lists every snapshot, in order, one object each.
pub proof fn lemma_snapshots_listed(ss: Seq<ProcessSnapshot>)
    ensures
        snapshots_tree(ss) is Array,
        snapshots_tree(ss)->Array_0.len() == ss.len(),
        forall|i: int| 0 <= i < ss.len() ==> #[trigger] snapshots_tree(ss)->Array_0[i] == snapshot_tree(ss[i]),
{
}

} // verus!
