//! Session index bookkeeping: where sessions live, how an entry is created,
//! updated, removed and pruned, and which sessions look crashed.
use vstd::prelude::*;
use vstd::string::*;

use crate::hitl::types::{metas_view, SessionMeta, SessionMetaView, SessionStatus};
use crate::outside::{is_uuid_char, new_uuid_text, now_rfc3339};
use crate::text::{chars_of, contains_string, join_path, path_join, starts_with, str_eq, string_from_prefix};

verus! {

#[derive(Debug)]
pub enum SessionError {
    Io(std::io::Error),
    Serde(serde_json::Error),
    NotFound(String),
}

/// Directory that holds the sessions of a project.
pub fn sessions_dir(project_dir: &str) -> (r: String)
    ensures
        r@ == path_join(project_dir@, ".arcana/sessions"@),
{
    join_path(project_dir, ".arcana/sessions")
}

/// Path of the session index file of a project.
pub fn index_path(project_dir: &str) -> (r: String)
    ensures
        r@ == path_join(path_join(project_dir@, ".arcana/sessions"@), "index.json"@),
{
    let d = sessions_dir(project_dir);
    join_path(d.as_str(), "index.json")
}

/// Identifier of a new session: `sess-` and the first eight characters of a
/// fresh UUID.
pub fn new_session_id() -> (id: String)
    ensures
        id@.len() == 13,
        starts_with(id@, "sess-"@),
        forall|i: int| 5 <= i < 13 ==> is_uuid_char(#[trigger] id@[i]),
{
    let u = new_uuid_text();
    let cs = chars_of(u.as_str());
    let head = string_from_prefix(&cs, 8);
    let mut id = "sess-".to_owned();
    id.append(head.as_str());
    proof {
        reveal_strlit("sess-");
        assert(id@.take(5) =~= "sess-"@);
        assert forall|i: int| 5 <= i < 13 implies is_uuid_char(#[trigger] id@[i]) by {
            assert(id@[i] == u@[i - 5]);
        }
    }
    id
}

/// The entry a new session starts with.
pub open spec fn fresh_meta(id: Seq<char>, model: Seq<char>, now: Seq<char>) -> SessionMetaView {
    SessionMetaView {
        id,
        name: "Untitled session"@,
        status: SessionStatus::Active,
        created_at: now,
        last_active: now,
        turn_count: 0,
        model,
    }
}

/// Builds the index entry of a new session.
pub fn new_session_meta(id: &str, model: &str, now: &str) -> (m: SessionMeta)
    ensures
        m@ == fresh_meta(id@, model@, now@),
{
    SessionMeta {
        id: id.to_owned(),
        name: "Untitled session".to_owned(),
        status: SessionStatus::Active,
        created_at: now.to_owned(),
        last_active: now.to_owned(),
        turn_count: 0,
        model: model.to_owned(),
    }
}

/// Starts a new session entry: a fresh identifier and the current time.
pub fn start_session(model: &str) -> (m: SessionMeta)
    ensures
        m@ == fresh_meta(m@.id, model@, m@.created_at),
        m@.id.len() == 13,
        starts_with(m@.id, "sess-"@),
{
    let id = new_session_id();
    let now = now_rfc3339();
    new_session_meta(id.as_str(), model, now.as_str())
}

/// Whether some entry carries the identifier `id`.
pub open spec fn has_session(s: Seq<SessionMetaView>, id: Seq<char>) -> bool {
    exists|k: int| 0 <= k < s.len() && s[k].id == id
}

/// Position of the first entry that carries `id`.
pub open spec fn first_session(s: Seq<SessionMetaView>, id: Seq<char>) -> int {
    choose|k: int| 0 <= k < s.len() && s[k].id == id && forall|j: int| 0 <= j < k ==> s[j].id != id
}

/// The plain value of an optional text.
pub open spec fn opt_text(o: Option<&str>) -> Option<Seq<char>> {
    match o {
        Some(t) => Some(t@),
        None => None,
    }
}

/// An entry after an update: each given field replaced, and the time of
/// last activity set to `now`.
pub open spec fn updated_meta(
    m: SessionMetaView,
    name: Option<Seq<char>>,
    status: Option<SessionStatus>,
    turn_count: Option<usize>,
    now: Seq<char>,
) -> SessionMetaView {
    SessionMetaView {
        name: match name {
            Some(n) => n,
            None => m.name,
        },
        status: match status {
            Some(st) => st,
            None => m.status,
        },
        turn_count: match turn_count {
            Some(t) => t,
            None => m.turn_count,
        },
        last_active: now,
        ..m
    }
}

/// Each field given to an update is applied on its own, whatever else is
/// given: a given name, status or turn count replaces the entry's, a field
/// not given is kept, the time of last activity becomes `now`, and the
/// identifier, creation time and model stay.
pub proof fn law_update_applies_each_field(
    m: SessionMetaView,
    name: Option<Seq<char>>,
    status: Option<SessionStatus>,
    turn_count: Option<usize>,
    now: Seq<char>,
)
    ensures
        ({
            let u = updated_meta(m, name, status, turn_count, now);
            &&& (name matches Some(n) ==> u.name == n)
            &&& (name is None ==> u.name == m.name)
            &&& (status matches Some(st) ==> u.status == st)
            &&& (status is None ==> u.status == m.status)
            &&& (turn_count matches Some(t) ==> u.turn_count == t)
            &&& (turn_count is None ==> u.turn_count == m.turn_count)
            &&& u.last_active == now
            &&& u.id == m.id
            &&& u.created_at == m.created_at
            &&& u.model == m.model
        }),
{
}

proof fn lemma_first_session(s: Seq<SessionMetaView>, id: Seq<char>, i: int)
    requires
        0 <= i < s.len(),
        s[i].id == id,
        forall|j: int| 0 <= j < i ==> s[j].id != id,
    ensures
        has_session(s, id),
        first_session(s, id) == i,
{
    let k = first_session(s, id);
    assert(0 <= i < s.len() && s[i].id == id && forall|j: int| 0 <= j < i ==> s[j].id != id);
    assert(0 <= k < s.len() && s[k].id == id && forall|j: int| 0 <= j < k ==> s[j].id != id);
    if k < i {
        assert(s[k].id != id);
    }
    if i < k {
        assert(s[i].id != id);
    }
}

/// Position of the first entry with identifier `id`, if any.
fn find_session(index: &Vec<SessionMeta>, id: &str) -> (r: Option<usize>)
    ensures
        r is None <==> !has_session(metas_view(index@), id@),
        r matches Some(k) ==> k < index.len() && k == first_session(metas_view(index@), id@),
{
    let ghost s = metas_view(index@);
    for i in 0..index.len()
        invariant
            s == metas_view(index@),
            forall|j: int| 0 <= j < i ==> s[j].id != id@,
    {
        assert(s[i as int] == index@[i as int]@);
        if str_eq(index[i].id.as_str(), id) {
            proof {
                lemma_first_session(s, id@, i as int);
            }
            return Some(i);
        }
    }
    assert(!has_session(s, id@)) by {
        if has_session(s, id@) {
            let k = choose|k: int| 0 <= k < s.len() && s[k].id == id@;
            assert(s[k].id != id@);
        }
    }
    None
}

/// Applies an update to the first index entry with identifier `id`, with
/// `now` as the time of last activity, and returns a copy of the updated entry.
pub fn apply_session_update(
    index: &mut Vec<SessionMeta>,
    id: &str,
    name: Option<&str>,
    status: Option<SessionStatus>,
    turn_count: Option<usize>,
    now: &str,
) -> (r: Result<SessionMeta, SessionError>)
    ensures
        r is Ok <==> has_session(metas_view(old(index)@), id@),
        r matches Ok(m) ==> {
            let k = first_session(metas_view(old(index)@), id@);
            &&& m@ == updated_meta(metas_view(old(index)@)[k], opt_text(name), status, turn_count, now@)
            &&& metas_view(final(index)@) == metas_view(old(index)@).update(k, m@)
        },
        r matches Err(e) ==> {
            &&& e matches SessionError::NotFound(x) && x@ == id@
            &&& final(index)@ == old(index)@
        },
{
    match find_session(index, id) {
        None => Err(SessionError::NotFound(id.to_owned())),
        Some(k) => {
            let mut entry = index[k].clone();
            match name {
                Some(n) => {
                    entry.name = n.to_owned();
                },
                None => {},
            }
            match status {
                Some(st) => {
                    entry.status = st;
                },
                None => {},
            }
            match turn_count {
                Some(t) => {
                    entry.turn_count = t;
                },
                None => {},
            }
            entry.last_active = now.to_owned();
            let copy = entry.clone();
            let ghost before = index@;
            index.set(k, entry);
            assert(metas_view(index@) =~= metas_view(before).update(k as int, copy@));
            Ok(copy)
        },
    }
}

/// Applies an update as [`apply_session_update`] does, stamped with the
/// current time.
pub fn update_session_index(
    index: &mut Vec<SessionMeta>,
    id: &str,
    name: Option<&str>,
    status: Option<SessionStatus>,
    turn_count: Option<usize>,
) -> (r: Result<SessionMeta, SessionError>)
    ensures
        r is Ok <==> has_session(metas_view(old(index)@), id@),
        r matches Ok(m) ==> {
            let k = first_session(metas_view(old(index)@), id@);
            &&& m@ == updated_meta(
                metas_view(old(index)@)[k],
                opt_text(name),
                status,
                turn_count,
                m@.last_active,
            )
            &&& metas_view(final(index)@) == metas_view(old(index)@).update(k, m@)
        },
        r matches Err(e) ==> {
            &&& e matches SessionError::NotFound(x) && x@ == id@
            &&& final(index)@ == old(index)@
        },
{
    let now = now_rfc3339();
    apply_session_update(index, id, name, status, turn_count, now.as_str())
}

/// The entries whose identifier differs from `id`.
pub open spec fn without_session(s: Seq<SessionMetaView>, id: Seq<char>) -> Seq<SessionMetaView> {
    s.filter(|m: SessionMetaView| m.id != id)
}

/// Removes every index entry with identifier `id`.
pub fn remove_session(index: &mut Vec<SessionMeta>, id: &str)
    ensures
        metas_view(final(index)@) == without_session(metas_view(old(index)@), id@),
{
    let ghost s = metas_view(index@);
    let ghost pred = |m: SessionMetaView| m.id != id@;
    let mut kept: Vec<SessionMeta> = Vec::new();
    for i in 0..index.len()
        invariant
            s == metas_view(index@),
            pred == (|m: SessionMetaView| m.id != id@),
            metas_view(kept@) == s.take(i as int).filter(pred),
    {
        let ghost before = metas_view(kept@);
        assert(s[i as int] == index@[i as int]@);
        proof {
            assert(s.take(i + 1) == s.take(i as int).push(s[i as int]));
            s.take(i as int).lemma_filter_push(s[i as int], pred);
        }
        if !str_eq(index[i].id.as_str(), id) {
            let c = index[i].clone();
            kept.push(c);
            assert(metas_view(kept@) =~= before.push(s[i as int]));
            assert(pred(s[i as int]));
        } else {
            assert(metas_view(kept@) =~= before);
            assert(!pred(s[i as int]));
        }
    }
    assert(s.take(index.len() as int) == s);
    *index = kept;
}

/// The identifiers of the completed entries, in index order.
pub open spec fn completed_ids(s: Seq<SessionMetaView>) -> Seq<Seq<char>> {
    s.filter(|m: SessionMetaView| m.status == SessionStatus::Completed).map_values(
        |m: SessionMetaView| m.id,
    )
}

/// How many completed sessions exceed the limit.
pub open spec fn excess(count: nat, max_kept: nat) -> nat {
    if count > max_kept {
        (count - max_kept) as nat
    } else {
        0
    }
}

/// The identifiers that pruning removes: the oldest completed sessions beyond
/// `max_kept`.
pub open spec fn pruned_ids(s: Seq<SessionMetaView>, max_kept: nat) -> Seq<Seq<char>> {
    let c = completed_ids(s);
    c.take(excess(c.len(), max_kept) as int)
}

/// The index after pruning: every entry whose identifier was pruned is gone.
pub open spec fn after_prune(s: Seq<SessionMetaView>, max_kept: nat) -> Seq<SessionMetaView> {
    let p = pruned_ids(s, max_kept);
    s.filter(|m: SessionMetaView| !p.contains(m.id))
}

/// Prunes the oldest completed sessions beyond `max_kept` from the index and
/// returns their identifiers.
pub fn prune_sessions(index: &mut Vec<SessionMeta>, max_kept: usize) -> (pruned: Vec<String>)
    ensures
        pruned.deep_view() == pruned_ids(metas_view(old(index)@), max_kept as nat),
        metas_view(final(index)@) == after_prune(metas_view(old(index)@), max_kept as nat),
{
    let ghost s = metas_view(index@);
    let ghost is_done = |m: SessionMetaView| m.status == SessionStatus::Completed;
    let ghost id_of = |m: SessionMetaView| m.id;
    let mut ids: Vec<String> = Vec::new();
    for i in 0..index.len()
        invariant
            s == metas_view(index@),
            is_done == (|m: SessionMetaView| m.status == SessionStatus::Completed),
            id_of == (|m: SessionMetaView| m.id),
            ids.deep_view() == s.take(i as int).filter(is_done).map_values(id_of),
    {
        proof {
            assert(s.take(i + 1) == s.take(i as int).push(s[i as int]));
            s.take(i as int).lemma_filter_push(s[i as int], is_done);
        }
        let ghost before = ids.deep_view();
        assert(s[i as int] == index@[i as int]@);
        if index[i].status == SessionStatus::Completed {
            ids.push(index[i].id.clone());
            assert(ids.deep_view() =~= before.push(s[i as int].id));
            assert(is_done(s[i as int]));
            assert(s.take(i + 1).filter(is_done) == s.take(i as int).filter(is_done).push(s[i as int]));
            assert(s.take(i + 1).filter(is_done).map_values(id_of) =~= s.take(i as int).filter(
                is_done,
            ).map_values(id_of).push(s[i as int].id));
        } else {
            assert(!is_done(s[i as int]));
            assert(s.take(i + 1).filter(is_done) == s.take(i as int).filter(is_done));
        }
    }
    assert(s.take(index.len() as int) == s);
    assert(ids.deep_view() == completed_ids(s));
    let remove = if ids.len() > max_kept {
        ids.len() - max_kept
    } else {
        0
    };
    let mut pruned: Vec<String> = Vec::new();
    for i in 0..remove
        invariant
            remove <= ids.len(),
            pruned.deep_view() == ids.deep_view().take(i as int),
    {
        let ghost before = pruned.deep_view();
        pruned.push(ids[i].clone());
        assert(pruned.deep_view() =~= before.push(ids.deep_view()[i as int]));
        assert(ids.deep_view().take(i + 1) =~= ids.deep_view().take(i as int).push(ids.deep_view()[i as int]));
    }
    let ghost p = pruned.deep_view();
    assert(p == pruned_ids(s, max_kept as nat));
    let ghost keep = |m: SessionMetaView| !p.contains(m.id);
    let mut kept: Vec<SessionMeta> = Vec::new();
    for i in 0..index.len()
        invariant
            s == metas_view(index@),
            p == pruned.deep_view(),
            keep == (|m: SessionMetaView| !p.contains(m.id)),
            metas_view(kept@) == s.take(i as int).filter(keep),
    {
        let ghost before = metas_view(kept@);
        assert(s[i as int] == index@[i as int]@);
        proof {
            assert(s.take(i + 1) == s.take(i as int).push(s[i as int]));
            s.take(i as int).lemma_filter_push(s[i as int], keep);
        }
        if !contains_string(&pruned, index[i].id.as_str()) {
            let c = index[i].clone();
            kept.push(c);
            assert(metas_view(kept@) =~= before.push(s[i as int]));
            assert(keep(s[i as int]));
        } else {
            assert(metas_view(kept@) =~= before);
            assert(!keep(s[i as int]));
        }
    }
    assert(s.take(index.len() as int) == s);
    *index = kept;
    pruned
}

/// The entries that look crashed among the first `k`: their lock file is
/// present although their status is not active.
pub open spec fn crash_candidates(s: Seq<SessionMetaView>, locks: Seq<bool>, k: nat) -> Seq<
    SessionMetaView,
>
    decreases k,
{
    if k == 0 {
        seq![]
    } else {
        let prev = crash_candidates(s, locks, (k - 1) as nat);
        if s[k - 1].status != SessionStatus::Active && locks[k - 1] {
            prev.push(s[k - 1])
        } else {
            prev
        }
    }
}

/// Detects crashed sessions: those whose lock file is still present but
/// whose status is no longer active (`lock_present[i]` tells it for
/// `index[i]`).
pub fn detect_crashed(index: &Vec<SessionMeta>, lock_present: &Vec<bool>) -> (r: Vec<SessionMeta>)
    requires
        lock_present.len() == index.len(),
    ensures
        metas_view(r@) == crash_candidates(metas_view(index@), lock_present@, index.len() as nat),
{
    let ghost s = metas_view(index@);
    let mut crashed: Vec<SessionMeta> = Vec::new();
    for i in 0..index.len()
        invariant
            s == metas_view(index@),
            lock_present.len() == index.len(),
            metas_view(crashed@) == crash_candidates(s, lock_present@, i as nat),
    {
        let ghost before = metas_view(crashed@);
        assert(s[i as int] == index@[i as int]@);
        if index[i].status != SessionStatus::Active && lock_present[i] {
            crashed.push(index[i].clone());
            assert(metas_view(crashed@) =~= before.push(s[i as int]));
        } else {
            assert(metas_view(crashed@) =~= before);
        }
    }
    crashed
}


proof fn lemma_filter_filter<A>(s: Seq<A>, p: spec_fn(A) -> bool, q: spec_fn(A) -> bool)
    ensures
        s.filter(p).filter(q) == s.filter(|x: A| p(x) && q(x)),
    decreases s.len(),
{
    let pq = |x: A| p(x) && q(x);
    if s.len() > 0 {
        let t = s.drop_last();
        let e = s.last();
        lemma_filter_filter(t, p, q);
        assert(s == t.push(e));
        t.lemma_filter_push(e, p);
        t.lemma_filter_push(e, pq);
        t.filter(p).lemma_filter_push(e, q);
    } else {
        reveal(Seq::filter);
    }
}

/// After removing a session, no entry of the index carries its identifier,
/// and every other entry stays.
pub proof fn law_removed_session_is_gone(s: Seq<SessionMetaView>, id: Seq<char>)
    ensures
        !has_session(without_session(s, id), id),
        forall|i: int|
            0 <= i < s.len() && s[i].id != id ==> without_session(s, id).contains(#[trigger] s[i]),
{
    broadcast use vstd::seq_lib::group_filter_ensures;

    let pred = |m: SessionMetaView| m.id != id;
    assert forall|i: int| 0 <= i < s.len() && s[i].id != id implies without_session(s, id).contains(
        #[trigger] s[i],
    ) by {
        assert(pred(s[i]));
    }
    assert forall|i: int| 0 <= i < without_session(s, id).len() implies #[trigger] without_session(
        s,
        id,
    )[i].id != id by {
        assert(pred(s.filter(pred)[i]));
    }
}

/// Pruning leaves at most `max_kept` completed sessions in the index.
pub proof fn law_prune_keeps_at_most_max_completed(s: Seq<SessionMetaView>, max_kept: nat)
    ensures
        after_prune(s, max_kept).filter(
            |m: SessionMetaView| m.status == SessionStatus::Completed,
        ).len() <= max_kept,
{
    let done = |m: SessionMetaView| m.status == SessionStatus::Completed;
    let id_of = |m: SessionMetaView| m.id;
    let c = s.filter(done);
    let k = excess(c.len(), max_kept) as int;
    let p = pruned_ids(s, max_kept);
    assert(completed_ids(s) == c.map_values(id_of));
    assert(p == c.map_values(id_of).take(k));
    let keep = |m: SessionMetaView| !p.contains(m.id);
    assert(after_prune(s, max_kept) == s.filter(keep));
    lemma_filter_filter(s, keep, done);
    lemma_filter_filter(s, done, keep);
    assert((|x: SessionMetaView| keep(x) && done(x)) == (|x: SessionMetaView| done(x) && keep(x)));
    assert(s.filter(keep).filter(done) == c.filter(keep));
    assert(c == c.take(k) + c.skip(k));
    Seq::filter_distributes_over_add(c.take(k), c.skip(k), keep);
    assert forall|i: int| 0 <= i < c.take(k).len() implies !keep(#[trigger] c.take(k)[i]) by {
        assert(p[i] == c.take(k)[i].id);
        assert(p.contains(c.take(k)[i].id));
    }
    assert(c.take(k).all(|x: SessionMetaView| !keep(x)));
    c.take(k).lemma_all_neg_filter_empty(keep);
    c.skip(k).lemma_filter_len(keep);
    assert(c.filter(keep) == c.take(k).filter(keep) + c.skip(k).filter(keep));
}

} // verus!
