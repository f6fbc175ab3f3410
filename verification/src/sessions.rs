//! Trace sessions: the `.log` files of the traces directory, newest first.
use vstd::prelude::*;
use crate::text::{push_char};

verus! {

/// The position of the last `.` in `s`, or -1 where there is none.
pub open spec fn last_dot(s: Seq<char>) -> int
    decreases s.len(),
{
    if s.len() == 0 {
        -1
    } else if s.last() == '.' {
        s.len() - 1
    } else {
        last_dot(s.drop_last())
    }
}

/// The session named by a file name: the file stem, where the extension is
/// `log`. As for `Path::extension`, a name whose only `.` is its first
/// character has no extension.
pub open spec fn session_id_of_file_name(name: Seq<char>) -> Option<Seq<char>> {
    let p = last_dot(name);
    if p > 0 && name.skip(p + 1) == "log"@ {
        Some(name.take(p))
    } else {
        None
    }
}

/// The session a file of the traces directory holds, if it is a session log.
pub fn session_id_from_file_name(name: &str) -> (r: Option<String>)
    ensures
        r.deep_view() == session_id_of_file_name(name@),
{
    let chars = crate::text::chars_of(name);
    let n = chars.len();
    let mut p: usize = n;
    assert(chars@.take(n as int) =~= chars@);
    while p > 0 && chars[p - 1] != '.'
        invariant
            p <= n == chars@.len(),
            forall|i: int| p <= i < n ==> chars@[i] != '.',
            last_dot(chars@) == last_dot(chars@.take(p as int)),
        decreases p,
    {
        assert(chars@.take(p as int).drop_last() =~= chars@.take(p - 1));
        p = p - 1;
    }
    proof {
        if p > 0 {
            assert(chars@.take(p as int).last() == '.');
            assert(last_dot(chars@) == p - 1);
        } else {
            assert(chars@.take(0) =~= Seq::<char>::empty());
        }
    }
    if p <= 1 {
        return None;
    }
    let dot = p - 1;
    let ext = crate::text::chars_of("log");
    if n - p != ext.len() {
        assert(chars@.skip(p as int).len() != "log"@.len());
        return None;
    }
    let mut i: usize = 0;
    while i < ext.len()
        invariant
            ext@ == "log"@,
            chars@ == name@,
            last_dot(chars@) == p - 1,
            p + ext@.len() == n == chars@.len(),
            i <= ext@.len(),
            forall|q: int| 0 <= q < i ==> chars@[p + q] == ext@[q],
        decreases ext@.len() - i,
    {
        if chars[p + i] != ext[i] {
            assert(chars@.skip(p as int)[i as int] != "log"@[i as int]);
            return None;
        }
        i = i + 1;
    }
    assert(chars@.skip(p as int) =~= "log"@);
    let mut id = String::new();
    let mut k: usize = 0;
    while k < dot
        invariant
            dot < n == chars@.len(),
            k <= dot,
            id@ == chars@.take(k as int),
        decreases dot - k,
    {
        push_char(&mut id, chars[k]);
        k = k + 1;
        assert(id@ =~= chars@.take(k as int));
    }
    Some(id)
}

/// The name of the log file of a session.
pub fn session_file_name(session_id: &str) -> (r: String)
    ensures
        r@ == session_id@ + ".log"@,
{
    let mut s = String::from_str(session_id);
    s.append(".log");
    s
}

/// Law: the log file of a session with a non-empty name is read back as that
/// session.
pub proof fn lemma_session_file_name_round_trip(id: Seq<char>)
    requires
        id.len() > 0,
    ensures
        session_id_of_file_name(id + ".log"@) == Some(id),
{
    reveal_strlit(".log");
    reveal_strlit("log");
    let name = id + ".log"@;
    assert(name.drop_last().drop_last().drop_last() =~= id + "."@) by {
        reveal_strlit(".");
    }
    reveal_strlit(".");
    let n1 = name.drop_last();
    let n2 = n1.drop_last();
    let n3 = n2.drop_last();
    assert(name.last() == 'g');
    assert(n1.last() == 'o');
    assert(n2.last() == 'l');
    assert(n3.last() == '.');
    assert(last_dot(n3) == id.len());
    assert(last_dot(n2) == last_dot(n3));
    assert(last_dot(n1) == last_dot(n2));
    assert(last_dot(name) == last_dot(n1));
    assert(name.skip(id.len() + 1int) =~= "log"@);
    assert(name.take(id.len() as int) =~= id);
}

/// A candidate file of the traces directory: its name, whether it is a
/// regular file, and its modification time in nanoseconds from the Unix
/// epoch, where that could be read.
pub struct DirEntryInfo {
    pub file_name: String,
    pub is_file: bool,
    pub modified_nanos: Option<i128>,
}

/// A session log and when it was last modified, in nanoseconds from the Unix epoch.
pub struct SessionFile {
    pub id: String,
    pub modified_nanos: i128,
}

/// The content of a [`SessionFile`].
pub struct SessionModel {
    pub id: Seq<char>,
    pub modified_nanos: i128,
}

impl View for SessionFile {
    type V = SessionModel;

    open spec fn view(&self) -> SessionModel {
        SessionModel { id: self.id@, modified_nanos: self.modified_nanos }
    }
}

/// The content of a [`DirEntryInfo`].
pub struct DirEntryModel {
    pub file_name: Seq<char>,
    pub is_file: bool,
    pub modified_nanos: Option<i128>,
}

impl View for DirEntryInfo {
    type V = DirEntryModel;

    open spec fn view(&self) -> DirEntryModel {
        DirEntryModel {
            file_name: self.file_name@,
            is_file: self.is_file,
            modified_nanos: self.modified_nanos,
        }
    }
}

/// The session a directory entry holds: a regular `.log` file whose
/// modification time is known.
pub open spec fn session_of_entry(e: DirEntryModel) -> Option<SessionModel> {
    if !e.is_file {
        None
    } else {
        match session_id_of_file_name(e.file_name) {
            None => None,
            Some(id) => match e.modified_nanos {
                None => None,
                Some(m) => Some(SessionModel { id, modified_nanos: m }),
            },
        }
    }
}

/// The sessions of a directory listing, in listing order.
pub open spec fn sessions_of(es: Seq<DirEntryModel>) -> Seq<SessionModel>
    decreases es.len(),
{
    if es.len() == 0 {
        Seq::empty()
    } else {
        let rest = sessions_of(es.drop_last());
        match session_of_entry(es.last()) {
            Some(s) => rest.push(s),
            None => rest,
        }
    }
}

/// The contents of directory entries.
pub open spec fn dir_entries_view(v: Seq<DirEntryInfo>) -> Seq<DirEntryModel> {
    Seq::new(v.len(), |i: int| v[i]@)
}

/// The contents of session files.
pub open spec fn sessions_view(v: Seq<SessionFile>) -> Seq<SessionModel> {
    Seq::new(v.len(), |i: int| v[i]@)
}

/// The sessions among the entries of the traces directory.
pub fn collect_sessions(entries: &Vec<DirEntryInfo>) -> (r: Vec<SessionFile>)
    ensures
        sessions_view(r@) == sessions_of(dir_entries_view(entries@)),
{
    let ghost es = dir_entries_view(entries@);
    let mut out: Vec<SessionFile> = Vec::new();
    let n = entries.len();
    for i in 0..n
        invariant
            n == entries@.len(),
            es == dir_entries_view(entries@),
            sessions_view(out@) == sessions_of(es.take(i as int)),
    {
        assert(es.take(i + 1).drop_last() =~= es.take(i as int));
        assert(es.take(i + 1).last() == entries@[i as int]@);
        let e = &entries[i];
        if e.is_file {
            match session_id_from_file_name(e.file_name.as_str()) {
                Some(id) => match e.modified_nanos {
                    Some(m) => {
                        let ghost prev = out@;
                        out.push(SessionFile { id, modified_nanos: m });
                        assert(sessions_view(out@) =~= sessions_view(prev).push(out@.last()@));
                    },
                    None => {},
                },
                None => {},
            }
        }
    }
    assert(es.take(n as int) =~= es);
    out
}

/// `e` put after every session of `s`, counted from the end, that is not older.
pub open spec fn insert_newest_first(s: Seq<SessionModel>, e: SessionModel) -> Seq<SessionModel>
    decreases s.len(),
{
    if s.len() == 0 {
        seq![e]
    } else if s.last().modified_nanos >= e.modified_nanos {
        s.push(e)
    } else {
        insert_newest_first(s.drop_last(), e).push(s.last())
    }
}

/// `s` from the most recently modified to the least, sessions modified at the
/// same time in their order in `s`.
pub open spec fn newest_first(s: Seq<SessionModel>) -> Seq<SessionModel>
    decreases s.len(),
{
    if s.len() == 0 {
        s
    } else {
        insert_newest_first(newest_first(s.drop_last()), s.last())
    }
}

proof fn lemma_insert_newest_at(s: Seq<SessionModel>, e: SessionModel, j: int)
    requires
        0 <= j <= s.len(),
        forall|k: int| j <= k < s.len() ==> s[k].modified_nanos < e.modified_nanos,
        j == 0 || s[j - 1].modified_nanos >= e.modified_nanos,
    ensures
        insert_newest_first(s, e) == s.insert(j, e),
    decreases s.len(),
{
    if s.len() == 0 {
        assert(s.insert(j, e) =~= seq![e]);
    } else if j == s.len() {
        assert(s.insert(j, e) =~= s.push(e));
    } else {
        lemma_insert_newest_at(s.drop_last(), e, j);
        assert(s.drop_last().insert(j, e).push(s.last()) =~= s.insert(j, e));
    }
}

fn insert_session(out: &mut Vec<SessionFile>, e: SessionFile)
    ensures
        sessions_view(final(out)@) == insert_newest_first(sessions_view(old(out)@), e@),
{
    let mut j = out.len();
    while j > 0 && out[j - 1].modified_nanos < e.modified_nanos
        invariant
            j <= out@.len(),
            forall|k: int| j <= k < out@.len() ==> out@[k].modified_nanos < e.modified_nanos,
        decreases j,
    {
        j = j - 1;
    }
    proof {
        lemma_insert_newest_at(sessions_view(out@), e@, j as int);
    }
    let ghost before = out@;
    out.insert(j, e);
    assert(sessions_view(out@) =~= sessions_view(before).insert(j as int, e@));
}

/// Orders sessions from the most recently modified to the least, keeping the
/// order of sessions modified at the same time (a stable sort).
pub fn sessions_newest_first(sessions: Vec<SessionFile>) -> (r: Vec<SessionFile>)
    ensures
        sessions_view(r@) == newest_first(sessions_view(sessions@)),
{
    let ghost all = sessions_view(sessions@);
    let mut rest = sessions;
    let mut out: Vec<SessionFile> = Vec::new();
    let mut i: usize = 0;
    assert(all.skip(0) =~= all);
    assert(all.len() == rest.len());
    while rest.len() > 0
        invariant
            i + rest@.len() == all.len(),
            all.len() <= usize::MAX,
            sessions_view(rest@) == all.skip(i as int),
            sessions_view(out@) == newest_first(all.take(i as int)),
        decreases rest@.len(),
    {
        let ghost rv = rest@;
        let e = rest.remove(0);
        assert(sessions_view(rv)[0] == all.skip(i as int)[0]);
        assert(e@ == all[i as int]);
        assert(sessions_view(rest@) =~= all.skip(i + 1)) by {
            assert(rest@ =~= rv.subrange(1, rv.len() as int));
            assert forall|q: int| 0 <= q < rest@.len() implies #[trigger] sessions_view(rest@)[q]
                == all.skip(i + 1)[q] by {
                assert(sessions_view(rv)[q + 1] == all.skip(i as int)[q + 1]);
            }
        }
        assert(all.take(i + 1).drop_last() =~= all.take(i as int));
        insert_session(&mut out, e);
        i = i + 1;
    }
    assert(all.take(i as int) =~= all);
    out
}

/// `k` is the first of the most recently modified sessions of `s`.
pub open spec fn is_latest_index(s: Seq<SessionModel>, k: int) -> bool {
    &&& 0 <= k < s.len()
    &&& forall|j: int| 0 <= j < s.len() ==> s[j].modified_nanos <= s[k].modified_nanos
    &&& forall|j: int| 0 <= j < k ==> s[j].modified_nanos < s[k].modified_nanos
}

/// The most recently modified session; of several modified at that time, the
/// first in `sessions`.
pub fn latest_session(sessions: &Vec<SessionFile>) -> (r: Option<String>)
    ensures
        sessions@.len() == 0 ==> r is None,
        sessions@.len() > 0 ==> exists|k: int|
            is_latest_index(sessions_view(sessions@), k) && r.deep_view() == Some(
                sessions@[k].id@,
            ),
{
    let ghost s = sessions_view(sessions@);
    if sessions.len() == 0 {
        return None;
    }
    let mut best: usize = 0;
    for i in 1..sessions.len()
        invariant
            s == sessions_view(sessions@),
            best < i <= sessions@.len(),
            forall|j: int| 0 <= j < i ==> s[j].modified_nanos <= s[best as int].modified_nanos,
            forall|j: int| 0 <= j < best ==> s[j].modified_nanos < s[best as int].modified_nanos,
    {
        if sessions[i].modified_nanos > sessions[best].modified_nanos {
            best = i;
        }
    }
    assert(is_latest_index(s, best as int));
    Some(sessions[best].id.clone())
}

proof fn lemma_insert_newest_front(t: Seq<SessionModel>, e: SessionModel)
    requires
        t.len() > 0,
        t[0].modified_nanos >= e.modified_nanos,
    ensures
        insert_newest_first(t, e)[0] == t[0],
        insert_newest_first(t, e).len() == t.len() + 1,
    decreases t.len(),
{
    if t.last().modified_nanos < e.modified_nanos {
        lemma_insert_newest_front(t.drop_last(), e);
    }
}

proof fn lemma_insert_newest_newer(t: Seq<SessionModel>, e: SessionModel)
    requires
        forall|k: int| 0 <= k < t.len() ==> t[k].modified_nanos < e.modified_nanos,
    ensures
        insert_newest_first(t, e)[0] == e,
        insert_newest_first(t, e).len() == t.len() + 1,
        forall|k: int|
            0 <= k < insert_newest_first(t, e).len() ==> #[trigger] insert_newest_first(
                t,
                e,
            )[k].modified_nanos <= e.modified_nanos,
    decreases t.len(),
{
    if t.len() > 0 {
        lemma_insert_newest_newer(t.drop_last(), e);
    }
}

proof fn lemma_insert_newest_bounded(t: Seq<SessionModel>, e: SessionModel, b: i128)
    requires
        forall|k: int| 0 <= k < t.len() ==> t[k].modified_nanos < b,
        e.modified_nanos < b,
    ensures
        forall|k: int|
            0 <= k < insert_newest_first(t, e).len() ==> #[trigger] insert_newest_first(
                t,
                e,
            )[k].modified_nanos < b,
        insert_newest_first(t, e).len() == t.len() + 1,
    decreases t.len(),
{
    if t.len() > 0 && t.last().modified_nanos < e.modified_nanos {
        lemma_insert_newest_bounded(t.drop_last(), e, b);
    }
}

proof fn lemma_newest_first_bounded(s: Seq<SessionModel>, b: i128)
    requires
        forall|k: int| 0 <= k < s.len() ==> s[k].modified_nanos < b,
    ensures
        forall|k: int|
            0 <= k < newest_first(s).len() ==> #[trigger] newest_first(s)[k].modified_nanos < b,
        newest_first(s).len() == s.len(),
    decreases s.len(),
{
    if s.len() > 0 {
        lemma_newest_first_bounded(s.drop_last(), b);
        lemma_insert_newest_bounded(newest_first(s.drop_last()), s.last(), b);
    }
}

/// Law: the latest session is the first of the sessions ordered newest first.
pub proof fn lemma_latest_is_first_newest(s: Seq<SessionModel>, k: int)
    requires
        is_latest_index(s, k),
    ensures
        newest_first(s).len() == s.len(),
        newest_first(s)[0] == s[k],
    decreases s.len(),
{
    let d = s.drop_last();
    let x = s.last();
    if k == s.len() - 1 {
        lemma_newest_first_bounded(d, x.modified_nanos);
        lemma_insert_newest_newer(newest_first(d), x);
    } else {
        assert(is_latest_index(d, k));
        lemma_latest_is_first_newest(d, k);
        lemma_insert_newest_front(newest_first(d), x);
    }
}

/// The timestamp text of a moment given in seconds from the Unix epoch, as
/// `chrono` formats it in UTC as `%Y-%m-%d %H:%M:%S UTC`, where it is in range.
pub uninterp spec fn utc_timestamp_text_of(secs: i64) -> Option<Seq<char>>;

/// `chrono::DateTime::<Utc>::from_timestamp(secs, 0)` and, where that is in
/// range, `format("%Y-%m-%d %H:%M:%S UTC").to_string()`: claimed to depend on
/// `secs` alone (UTC involves no local time zone).
#[verifier::external_body]
fn utc_timestamp_text(secs: i64) -> (r: Option<String>)
    ensures
        r.deep_view() == utc_timestamp_text_of(secs),
{
    let dt = chrono::DateTime::<chrono::Utc>::from_timestamp(secs, 0)?;
    Some(dt.format("%Y-%m-%d %H:%M:%S UTC").to_string())
}

/// `secs` as the `i64` that `as i64` makes of it.
pub open spec fn as_i64(secs: u64) -> i64 {
    secs as i64
}

/// The formatted time, or `unknown` where it could not be formatted.
pub fn timestamp_text_or_unknown(formatted: Option<String>) -> (r: String)
    ensures
        r@ == match formatted.deep_view() {
            Some(t) => t,
            None => "unknown"@,
        },
{
    match formatted {
        Some(text) => text,
        None => String::from_str("unknown"),
    }
}

/// The text shown for a modification time given in whole seconds after the
/// Unix epoch (`None` for a time before the epoch): `unknown` where there is
/// no such time or it is out of `chrono`'s range.
pub fn format_system_time(secs_since_epoch: Option<u64>) -> (r: String)
    ensures
        r@ == match secs_since_epoch {
            None => "unknown"@,
            Some(s) => match utc_timestamp_text_of(as_i64(s)) {
                Some(t) => t,
                None => "unknown"@,
            },
        },
{
    match secs_since_epoch {
        None => String::from_str("unknown"),
        Some(s) => {
            let t = #[verifier::truncate] (s as i64);
            timestamp_text_or_unknown(utc_timestamp_text(t))
        },
    }
}

proof fn lemma_insert_newest_sorted(t: Seq<SessionModel>, e: SessionModel)
    requires
        forall|i: int, j: int| 0 <= i <= j < t.len() ==> t[i].modified_nanos >= t[j].modified_nanos,
    ensures
        forall|i: int, j: int|
            0 <= i <= j < insert_newest_first(t, e).len() ==> insert_newest_first(t, e)[i].modified_nanos
                >= insert_newest_first(t, e)[j].modified_nanos,
        insert_newest_first(t, e).len() == t.len() + 1,
        insert_newest_first(t, e).to_multiset() == t.to_multiset().insert(e),
    decreases t.len(),
{
    broadcast use vstd::seq_lib::group_to_multiset_ensures;

    if t.len() == 0 {
        assert(seq![e] =~= t.push(e));
    } else if t.last().modified_nanos >= e.modified_nanos {
    } else {
        let d = t.drop_last();
        lemma_insert_newest_sorted(d, e);
        lemma_insert_newest_bounded_below(d, e, t.last().modified_nanos);
        assert(d.push(t.last()) =~= t);
        assert(insert_newest_first(t, e).to_multiset() =~= t.to_multiset().insert(e));
    }
}

proof fn lemma_insert_newest_bounded_below(t: Seq<SessionModel>, e: SessionModel, b: i128)
    requires
        forall|k: int| 0 <= k < t.len() ==> t[k].modified_nanos >= b,
        e.modified_nanos >= b,
    ensures
        forall|k: int|
            0 <= k < insert_newest_first(t, e).len() ==> #[trigger] insert_newest_first(
                t,
                e,
            )[k].modified_nanos >= b,
        insert_newest_first(t, e).len() == t.len() + 1,
    decreases t.len(),
{
    if t.len() > 0 && t.last().modified_nanos < e.modified_nanos {
        lemma_insert_newest_bounded_below(t.drop_last(), e, b);
    }
}

/// Law: listing newest first gives the same sessions, each once, from the most
/// recently modified to the least.
pub proof fn lemma_newest_first_sorted(s: Seq<SessionModel>)
    ensures
        forall|i: int, j: int|
            0 <= i <= j < newest_first(s).len() ==> newest_first(s)[i].modified_nanos
                >= newest_first(s)[j].modified_nanos,
        newest_first(s).len() == s.len(),
        newest_first(s).to_multiset() == s.to_multiset(),
    decreases s.len(),
{
    broadcast use vstd::seq_lib::group_to_multiset_ensures;

    if s.len() > 0 {
        let d = s.drop_last();
        lemma_newest_first_sorted(d);
        lemma_insert_newest_sorted(newest_first(d), s.last());
        assert(d.push(s.last()) =~= s);
    }
}

} // verus!
