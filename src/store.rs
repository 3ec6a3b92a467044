//! The redirect store: short code to record, with an engine deadline on each entry
//! and a second, read-time expiry check against the record's own creation time.
use vstd::prelude::*;

use crate::clock::now_unix_millis;
use crate::record::{
    check_expired, copy_record, expires_at, new_record, record_of, rfc3339_instant, rfc3339_text,
    Data, RecordView, StoreError,
};

verus! {

/// What the store holds for one code: the record, and the instant (Unix milliseconds)
/// after which the engine no longer returns it.
pub struct EntryView {
    pub record: RecordView,
    pub deadline: int,
}

/// What a lookup finds.
pub enum Lookup {
    Found(RecordView),
    Missing,
    Unreadable,
}

/// The entry that a put of `long_url` under `code` for `ttl` seconds at `now` stores,
/// with `creation` the RFC 3339 text of `now`.
pub open spec fn stored(
    code: Seq<char>,
    long_url: Seq<char>,
    ttl: nat,
    now: int,
    creation: Seq<char>,
) -> EntryView {
    EntryView { record: record_of(code, long_url, ttl, creation), deadline: expires_at(now, ttl as int) }
}

/// Looking up `code` at `now`: missing when absent or past the engine deadline; else
/// missing too when the record's own creation time and lifetime say it has expired,
/// unreadable when that creation time is not RFC 3339, and found otherwise.
pub open spec fn lookup(m: Map<Seq<char>, EntryView>, code: Seq<char>, now: int) -> Lookup {
    if !m.contains_key(code) || now > m[code].deadline {
        Lookup::Missing
    } else {
        match rfc3339_instant(m[code].record.creation_data) {
            None => Lookup::Unreadable,
            Some(c) => if now > expires_at(c, m[code].record.ttl as int) {
                Lookup::Missing
            } else {
                Lookup::Found(m[code].record)
            },
        }
    }
}

/// `r` is the answer of a get whose lookup gave `l`.
pub open spec fn answers(r: Result<Option<Data>, StoreError>, l: Lookup) -> bool {
    match l {
        Lookup::Found(v) => r matches Ok(Some(d)) && d@ == v,
        Lookup::Missing => r matches Ok(None),
        Lookup::Unreadable => r is Err,
    }
}

struct Entry {
    code: String,
    record: Data,
    deadline: i128,
}

spec fn entry_view(e: Entry) -> EntryView {
    EntryView { record: e.record@, deadline: e.deadline as int }
}

spec fn table(s: Seq<Entry>) -> Map<Seq<char>, EntryView>
    decreases s.len(),
{
    if s.len() == 0 {
        Map::empty()
    } else {
        table(s.drop_last()).insert(s.last().code@, entry_view(s.last()))
    }
}

spec fn unique(s: Seq<Entry>) -> bool {
    forall|i: int, j: int| 0 <= i < j < s.len() ==> s[i].code@ != s[j].code@
}

proof fn lemma_table_keys(s: Seq<Entry>, k: Seq<char>)
    ensures
        table(s).contains_key(k) <==> exists|i: int| 0 <= i < s.len() && s[i].code@ == k,
    decreases s.len(),
{
    if s.len() > 0 {
        let p = s.drop_last();
        lemma_table_keys(p, k);
        if table(s).contains_key(k) && s.last().code@ != k {
            let i = choose|i: int| 0 <= i < p.len() && p[i].code@ == k;
            assert(s[i] == p[i]);
        }
        if exists|i: int| 0 <= i < s.len() && s[i].code@ == k {
            let i = choose|i: int| 0 <= i < s.len() && s[i].code@ == k;
            if i < s.len() - 1 {
                assert(p[i] == s[i]);
            }
        }
    }
}

proof fn lemma_table_at(s: Seq<Entry>, i: int)
    requires
        unique(s),
        0 <= i < s.len(),
    ensures
        table(s).contains_key(s[i].code@),
        table(s)[s[i].code@] == entry_view(s[i]),
    decreases s.len(),
{
    if i < s.len() - 1 {
        let p = s.drop_last();
        assert(p[i] == s[i]);
        assert(unique(p));
        lemma_table_at(p, i);
    }
}

proof fn lemma_table_remove(s: Seq<Entry>, i: int)
    requires
        unique(s),
        0 <= i < s.len(),
    ensures
        table(s.remove(i)) =~= table(s).remove(s[i].code@),
        unique(s.remove(i)),
        forall|j: int| 0 <= j < s.remove(i).len() ==> s.remove(i)[j].code@ != s[i].code@,
    decreases s.len(),
{
    let k = s[i].code@;
    let r = s.remove(i);
    let p = s.drop_last();
    assert forall|j: int| 0 <= j < r.len() implies r[j].code@ != k by {
        if j < i {
            assert(r[j] == s[j]);
        } else {
            assert(r[j] == s[j + 1]);
        }
    }
    assert forall|a: int, b: int| 0 <= a < b < r.len() implies r[a].code@ != r[b].code@ by {
        let sa = if a < i {
            a
        } else {
            a + 1
        };
        let sb = if b < i {
            b
        } else {
            b + 1
        };
        assert(r[a] == s[sa]);
        assert(r[b] == s[sb]);
    }
    if i == s.len() - 1 {
        assert(r =~= p);
        lemma_table_keys(p, k);
        if table(p).contains_key(k) {
            let j = choose|j: int| 0 <= j < p.len() && p[j].code@ == k;
            assert(p[j] == s[j]);
        }
    } else {
        assert(unique(p));
        lemma_table_remove(p, i);
        assert(r.drop_last() =~= p.remove(i));
        assert(r.last() == s.last());
        assert(s.last().code@ != k);
    }
}

/// Expiring map from short code to record.
pub struct RedirectStore {
    entries: Vec<Entry>,
}

impl View for RedirectStore {
    type V = Map<Seq<char>, EntryView>;

    closed spec fn view(&self) -> Map<Seq<char>, EntryView> {
        table(self.entries@)
    }
}

impl RedirectStore {
    pub closed spec fn wf(&self) -> bool {
        unique(self.entries@)
    }

    /// An empty store.
    pub fn new() -> (r: RedirectStore)
        ensures
            r.wf(),
            r@ == Map::<Seq<char>, EntryView>::empty(),
    {
        RedirectStore { entries: Vec::new() }
    }

    fn find(&self, code: &String) -> (r: Option<usize>)
        ensures
            match r {
                Some(i) => i < self.entries@.len() && self.entries@[i as int].code@ == code@,
                None => forall|i: int|
                    0 <= i < self.entries@.len() ==> self.entries@[i].code@ != code@,
            },
    {
        let mut i: usize = 0;
        while i < self.entries.len()
            invariant
                i <= self.entries@.len(),
                forall|j: int| 0 <= j < i ==> self.entries@[j].code@ != code@,
            decreases self.entries@.len() - i,
        {
            if self.entries[i].code == *code {
                return Some(i);
            }
            i = i + 1;
        }
        None
    }

    /// Stores a record of `long_url` under `code`, created at `now_ms` (Unix
    /// milliseconds) and living `ttl_seconds`, replacing whatever `code` held. Fails,
    /// changing nothing, when the lifetime is zero or the instant has no RFC 3339 text.
    pub fn put_at(&mut self, code: &str, long_url: &str, ttl_seconds: u32, now_ms: i64) -> (r:
        Result<(), StoreError>)
        requires
            old(self).wf(),
        ensures
            final(self).wf(),
            ttl_seconds == 0 ==> r is Err,
            ttl_seconds > 0 ==> match rfc3339_text(now_ms as int) {
                Some(text) => r is Ok,
                None => r is Err,
            },
            r is Err ==> final(self)@ == old(self)@,
            r is Ok ==> final(self)@ == old(self)@.insert(
                code@,
                stored(
                    code@,
                    long_url@,
                    ttl_seconds as nat,
                    now_ms as int,
                    rfc3339_text(now_ms as int)->0,
                ),
            ),
    {
        if ttl_seconds == 0 {
            return Err(StoreError::Backend(String::from_str("lifetime must be positive")));
        }
        let record = match new_record(code, long_url, ttl_seconds, now_ms) {
            Ok(d) => d,
            Err(e) => {
                return Err(e);
            },
        };
        let key = String::from_str(code);
        let ghost before = self.entries@;
        match self.find(&key) {
            Some(i) => {
                proof {
                    lemma_table_remove(before, i as int);
                }
                self.entries.remove(i);
            },
            None => {
                proof {
                    lemma_table_keys(before, code@);
                }
                assert(table(self.entries@) =~= table(before).remove(code@));
            },
        }
        let ghost kept = self.entries@;
        let deadline = (now_ms as i128) + (ttl_seconds as i128) * 1000;
        self.entries.push(Entry { code: key, record, deadline });
        assert(self.entries@.drop_last() =~= kept);
        assert(unique(self.entries@)) by {
            assert forall|a: int, b: int|
                0 <= a < b < self.entries@.len() implies self.entries@[a].code@
                != self.entries@[b].code@ by {
                if b == self.entries@.len() - 1 {
                    assert(self.entries@[a] == kept[a]);
                } else {
                    assert(self.entries@[a] == kept[a]);
                    assert(self.entries@[b] == kept[b]);
                }
            }
        }
        assert(self@ =~= old(self)@.insert(
            code@,
            stored(
                code@,
                long_url@,
                ttl_seconds as nat,
                now_ms as int,
                rfc3339_text(now_ms as int)->0,
            ),
        ));
        Ok(())
    }

    /// The live record under `code` at `now_ms` (Unix milliseconds), as `lookup` says;
    /// an error when the stored creation time cannot be read. Changes nothing.
    pub fn get_at(&self, code: &str, now_ms: i64) -> (r: Result<Option<Data>, StoreError>)
        requires
            self.wf(),
        ensures
            answers(r, lookup(self@, code@, now_ms as int)),
    {
        let key = String::from_str(code);
        match self.find(&key) {
            None => {
                proof {
                    lemma_table_keys(self.entries@, code@);
                }
                Ok(None)
            },
            Some(i) => {
                let entry = &self.entries[i];
                proof {
                    lemma_table_at(self.entries@, i as int);
                }
                if (now_ms as i128) > entry.deadline {
                    return Ok(None);
                }
                match check_expired(&entry.record, now_ms) {
                    Ok(expired) => {
                        if expired {
                            Ok(None)
                        } else {
                            Ok(Some(copy_record(&entry.record)))
                        }
                    },
                    Err(e) => Err(e),
                }
            },
        }
    }

    /// Removes whatever `code` holds; succeeds whether or not it held anything.
    pub fn delete(&mut self, code: &str) -> (r: Result<(), StoreError>)
        requires
            old(self).wf(),
        ensures
            final(self).wf(),
            r is Ok,
            final(self)@ == old(self)@.remove(code@),
    {
        let key = String::from_str(code);
        let ghost before = self.entries@;
        match self.find(&key) {
            Some(i) => {
                proof {
                    lemma_table_remove(before, i as int);
                }
                self.entries.remove(i);
            },
            None => {
                proof {
                    lemma_table_keys(before, code@);
                }
                assert(table(self.entries@) =~= table(before).remove(code@));
            },
        }
        Ok(())
    }

    /// `put_at` at the current wall-clock time.
    pub fn put(&mut self, code: &str, long_url: &str, ttl_seconds: u32) -> (r: Result<
        (),
        StoreError,
    >)
        requires
            old(self).wf(),
        ensures
            final(self).wf(),
            ttl_seconds == 0 ==> r is Err,
            r is Err ==> final(self)@ == old(self)@,
            r is Ok ==> exists|now: int, text: Seq<char>|
                rfc3339_text(now) == Some(text) && final(self)@ == old(self)@.insert(
                    code@,
                    #[trigger] stored(code@, long_url@, ttl_seconds as nat, now, text),
                ),
    {
        let now = now_unix_millis();
        let r = self.put_at(code, long_url, ttl_seconds, now);
        assert(r is Ok ==> rfc3339_text(now as int) == Some(rfc3339_text(now as int)->0));
        r
    }

    /// `get_at` at the current wall-clock time.
    pub fn get(&self, code: &str) -> (r: Result<Option<Data>, StoreError>)
        requires
            self.wf(),
        ensures
            exists|now: int| answers(r, #[trigger] lookup(self@, code@, now)),
    {
        let now = now_unix_millis();
        self.get_at(code, now)
    }
}

/// A record put for `ttl` seconds is missing once more than `ttl` seconds have passed
/// since the put, whatever its creation text says.
pub proof fn lemma_expired_after_ttl(
    m: Map<Seq<char>, EntryView>,
    code: Seq<char>,
    long_url: Seq<char>,
    ttl: nat,
    put_at: int,
    creation: Seq<char>,
    now: int,
)
    requires
        now > expires_at(put_at, ttl as int),
    ensures
        lookup(m.insert(code, stored(code, long_url, ttl, put_at, creation)), code, now)
            == Lookup::Missing,
{
}

/// A record put at `put_at` whose creation text reads back as that same instant is
/// found, with its target, by a lookup at that instant.
pub proof fn lemma_found_after_put(
    m: Map<Seq<char>, EntryView>,
    code: Seq<char>,
    long_url: Seq<char>,
    ttl: nat,
    put_at: int,
    creation: Seq<char>,
)
    requires
        rfc3339_instant(creation) == Some(put_at),
    ensures
        lookup(m.insert(code, stored(code, long_url, ttl, put_at, creation)), code, put_at)
            == Lookup::Found(record_of(code, long_url, ttl, creation)),
        record_of(code, long_url, ttl, creation).long_url == long_url,
{
}

/// After a delete of `code`, a lookup of `code` finds nothing, at any time.
pub proof fn lemma_missing_after_delete(m: Map<Seq<char>, EntryView>, code: Seq<char>, now: int)
    ensures
        lookup(m.remove(code), code, now) == Lookup::Missing,
{
}

/// An empty store finds nothing.
pub proof fn lemma_empty_store_missing(code: Seq<char>, now: int)
    ensures
        lookup(Map::<Seq<char>, EntryView>::empty(), code, now) == Lookup::Missing,
{
}

} // verus!
