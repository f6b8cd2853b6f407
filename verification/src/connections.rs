//! The voice-connection records: one row per guild, keyed by guild id.
//!
//! A record is dual-purpose. With a channel id set and a recent
//! `connected_at` it is a pending desire to join that channel; once the
//! reconciler has confirmed the live session it describes the observed state.

use vstd::prelude::*;

use crate::clock::now_unix_seconds;
use crate::text::str_eq;

verus! {

/// The persisted voice-session row of one guild.
pub struct VoiceConnectionRecord {
    pub guild_id: String,
    pub channel_id: Option<String>,
    pub connected_at: i64,
    pub last_activity: i64,
    pub is_playing: bool,
    pub current_track_title: Option<String>,
}

fn clone_opt_string(o: &Option<String>) -> (r: Option<String>)
    ensures
        r == *o,
{
    match o {
        Some(s) => Some(s.clone()),
        None => None,
    }
}

impl VoiceConnectionRecord {
    /// A field-for-field copy.
    pub fn cloned(&self) -> (r: VoiceConnectionRecord)
        ensures
            r == *self,
    {
        VoiceConnectionRecord {
            guild_id: self.guild_id.clone(),
            channel_id: clone_opt_string(&self.channel_id),
            connected_at: self.connected_at,
            last_activity: self.last_activity,
            is_playing: self.is_playing,
            current_track_title: clone_opt_string(&self.current_track_title),
        }
    }
}

/// The record of guild `g` in a row list, reading the first row whose key
/// matches.
pub open spec fn record_in(rs: Seq<VoiceConnectionRecord>, g: Seq<char>) -> Option<
    VoiceConnectionRecord,
>
    decreases rs.len(),
{
    if rs.len() == 0 {
        None
    } else if rs.first().guild_id@ == g {
        Some(rs.first())
    } else {
        record_in(rs.drop_first(), g)
    }
}

proof fn lemma_record_in_skip(rs: Seq<VoiceConnectionRecord>, g: Seq<char>, k: int)
    requires
        0 <= k <= rs.len(),
        forall|j: int| 0 <= j < k ==> (#[trigger] rs[j]).guild_id@ != g,
    ensures
        record_in(rs, g) == record_in(rs.skip(k), g),
    decreases k,
{
    if k == 0 {
        assert(rs.skip(0) =~= rs);
    } else {
        lemma_record_in_skip(rs.drop_first(), g, k - 1);
        assert(rs.drop_first().skip(k - 1) =~= rs.skip(k));
    }
}

proof fn lemma_record_in_update(
    rs: Seq<VoiceConnectionRecord>,
    i: int,
    rec: VoiceConnectionRecord,
    h: Seq<char>,
)
    requires
        0 <= i < rs.len(),
        rec.guild_id@ == rs[i].guild_id@,
        forall|j: int| 0 <= j < i ==> (#[trigger] rs[j]).guild_id@ != rs[i].guild_id@,
    ensures
        record_in(rs.update(i, rec), h) == if h == rec.guild_id@ {
            Some(rec)
        } else {
            record_in(rs, h)
        },
    decreases i,
{
    let rs2 = rs.update(i, rec);
    if i == 0 {
        assert(rs2.first() == rec);
        if h != rec.guild_id@ {
            assert(rs2.drop_first() =~= rs.drop_first());
        }
    } else {
        assert(rs2.first() == rs.first());
        assert(rs2.drop_first() =~= rs.drop_first().update(i - 1, rec));
        lemma_record_in_update(rs.drop_first(), i - 1, rec, h);
    }
}

proof fn lemma_record_in_push(
    rs: Seq<VoiceConnectionRecord>,
    rec: VoiceConnectionRecord,
    h: Seq<char>,
)
    requires
        record_in(rs, rec.guild_id@) is None,
    ensures
        record_in(rs.push(rec), h) == if h == rec.guild_id@ {
            Some(rec)
        } else {
            record_in(rs, h)
        },
    decreases rs.len(),
{
    if rs.len() == 0 {
        assert(rs.push(rec).first() == rec);
        assert(rs.push(rec).drop_first() =~= Seq::<VoiceConnectionRecord>::empty());
        if h == rec.guild_id@ {
            assert(record_in(rs.push(rec), h) == Some(rec));
        } else {
            assert(record_in(rs.push(rec), h) == record_in(
                rs.push(rec).drop_first(),
                h,
            ));
        }
    } else {
        assert(rs.push(rec).first() == rs.first());
        assert(rs.push(rec).drop_first() =~= rs.drop_first().push(rec));
        assert(rs.first().guild_id@ != rec.guild_id@);
        lemma_record_in_push(rs.drop_first(), rec, h);
        if rs.first().guild_id@ == h {
            assert(record_in(rs.push(rec), h) == Some(rs.first()));
        }
    }
}

proof fn lemma_record_in_remove(rs: Seq<VoiceConnectionRecord>, i: int, h: Seq<char>)
    requires
        0 <= i < rs.len(),
        forall|j: int| 0 <= j < i ==> (#[trigger] rs[j]).guild_id@ != rs[i].guild_id@,
        record_in(rs.skip(i + 1), rs[i].guild_id@) is None,
    ensures
        record_in(rs.remove(i), h) == if h == rs[i].guild_id@ {
            None
        } else {
            record_in(rs, h)
        },
    decreases i,
{
    if i == 0 {
        assert(rs.remove(0) =~= rs.drop_first());
        assert(rs.skip(1) =~= rs.drop_first());
    } else {
        assert(rs.remove(i).first() == rs.first());
        assert(rs.remove(i).drop_first() =~= rs.drop_first().remove(i - 1));
        assert(rs.drop_first()[i - 1] == rs[i]);
        assert(rs.drop_first().skip(i) =~= rs.skip(i + 1));
        lemma_record_in_remove(rs.drop_first(), i - 1, h);
    }
}

/// Picks the rows that carry a join desire: those with a channel id set.
pub open spec fn pending_pred() -> spec_fn(VoiceConnectionRecord) -> bool {
    |rec: VoiceConnectionRecord| rec.channel_id is Some
}

/// The connection-record store.
pub struct VoiceConnectionStore {
    pub records: Vec<VoiceConnectionRecord>,
}

impl VoiceConnectionStore {
    /// Guild ids are unique across rows.
    pub open spec fn wf(self) -> bool {
        forall|i: int, j: int|
            0 <= i < self.records@.len() && 0 <= j < self.records@.len() && i != j ==> (
            #[trigger] self.records@[i]).guild_id@ != (#[trigger] self.records@[j]).guild_id@
    }

    /// The record of guild `g`, if one exists.
    pub open spec fn record_of(self, g: Seq<char>) -> Option<VoiceConnectionRecord> {
        record_in(self.records@, g)
    }

    pub fn new() -> (r: VoiceConnectionStore)
        ensures
            r.wf(),
            forall|g: Seq<char>| #[trigger] r.record_of(g) is None,
            r.records@.len() == 0,
    {
        VoiceConnectionStore { records: Vec::new() }
    }

    fn find_index(&self, guild_id: &str) -> (r: Option<usize>)
        ensures
            r matches Some(i) ==> i < self.records@.len() && self.records@[i as int].guild_id@
                == guild_id@ && (forall|j: int|
                0 <= j < i ==> (#[trigger] self.records@[j]).guild_id@ != guild_id@)
                && self.record_of(guild_id@) == Some(self.records@[i as int]),
            r is None ==> self.record_of(guild_id@) is None && (forall|j: int|
                0 <= j < self.records@.len() ==> (#[trigger] self.records@[j]).guild_id@
                    != guild_id@),
    {
        let n = self.records.len();
        let mut i: usize = 0;
        while i < n
            invariant
                0 <= i <= n,
                n == self.records@.len(),
                forall|j: int| 0 <= j < i ==> (#[trigger] self.records@[j]).guild_id@ != guild_id@,
            decreases n - i,
        {
            if str_eq(self.records[i].guild_id.as_str(), guild_id) {
                proof {
                    lemma_record_in_skip(self.records@, guild_id@, i as int);
                    assert(self.records@.skip(i as int).first() == self.records@[i as int]);
                }
                return Some(i);
            }
            i = i + 1;
        }
        proof {
            lemma_record_in_skip(self.records@, guild_id@, n as int);
            assert(self.records@.skip(n as int) =~= Seq::<VoiceConnectionRecord>::empty());
        }
        None
    }

    /// Looks a guild's record up.
    pub fn find_by_guild_id(&self, guild_id: &str) -> (r: Option<VoiceConnectionRecord>)
        ensures
            r == self.record_of(guild_id@),
    {
        match self.find_index(guild_id) {
            Some(i) => Some(self.records[i].cloned()),
            None => None,
        }
    }

    /// Whether the guild has a record at all.
    pub fn is_connected(&self, guild_id: &str) -> (r: bool)
        ensures
            r == (self.record_of(guild_id@) is Some),
    {
        match self.find_index(guild_id) {
            Some(_) => true,
            None => false,
        }
    }

    /// Inserts a fresh record for a guild that has none: both timestamps are
    /// set to `now`, nothing is playing yet.
    pub fn create(&mut self, guild_id: &str, channel_id: Option<&str>, now: i64) -> (r:
        VoiceConnectionRecord)
        requires
            old(self).wf(),
            old(self).record_of(guild_id@) is None,
        ensures
            final(self).wf(),
            final(self).record_of(guild_id@) == Some(r),
            r.guild_id@ == guild_id@,
            channel_id is None ==> r.channel_id is None,
            channel_id matches Some(c0) ==> r.channel_id matches Some(c) && c@ == c0@,
            r.connected_at == now,
            r.last_activity == now,
            r.is_playing == false,
            r.current_track_title is None,
            forall|h: Seq<char>|
                h != guild_id@ ==> #[trigger] final(self).record_of(h) == old(self).record_of(h),
    {
        let rec = VoiceConnectionRecord {
            guild_id: guild_id.to_owned(),
            channel_id: match channel_id {
                Some(c) => Some(c.to_owned()),
                None => None,
            },
            connected_at: now,
            last_activity: now,
            is_playing: false,
            current_track_title: None,
        };
        let r = rec.cloned();
        let ghost old_rs = self.records@;
        self.records.push(rec);
        proof {
            let rec2 = self.records@.last();
            lemma_record_in_push(old_rs, rec2, guild_id@);
            assert forall|h: Seq<char>| h != guild_id@ implies #[trigger] record_in(
                self.records@,
                h,
            ) == record_in(old_rs, h) by {
                lemma_record_in_push(old_rs, rec2, h);
            }
            assert forall|i: int, j: int|
                0 <= i < self.records@.len() && 0 <= j < self.records@.len() && i != j implies (
            #[trigger] self.records@[i]).guild_id@ != (#[trigger] self.records@[j]).guild_id@ by {
                if i < old_rs.len() && j < old_rs.len() {
                } else if j == old_rs.len() {
                    if self.records@[i].guild_id@ == guild_id@ {
                        lemma_record_in_skip(old_rs, guild_id@, i);
                        assert(old_rs.skip(i).first() == old_rs[i]);
                        assert(record_in(old_rs, guild_id@) is Some);
                    }
                } else {
                    if self.records@[j].guild_id@ == guild_id@ {
                        lemma_record_in_skip(old_rs, guild_id@, j);
                        assert(old_rs.skip(j).first() == old_rs[j]);
                        assert(record_in(old_rs, guild_id@) is Some);
                    }
                }
            }
        }
        r
    }

    /// Upserts the join desire of a guild: an existing record keeps its
    /// `connected_at` and playing state but gets the new channel and a fresh
    /// `last_activity`; a missing one is created as by `create`.
    pub fn create_or_update(&mut self, guild_id: &str, channel_id: Option<&str>, now: i64) -> (r:
        VoiceConnectionRecord)
        requires
            old(self).wf(),
        ensures
            final(self).wf(),
            final(self).record_of(guild_id@) == Some(r),
            r.guild_id@ == guild_id@,
            channel_id is None ==> r.channel_id is None,
            channel_id matches Some(c0) ==> r.channel_id matches Some(c) && c@ == c0@,
            r.last_activity == now,
            old(self).record_of(guild_id@) matches Some(prev) ==> r.connected_at
                == prev.connected_at && r.is_playing == prev.is_playing
                && r.current_track_title == prev.current_track_title,
            old(self).record_of(guild_id@) is None ==> r.connected_at == now && r.is_playing
                == false && r.current_track_title is None,
            forall|h: Seq<char>|
                h != guild_id@ ==> #[trigger] final(self).record_of(h) == old(self).record_of(h),
    {
        match self.find_index(guild_id) {
            Some(i) => {
                let prev = &self.records[i];
                let rec = VoiceConnectionRecord {
                    guild_id: prev.guild_id.clone(),
                    channel_id: match channel_id {
                        Some(c) => Some(c.to_owned()),
                        None => None,
                    },
                    connected_at: prev.connected_at,
                    last_activity: now,
                    is_playing: prev.is_playing,
                    current_track_title: clone_opt_string(&prev.current_track_title),
                };
                let r = rec.cloned();
                let ghost old_rs = self.records@;
                self.records[i] = rec;
                proof {
                    let rec2 = self.records@[i as int];
                    assert(self.records@ =~= old_rs.update(i as int, rec2));
                    lemma_record_in_update(old_rs, i as int, rec2, guild_id@);
                    assert forall|h: Seq<char>| h != guild_id@ implies #[trigger] record_in(
                        self.records@,
                        h,
                    ) == record_in(old_rs, h) by {
                        lemma_record_in_update(old_rs, i as int, rec2, h);
                    }
                }
                r
            },
            None => self.create(guild_id, channel_id, now),
        }
    }

    /// Stamps `last_activity` on a guild's record; returns how many rows that
    /// touched (0 or 1).
    pub fn update_last_activity(&mut self, guild_id: &str, now: i64) -> (r: usize)
        requires
            old(self).wf(),
        ensures
            final(self).wf(),
            old(self).record_of(guild_id@) is None ==> r == 0 && *final(self) == *old(self),
            old(self).record_of(guild_id@) matches Some(prev) ==> r == 1 && final(self).record_of(
                guild_id@,
            ) == Some((VoiceConnectionRecord { last_activity: now, ..prev })),
            forall|h: Seq<char>|
                h != guild_id@ ==> #[trigger] final(self).record_of(h) == old(self).record_of(h),
    {
        match self.find_index(guild_id) {
            Some(i) => {
                let prev = &self.records[i];
                let rec = VoiceConnectionRecord {
                    guild_id: prev.guild_id.clone(),
                    channel_id: clone_opt_string(&prev.channel_id),
                    connected_at: prev.connected_at,
                    last_activity: now,
                    is_playing: prev.is_playing,
                    current_track_title: clone_opt_string(&prev.current_track_title),
                };
                let ghost old_rs = self.records@;
                self.records[i] = rec;
                proof {
                    let rec2 = self.records@[i as int];
                    assert(self.records@ =~= old_rs.update(i as int, rec2));
                    lemma_record_in_update(old_rs, i as int, rec2, guild_id@);
                    assert forall|h: Seq<char>| h != guild_id@ implies #[trigger] record_in(
                        self.records@,
                        h,
                    ) == record_in(old_rs, h) by {
                        lemma_record_in_update(old_rs, i as int, rec2, h);
                    }
                }
                1
            },
            None => 0,
        }
    }

    /// Sets the playing flag and the current track title, stamping
    /// `last_activity`; returns how many rows that touched (0 or 1).
    pub fn update_playing_status(
        &mut self,
        guild_id: &str,
        is_playing: bool,
        current_track_title: Option<&str>,
        now: i64,
    ) -> (r: usize)
        requires
            old(self).wf(),
        ensures
            final(self).wf(),
            old(self).record_of(guild_id@) is None ==> r == 0 && *final(self) == *old(self),
            old(self).record_of(guild_id@) matches Some(prev) ==> {
                &&& r == 1
                &&& final(self).record_of(guild_id@) matches Some(cur)
                &&& cur.guild_id@ == guild_id@
                &&& cur.channel_id == prev.channel_id
                &&& cur.connected_at == prev.connected_at
                &&& cur.last_activity == now
                &&& cur.is_playing == is_playing
                &&& (current_track_title is None ==> cur.current_track_title is None)
                &&& (current_track_title matches Some(t0) ==> cur.current_track_title matches Some(
                    t,
                ) && t@ == t0@)
            },
            forall|h: Seq<char>|
                h != guild_id@ ==> #[trigger] final(self).record_of(h) == old(self).record_of(h),
    {
        match self.find_index(guild_id) {
            Some(i) => {
                let prev = &self.records[i];
                let rec = VoiceConnectionRecord {
                    guild_id: prev.guild_id.clone(),
                    channel_id: clone_opt_string(&prev.channel_id),
                    connected_at: prev.connected_at,
                    last_activity: now,
                    is_playing,
                    current_track_title: match current_track_title {
                        Some(t) => Some(t.to_owned()),
                        None => None,
                    },
                };
                let ghost old_rs = self.records@;
                self.records[i] = rec;
                proof {
                    let rec2 = self.records@[i as int];
                    assert(self.records@ =~= old_rs.update(i as int, rec2));
                    lemma_record_in_update(old_rs, i as int, rec2, guild_id@);
                    assert forall|h: Seq<char>| h != guild_id@ implies #[trigger] record_in(
                        self.records@,
                        h,
                    ) == record_in(old_rs, h) by {
                        lemma_record_in_update(old_rs, i as int, rec2, h);
                    }
                }
                1
            },
            None => 0,
        }
    }

    /// Deletes a guild's record; returns how many rows that removed (0 or 1).
    pub fn delete(&mut self, guild_id: &str) -> (r: usize)
        requires
            old(self).wf(),
        ensures
            final(self).wf(),
            final(self).record_of(guild_id@) is None,
            old(self).record_of(guild_id@) is None ==> r == 0 && *final(self) == *old(self),
            old(self).record_of(guild_id@) is Some ==> r == 1,
            forall|h: Seq<char>|
                h != guild_id@ ==> #[trigger] final(self).record_of(h) == old(self).record_of(h),
    {
        match self.find_index(guild_id) {
            Some(i) => {
                let ghost old_rs = self.records@;
                proof {
                    assert forall|j: int|
                        i < j < old_rs.len() implies (#[trigger] old_rs[j]).guild_id@
                        != guild_id@ by {}
                    lemma_record_in_skip(old_rs.skip(i + 1 as int), guild_id@, (old_rs.len() - i
                        - 1) as int);
                    assert(old_rs.skip(i + 1 as int).skip((old_rs.len() - i - 1) as int)
                        =~= Seq::<VoiceConnectionRecord>::empty());
                    assert forall|j: int|
                        0 <= j < old_rs.skip(i + 1 as int).len() implies (#[trigger] old_rs.skip(
                        i + 1 as int,
                    )[j]).guild_id@ != guild_id@ by {
                        assert(old_rs.skip(i + 1 as int)[j] == old_rs[j + i + 1]);
                    }
                }
                self.records.remove(i);
                proof {
                    lemma_record_in_remove(old_rs, i as int, guild_id@);
                    assert forall|h: Seq<char>| h != guild_id@ implies #[trigger] record_in(
                        self.records@,
                        h,
                    ) == record_in(old_rs, h) by {
                        lemma_record_in_remove(old_rs, i as int, h);
                    }
                }
                1
            },
            None => 0,
        }
    }

    /// Every record, in row order.
    pub fn get_all_connected(&self) -> (r: Vec<VoiceConnectionRecord>)
        ensures
            r@ == self.records@,
    {
        let n = self.records.len();
        let mut out: Vec<VoiceConnectionRecord> = Vec::new();
        let mut i: usize = 0;
        while i < n
            invariant
                0 <= i <= n,
                n == self.records@.len(),
                out@ =~= self.records@.take(i as int),
            decreases n - i,
        {
            out.push(self.records[i].cloned());
            i = i + 1;
        }
        proof {
            assert(self.records@.take(n as int) =~= self.records@);
        }
        out
    }

    /// The records with a channel id set: the join desires the reconciler
    /// acts on, in row order.
    pub fn get_pending_joins(&self) -> (r: Vec<VoiceConnectionRecord>)
        ensures
            r@ == self.records@.filter(pending_pred()),
    {
        let n = self.records.len();
        let mut out: Vec<VoiceConnectionRecord> = Vec::new();
        let mut i: usize = 0;
        proof {
            reveal(Seq::filter);
            assert(self.records@.take(0).filter(pending_pred()) =~= Seq::<
                VoiceConnectionRecord,
            >::empty());
        }
        while i < n
            invariant
                0 <= i <= n,
                n == self.records@.len(),
                out@ =~= self.records@.take(i as int).filter(pending_pred()),
            decreases n - i,
        {
            proof {
                reveal(Seq::filter);
                assert(self.records@.take(i + 1 as int).drop_last() =~= self.records@.take(
                    i as int,
                ));
                assert(self.records@.take(i + 1 as int).last() == self.records@[i as int]);
            }
            let keep = match &self.records[i].channel_id {
                Some(_) => true,
                None => false,
            };
            if keep {
                out.push(self.records[i].cloned());
            }
            i = i + 1;
        }
        proof {
            assert(self.records@.take(n as int) =~= self.records@);
        }
        out
    }

    /// Removes every record; returns how many there were.
    pub fn clear_all_connections(&mut self) -> (r: usize)
        ensures
            final(self).wf(),
            r == old(self).records@.len(),
            final(self).records@.len() == 0,
            forall|g: Seq<char>| #[trigger] final(self).record_of(g) is None,
    {
        let n = self.records.len();
        self.records.clear();
        n
    }

    /// Upserts via the host clock; as `create_or_update` with some `now`.
    pub fn create_or_update_now(&mut self, guild_id: &str, channel_id: Option<&str>) -> (r:
        VoiceConnectionRecord)
        requires
            old(self).wf(),
        ensures
            final(self).wf(),
            final(self).record_of(guild_id@) == Some(r),
            r.guild_id@ == guild_id@,
            channel_id is None ==> r.channel_id is None,
            channel_id matches Some(c0) ==> r.channel_id matches Some(c) && c@ == c0@,
            old(self).record_of(guild_id@) matches Some(prev) ==> r.connected_at
                == prev.connected_at && r.is_playing == prev.is_playing
                && r.current_track_title == prev.current_track_title,
            old(self).record_of(guild_id@) is None ==> r.connected_at == r.last_activity
                && r.is_playing == false && r.current_track_title is None,
            forall|h: Seq<char>|
                h != guild_id@ ==> #[trigger] final(self).record_of(h) == old(self).record_of(h),
    {
        let now = now_unix_seconds();
        self.create_or_update(guild_id, channel_id, now)
    }
}

} // verus!
