//! The durable per-guild playback queue: a position-ordered list of pending
//! tracks per guild, with position 0 as the "now playing" slot.
//!
//! The store upholds one invariant: for every guild the positions of its
//! entries form the contiguous sequence `0 .. N-1`. `add_to_queue` appends at
//! the next free position and `advance_queue` removes the head and shifts the
//! rest down by one.

use vstd::prelude::*;

use crate::text::str_eq;

verus! {

/// One queued track of one guild.
pub struct QueueEntry {
    pub guild_id: String,
    pub position: usize,
    pub url: String,
    pub title: Option<String>,
    pub duration_seconds: Option<u32>,
    pub added_by: String,
    pub added_at: i64,
}

fn clone_opt_string(o: &Option<String>) -> (r: Option<String>)
    ensures
        r == *o,
{
    match o {
        Some(s) => Some(s.clone()),
        None => None,
    }
}

impl QueueEntry {
    /// A field-for-field copy.
    pub fn cloned(&self) -> (r: QueueEntry)
        ensures
            r == *self,
    {
        QueueEntry {
            guild_id: self.guild_id.clone(),
            position: self.position,
            url: self.url.clone(),
            title: clone_opt_string(&self.title),
            duration_seconds: self.duration_seconds,
            added_by: self.added_by.clone(),
            added_at: self.added_at,
        }
    }
}

/// The queue rows of a single guild, ordered by position.
pub struct GuildQueue {
    pub guild_id: String,
    pub entries: Vec<QueueEntry>,
}

impl GuildQueue {
    pub open spec fn wf(self) -> bool {
        forall|i: int|
            0 <= i < self.entries@.len() ==> (#[trigger] self.entries@[i]).guild_id@
                == self.guild_id@ && self.entries@[i].position == i
    }
}

/// The queue of guild `g` in a row list, reading the first row whose key
/// matches.
pub open spec fn queue_in(gs: Seq<GuildQueue>, g: Seq<char>) -> Seq<QueueEntry>
    decreases gs.len(),
{
    if gs.len() == 0 {
        Seq::empty()
    } else if gs.first().guild_id@ == g {
        gs.first().entries@
    } else {
        queue_in(gs.drop_first(), g)
    }
}

pub open spec fn has_guild(gs: Seq<GuildQueue>, g: Seq<char>) -> bool {
    exists|i: int| 0 <= i < gs.len() && (#[trigger] gs[i]).guild_id@ == g
}

proof fn lemma_queue_in_skip(gs: Seq<GuildQueue>, g: Seq<char>, k: int)
    requires
        0 <= k <= gs.len(),
        forall|j: int| 0 <= j < k ==> (#[trigger] gs[j]).guild_id@ != g,
    ensures
        queue_in(gs, g) == queue_in(gs.skip(k), g),
    decreases k,
{
    if k == 0 {
        assert(gs.skip(0) =~= gs);
    } else {
        assert(gs.first().guild_id@ != g);
        lemma_queue_in_skip(gs.drop_first(), g, k - 1);
        assert(gs.drop_first().skip(k - 1) =~= gs.skip(k));
    }
}

proof fn lemma_no_guild_empty(gs: Seq<GuildQueue>, g: Seq<char>)
    requires
        !has_guild(gs, g),
    ensures
        queue_in(gs, g) == Seq::<QueueEntry>::empty(),
{
    lemma_queue_in_skip(gs, g, gs.len() as int);
    assert(gs.skip(gs.len() as int) =~= Seq::<GuildQueue>::empty());
}

proof fn lemma_queue_in_update(gs: Seq<GuildQueue>, i: int, gq: GuildQueue, h: Seq<char>)
    requires
        0 <= i < gs.len(),
        gq.guild_id@ == gs[i].guild_id@,
        forall|j: int| 0 <= j < i ==> (#[trigger] gs[j]).guild_id@ != gs[i].guild_id@,
    ensures
        queue_in(gs.update(i, gq), h) == if h == gq.guild_id@ {
            gq.entries@
        } else {
            queue_in(gs, h)
        },
    decreases i,
{
    let gs2 = gs.update(i, gq);
    if i == 0 {
        assert(gs2.first() == gq);
        if h != gq.guild_id@ {
            assert(gs2.drop_first() =~= gs.drop_first());
        }
    } else {
        assert(gs2.first() == gs.first());
        assert(gs2.drop_first() =~= gs.drop_first().update(i - 1, gq));
        lemma_queue_in_update(gs.drop_first(), i - 1, gq, h);
    }
}

proof fn lemma_queue_in_push(gs: Seq<GuildQueue>, gq: GuildQueue, h: Seq<char>)
    ensures
        queue_in(gs.push(gq), h) == if has_guild(gs, h) {
            queue_in(gs, h)
        } else if gq.guild_id@ == h {
            gq.entries@
        } else {
            Seq::<QueueEntry>::empty()
        },
    decreases gs.len(),
{
    if gs.len() == 0 {
        assert(gs.push(gq).first() == gq);
        assert(gs.push(gq).drop_first() =~= Seq::<GuildQueue>::empty());
        assert(!has_guild(gs, h));
        if gq.guild_id@ != h {
            lemma_no_guild_empty(gs, h);
            assert(queue_in(gs.push(gq), h) == queue_in(
                gs.push(gq).drop_first(),
                h,
            ));
            assert(queue_in(gs.push(gq), h) == Seq::<QueueEntry>::empty());
        } else {
            assert(queue_in(gs.push(gq), h) == gq.entries@);
        }
    } else {
        assert(gs.push(gq).first() == gs.first());
        assert(gs.push(gq).drop_first() =~= gs.drop_first().push(gq));
        lemma_queue_in_push(gs.drop_first(), gq, h);
        if gs.first().guild_id@ == h {
            assert(gs[0].guild_id@ == h);
            assert(has_guild(gs, h));
        } else {
            assert(has_guild(gs, h) == has_guild(gs.drop_first(), h)) by {
                if has_guild(gs, h) {
                    let i = choose|i: int|
                        0 <= i < gs.len() && (#[trigger] gs[i]).guild_id@ == h;
                    assert(gs.drop_first()[i - 1] == gs[i]);
                }
                if has_guild(gs.drop_first(), h) {
                    let i = choose|i: int|
                        0 <= i < gs.drop_first().len() && (#[trigger] gs.drop_first()[i]).guild_id@
                            == h;
                    assert(gs[i + 1] == gs.drop_first()[i]);
                }
            }
        }
    }
}

proof fn lemma_queue_in_wf(gs: Seq<GuildQueue>, g: Seq<char>)
    requires
        forall|i: int| 0 <= i < gs.len() ==> (#[trigger] gs[i]).wf(),
    ensures
        forall|k: int|
            0 <= k < queue_in(gs, g).len() ==> (#[trigger] queue_in(gs, g)[k]).position == k
                && queue_in(gs, g)[k].guild_id@ == g,
    decreases gs.len(),
{
    if gs.len() > 0 {
        assert(gs[0].wf());
        if gs.first().guild_id@ != g {
            assert(forall|i: int|
                0 <= i < gs.drop_first().len() ==> (#[trigger] gs.drop_first()[i]).wf()) by {
                assert(forall|i: int|
                    0 <= i < gs.drop_first().len() ==> gs.drop_first()[i] == gs[i + 1]);
            }
            lemma_queue_in_wf(gs.drop_first(), g);
        }
    }
}

/// The queue store: every guild's rows, keyed by guild id.
pub struct QueueStore {
    pub guilds: Vec<GuildQueue>,
}

impl QueueStore {
    pub open spec fn wf(self) -> bool {
        &&& forall|i: int| 0 <= i < self.guilds@.len() ==> (#[trigger] self.guilds@[i]).wf()
        &&& forall|i: int, j: int|
            0 <= i < self.guilds@.len() && 0 <= j < self.guilds@.len() && i != j ==> (
            #[trigger] self.guilds@[i]).guild_id@ != (#[trigger] self.guilds@[j]).guild_id@
    }

    /// The queue of guild `g`, in playback order.
    pub open spec fn queue_of(self, g: Seq<char>) -> Seq<QueueEntry> {
        queue_in(self.guilds@, g)
    }

    pub fn new() -> (r: QueueStore)
        ensures
            r.wf(),
            forall|g: Seq<char>| #[trigger] r.queue_of(g) == Seq::<QueueEntry>::empty(),
    {
        let r = QueueStore { guilds: Vec::new() };
        proof {
            assert forall|g: Seq<char>| #[trigger] r.queue_of(g) == Seq::<QueueEntry>::empty() by {
                lemma_no_guild_empty(r.guilds@, g);
            }
        }
        r
    }

    fn find_guild_index(&self, guild_id: &str) -> (r: Option<usize>)
        ensures
            r matches Some(i) ==> i < self.guilds@.len() && self.guilds@[i as int].guild_id@
                == guild_id@ && (forall|j: int|
                0 <= j < i ==> (#[trigger] self.guilds@[j]).guild_id@ != guild_id@)
                && self.queue_of(guild_id@) == self.guilds@[i as int].entries@,
            r is None ==> !has_guild(self.guilds@, guild_id@) && self.queue_of(guild_id@)
                == Seq::<QueueEntry>::empty(),
    {
        let n = self.guilds.len();
        let mut i: usize = 0;
        while i < n
            invariant
                0 <= i <= n,
                n == self.guilds@.len(),
                forall|j: int| 0 <= j < i ==> (#[trigger] self.guilds@[j]).guild_id@ != guild_id@,
            decreases n - i,
        {
            if str_eq(self.guilds[i].guild_id.as_str(), guild_id) {
                proof {
                    lemma_queue_in_skip(self.guilds@, guild_id@, i as int);
                    assert(self.guilds@.skip(i as int).first() == self.guilds@[i as int]);
                }
                return Some(i);
            }
            i = i + 1;
        }
        proof {
            lemma_no_guild_empty(self.guilds@, guild_id@);
        }
        None
    }

    /// Inserts a new entry for `guild_id` at the next free position — one past
    /// the highest existing position, or 0 for a guild with no entries — and
    /// returns the new row.
    pub fn add_to_queue(
        &mut self,
        guild_id: &str,
        url: &str,
        title: Option<&str>,
        duration_seconds: Option<u32>,
        added_by: &str,
        added_at: i64,
    ) -> (r: QueueEntry)
        requires
            old(self).wf(),
        ensures
            final(self).wf(),
            final(self).queue_of(guild_id@) == old(self).queue_of(guild_id@).push(r),
            r.guild_id@ == guild_id@,
            r.position == old(self).queue_of(guild_id@).len(),
            r.url@ == url@,
            title is None ==> r.title is None,
            title matches Some(t0) ==> r.title matches Some(t) && t@ == t0@,
            r.duration_seconds == duration_seconds,
            r.added_by@ == added_by@,
            r.added_at == added_at,
            forall|h: Seq<char>|
                h != guild_id@ ==> #[trigger] final(self).queue_of(h) == old(self).queue_of(h),
    {
        let idx = self.find_guild_index(guild_id);
        match idx {
            Some(i) => {
                let position = self.guilds[i].entries.len();
                let entry = QueueEntry {
                    guild_id: guild_id.to_owned(),
                    position,
                    url: url.to_owned(),
                    title: match title {
                        Some(t) => Some(t.to_owned()),
                        None => None,
                    },
                    duration_seconds,
                    added_by: added_by.to_owned(),
                    added_at,
                };
                let r = entry.cloned();
                let ghost old_gs = self.guilds@;
                self.guilds[i].entries.push(entry);
                proof {
                    let gq = self.guilds@[i as int];
                    assert(self.guilds@ =~= old_gs.update(i as int, gq));
                    lemma_queue_in_update(old_gs, i as int, gq, guild_id@);
                    assert forall|h: Seq<char>| h != guild_id@ implies #[trigger] queue_in(
                        self.guilds@,
                        h,
                    ) == queue_in(old_gs, h) by {
                        lemma_queue_in_update(old_gs, i as int, gq, h);
                    }
                }
                r
            },
            None => {
                let entry = QueueEntry {
                    guild_id: guild_id.to_owned(),
                    position: 0,
                    url: url.to_owned(),
                    title: match title {
                        Some(t) => Some(t.to_owned()),
                        None => None,
                    },
                    duration_seconds,
                    added_by: added_by.to_owned(),
                    added_at,
                };
                let r = entry.cloned();
                let mut entries: Vec<QueueEntry> = Vec::new();
                entries.push(entry);
                let gq = GuildQueue { guild_id: guild_id.to_owned(), entries };
                let ghost old_gs = self.guilds@;
                self.guilds.push(gq);
                proof {
                    let gq2 = self.guilds@.last();
                    lemma_queue_in_push(old_gs, gq2, guild_id@);
                    assert(old(self).queue_of(guild_id@).push(r) =~= gq2.entries@);
                    assert forall|h: Seq<char>| h != guild_id@ implies #[trigger] queue_in(
                        self.guilds@,
                        h,
                    ) == queue_in(old_gs, h) by {
                        lemma_queue_in_push(old_gs, gq2, h);
                        if !has_guild(old_gs, h) {
                            lemma_no_guild_empty(old_gs, h);
                        }
                    }
                }
                r
            },
        }
    }

    /// The guild's queue, ascending by position.
    pub fn get_queue(&self, guild_id: &str) -> (r: Vec<QueueEntry>)
        ensures
            r@ == self.queue_of(guild_id@),
    {
        match self.find_guild_index(guild_id) {
            Some(i) => {
                let n = self.guilds[i].entries.len();
                let mut out: Vec<QueueEntry> = Vec::new();
                let mut k: usize = 0;
                while k < n
                    invariant
                        0 <= k <= n,
                        i < self.guilds@.len(),
                        n == self.guilds@[i as int].entries@.len(),
                        out@ =~= self.guilds@[i as int].entries@.take(k as int),
                    decreases n - k,
                {
                    out.push(self.guilds[i].entries[k].cloned());
                    k = k + 1;
                }
                proof {
                    assert(self.guilds@[i as int].entries@.take(n as int) =~= self.guilds@[
                        i as int].entries@);
                }
                out
            },
            None => Vec::new(),
        }
    }

    /// The entry at position 0, if the guild has one.
    pub fn get_current_track(&self, guild_id: &str) -> (r: Option<QueueEntry>)
        ensures
            r is Some <==> self.queue_of(guild_id@).len() > 0,
            r matches Some(e) ==> e == self.queue_of(guild_id@)[0],
    {
        match self.find_guild_index(guild_id) {
            Some(i) => {
                if self.guilds[i].entries.len() > 0 {
                    Some(self.guilds[i].entries[0].cloned())
                } else {
                    None
                }
            },
            None => None,
        }
    }

    /// Deletes the position-0 entry and shifts every remaining entry of the
    /// guild down by one position. On a guild with an empty queue this is a
    /// no-op.
    pub fn advance_queue(&mut self, guild_id: &str)
        requires
            old(self).wf(),
        ensures
            final(self).wf(),
            old(self).queue_of(guild_id@).len() == 0 ==> *final(self) == *old(self),
            old(self).queue_of(guild_id@).len() > 0 ==> {
                &&& final(self).queue_of(guild_id@).len() == old(self).queue_of(
                    guild_id@,
                ).len() - 1
                &&& forall|k: int|
                    0 <= k < final(self).queue_of(guild_id@).len()
                        ==> #[trigger] final(self).queue_of(guild_id@)[k] == (QueueEntry {
                        position: k as usize,
                        ..old(self).queue_of(guild_id@)[k + 1]
                    })
            },
            forall|h: Seq<char>|
                h != guild_id@ ==> #[trigger] final(self).queue_of(h) == old(self).queue_of(h),
    {
        let idx = self.find_guild_index(guild_id);
        match idx {
            Some(i) => {
                let n = self.guilds[i].entries.len();
                if n == 0 {
                    return;
                }
                let mut shifted: Vec<QueueEntry> = Vec::new();
                let mut k: usize = 1;
                while k < n
                    invariant
                        1 <= k <= n,
                        i < self.guilds@.len(),
                        n == self.guilds@[i as int].entries@.len(),
                        shifted@.len() == k - 1,
                        forall|m: int|
                            0 <= m < k - 1 ==> #[trigger] shifted@[m] == (QueueEntry {
                                position: m as usize,
                                ..self.guilds@[i as int].entries@[m + 1]
                            }),
                    decreases n - k,
                {
                    let e = self.guilds[i].entries[k].cloned();
                    shifted.push(QueueEntry { position: k - 1, ..e });
                    k = k + 1;
                }
                let ghost old_gs = self.guilds@;
                self.guilds[i].entries = shifted;
                proof {
                    let gq = self.guilds@[i as int];
                    assert(self.guilds@ =~= old_gs.update(i as int, gq));
                    assert(gq.wf());
                    lemma_queue_in_update(old_gs, i as int, gq, guild_id@);
                    assert forall|h: Seq<char>| h != guild_id@ implies #[trigger] queue_in(
                        self.guilds@,
                        h,
                    ) == queue_in(old_gs, h) by {
                        lemma_queue_in_update(old_gs, i as int, gq, h);
                    }
                }
            },
            None => {},
        }
    }

    /// Removes every entry of the guild; returns how many were removed.
    pub fn clear_guild_queue(&mut self, guild_id: &str) -> (r: usize)
        requires
            old(self).wf(),
        ensures
            final(self).wf(),
            r == old(self).queue_of(guild_id@).len(),
            final(self).queue_of(guild_id@) == Seq::<QueueEntry>::empty(),
            forall|h: Seq<char>|
                h != guild_id@ ==> #[trigger] final(self).queue_of(h) == old(self).queue_of(h),
    {
        let idx = self.find_guild_index(guild_id);
        match idx {
            Some(i) => {
                let n = self.guilds[i].entries.len();
                let empty: Vec<QueueEntry> = Vec::new();
                let ghost old_gs = self.guilds@;
                self.guilds[i].entries = empty;
                proof {
                    let gq = self.guilds@[i as int];
                    assert(self.guilds@ =~= old_gs.update(i as int, gq));
                    lemma_queue_in_update(old_gs, i as int, gq, guild_id@);
                    assert forall|h: Seq<char>| h != guild_id@ implies #[trigger] queue_in(
                        self.guilds@,
                        h,
                    ) == queue_in(old_gs, h) by {
                        lemma_queue_in_update(old_gs, i as int, gq, h);
                    }
                }
                n
            },
            None => 0,
        }
    }
}

/// In a well-formed store the positions of any guild's queue are exactly
/// `0 .. N-1`, in order, with no gaps or duplicates, whatever sequence of
/// operations built the store; and every entry carries the guild's own id.
pub proof fn lemma_queue_positions_contiguous(store: QueueStore, g: Seq<char>)
    requires
        store.wf(),
    ensures
        forall|k: int|
            0 <= k < store.queue_of(g).len() ==> (#[trigger] store.queue_of(g)[k]).position == k
                && store.queue_of(g)[k].guild_id@ == g,
{
    lemma_queue_in_wf(store.guilds@, g);
}

} // verus!
