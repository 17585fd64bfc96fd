//! The shared feed: a bounded run of entries in the order they were added,
//! and the counter that hands out their identities.

use crate::msg::{fits_wire, msg_views, Msg, MsgType, MsgView, MAX_TEXT_BYTES};
use vstd::prelude::*;

verus! {

/// The most entries that the feed takes in; a further one is turned away.
pub const FEED_CAPACITY: usize = 20;

/// The identity that the counter never hands out: at this value it stops.
pub const LAST_ID: i32 = 0x7fff_ffff;

/// The feed as plain values.
pub struct FeedView {
    /// The identity that the next entry gets.
    pub next_id: int,
    /// The entries, oldest first.
    pub entries: Seq<MsgView>,
}

/// What can be asked of the feed.
pub enum Op {
    /// Take an identity without adding an entry.
    Draw,
    /// Add an entry of the given kind and text, stamped with the given time.
    Post { msg_type: MsgType, text: Seq<char>, create_time: u128 },
    /// Drop the entry with the given identity.
    Remove { id: i32 },
}

/// The first entry of the run that has the given identity.
pub open spec fn find_entry(es: Seq<MsgView>, id: i32) -> Option<MsgView>
    decreases es.len(),
{
    if es.len() == 0 {
        None
    } else if es[0].id == id {
        Some(es[0])
    } else {
        find_entry(es.drop_first(), id)
    }
}

/// The run without its first entry that has the given identity.
pub open spec fn remove_entry(es: Seq<MsgView>, id: i32) -> Seq<MsgView>
    decreases es.len(),
{
    if es.len() == 0 {
        es
    } else if es[0].id == id {
        es.drop_first()
    } else {
        seq![es[0]] + remove_entry(es.drop_first(), id)
    }
}

impl FeedView {
    /// What holds of every feed: the counter is positive and ahead of every
    /// identity in the feed, identities grow from each entry to the next, and
    /// every text is short enough to travel.
    pub open spec fn wf(self) -> bool {
        &&& 1 <= self.next_id <= LAST_ID
        &&& forall|i: int|
            0 <= i < self.entries.len() ==> 1 <= (#[trigger] self.entries[i]).id < self.next_id
        &&& forall|i: int, j: int|
            0 <= i < j < self.entries.len() ==> (#[trigger] self.entries[i]).id < (
            #[trigger] self.entries[j]).id
        &&& forall|i: int|
            0 <= i < self.entries.len() ==> fits_wire((#[trigger] self.entries[i]).text)
    }

    /// Whether the feed holds as many entries as it takes.
    pub open spec fn is_full(self) -> bool {
        self.entries.len() >= FEED_CAPACITY
    }

    /// Whether the counter has stopped.
    pub open spec fn exhausted(self) -> bool {
        self.next_id >= LAST_ID
    }

    /// Whether there is room for a new entry and an identity to give it.
    pub open spec fn accepts(self) -> bool {
        !self.is_full() && !self.exhausted()
    }

    /// Whether a new entry with this text would be taken in: there is room
    /// and an identity for it, and the text is short enough to travel.
    pub open spec fn takes(self, text: Seq<char>) -> bool {
        self.accepts() && fits_wire(text)
    }

    /// The identity that the request is answered with, if it gets one. A
    /// request that is turned away gets none.
    pub open spec fn issued(self, op: Op) -> Option<i32> {
        match op {
            Op::Draw => if self.exhausted() {
                None
            } else {
                Some(self.next_id as i32)
            },
            Op::Post { text, .. } => if self.takes(text) {
                Some(self.next_id as i32)
            } else {
                None
            },
            Op::Remove { .. } => None,
        }
    }

    /// The feed after the request. A request that is turned away leaves it as
    /// it was.
    pub open spec fn step(self, op: Op) -> FeedView {
        match op {
            Op::Draw => if self.exhausted() {
                self
            } else {
                FeedView { next_id: self.next_id + 1, entries: self.entries }
            },
            Op::Post { msg_type, text, create_time } => if self.takes(text) {
                FeedView {
                    next_id: self.next_id + 1,
                    entries: self.entries.push(
                        MsgView { id: self.next_id as i32, msg_type, text, create_time },
                    ),
                }
            } else {
                self
            },
            Op::Remove { id } => FeedView {
                next_id: self.next_id,
                entries: remove_entry(self.entries, id),
            },
        }
    }

    /// The feed after the requests, served one after the other.
    pub open spec fn run(self, ops: Seq<Op>) -> FeedView
        decreases ops.len(),
    {
        if ops.len() == 0 {
            self
        } else {
            self.step(ops[0]).run(ops.drop_first())
        }
    }

    /// The identities that the requests were answered with, in the order they
    /// were served.
    pub open spec fn ids_issued(self, ops: Seq<Op>) -> Seq<i32>
        decreases ops.len(),
    {
        if ops.len() == 0 {
            Seq::empty()
        } else {
            let later = self.step(ops[0]).ids_issued(ops.drop_first());
            match self.issued(ops[0]) {
                Some(id) => seq![id] + later,
                None => later,
            }
        }
    }
}

/// Every entry of the run without one identity stood in the run before, and
/// the entries that stay keep their order.
pub proof fn lemma_remove_entry_keeps_order(es: Seq<MsgView>, id: i32)
    ensures
        remove_entry(es, id).len() <= es.len(),
        forall|k: int|
            0 <= k < remove_entry(es, id).len() ==> (#[trigger] remove_entry(es, id)[k]
                == es[k] || remove_entry(es, id)[k] == es[k + 1]),
        find_entry(es, id) is None ==> remove_entry(es, id) == es,
        find_entry(es, id) is Some ==> remove_entry(es, id).len() + 1 == es.len(),
    decreases es.len(),
{
    if es.len() == 0 {
    } else if es[0].id == id {
    } else {
        let tail = es.drop_first();
        lemma_remove_entry_keeps_order(tail, id);
        let out = remove_entry(es, id);
        assert forall|k: int| 0 <= k < out.len() implies (#[trigger] out[k] == es[k] || out[k]
            == es[k + 1]) by {
            if k > 0 {
                assert(out[k] == remove_entry(tail, id)[k - 1]);
                assert(tail[k - 1] == es[k]);
            }
        }
        if find_entry(es, id) is None {
            assert(seq![es[0]] + tail =~= es);
        }
    }
}

/// A feed that is as it should be stays so under any request.
pub proof fn lemma_step_keeps_wf(v: FeedView, op: Op)
    requires
        v.wf(),
    ensures
        v.step(op).wf(),
        v.step(op).next_id >= v.next_id,
        v.issued(op) matches Some(id) ==> v.next_id <= id < v.step(op).next_id,
        v.step(op).entries.len() <= v.entries.len() || v.step(op).entries.len()
            <= FEED_CAPACITY,
{
    match op {
        Op::Remove { id } => {
            lemma_remove_entry_keeps_order(v.entries, id);
            let out = remove_entry(v.entries, id);
            if find_entry(v.entries, id) is Some {
                assert forall|i: int, j: int| 0 <= i < j < out.len() implies (#[trigger] out[i]).id
                    < (#[trigger] out[j]).id by {
                    lemma_remove_entry_monotone(v.entries, id, i, j);
                }
            }
        },
        _ => {},
    }
}

/// In the run without one identity, an entry that stands before another
/// stood before it in the run too.
proof fn lemma_remove_entry_monotone(es: Seq<MsgView>, id: i32, i: int, j: int)
    requires
        0 <= i < j < remove_entry(es, id).len(),
        forall|a: int, b: int|
            0 <= a < b < es.len() ==> (#[trigger] es[a]).id < (#[trigger] es[b]).id,
    ensures
        remove_entry(es, id)[i].id < remove_entry(es, id)[j].id,
    decreases es.len(),
{
    if es.len() == 0 {
    } else if es[0].id == id {
        assert(remove_entry(es, id)[i] == es[i + 1]);
        assert(remove_entry(es, id)[j] == es[j + 1]);
    } else {
        let tail = es.drop_first();
        let out = remove_entry(es, id);
        assert forall|a: int, b: int| 0 <= a < b < tail.len() implies (#[trigger] tail[a]).id < (
        #[trigger] tail[b]).id by {
            assert(tail[a] == es[a + 1]);
            assert(tail[b] == es[b + 1]);
        }
        lemma_remove_entry_keeps_order(tail, id);
        if i == 0 {
            let k = j - 1;
            assert(out[j] == remove_entry(tail, id)[k]);
            assert(remove_entry(tail, id)[k] == tail[k] || remove_entry(tail, id)[k] == tail[k
                + 1]);
            assert(tail[k] == es[k + 1]);
            if k + 1 < tail.len() {
                assert(tail[k + 1] == es[k + 2]);
            }
            assert(out[0] == es[0]);
        } else {
            lemma_remove_entry_monotone(tail, id, i - 1, j - 1);
            assert(out[i] == remove_entry(tail, id)[i - 1]);
            assert(out[j] == remove_entry(tail, id)[j - 1]);
        }
    }
}

/// However many requests are served, in whatever order, the feed stays as it
/// should be, its counter never falls back, and a feed within its capacity
/// stays within it.
pub proof fn lemma_run_keeps_wf(v: FeedView, ops: Seq<Op>)
    requires
        v.wf(),
    ensures
        v.run(ops).wf(),
        v.run(ops).next_id >= v.next_id,
        v.entries.len() <= FEED_CAPACITY ==> v.run(ops).entries.len() <= FEED_CAPACITY,
    decreases ops.len(),
{
    if ops.len() > 0 {
        lemma_step_keeps_wf(v, ops[0]);
        lemma_run_keeps_wf(v.step(ops[0]), ops.drop_first());
    }
}

/// Whatever requests are served, the identities handed out grow from each to
/// the next, so no two are equal, and none was in the feed before.
pub proof fn lemma_ids_issued_increase(v: FeedView, ops: Seq<Op>)
    requires
        v.wf(),
    ensures
        forall|i: int|
            0 <= i < v.ids_issued(ops).len() ==> v.next_id <= (#[trigger] v.ids_issued(ops)[i])
                < v.run(ops).next_id,
        forall|i: int, j: int|
            0 <= i < j < v.ids_issued(ops).len() ==> (#[trigger] v.ids_issued(ops)[i]) < (
            #[trigger] v.ids_issued(ops)[j]),
        forall|i: int, k: int|
            0 <= i < v.ids_issued(ops).len() && 0 <= k < v.entries.len() ==> (
            #[trigger] v.entries[k]).id < (#[trigger] v.ids_issued(ops)[i]),
    decreases ops.len(),
{
    if ops.len() > 0 {
        let tail = ops.drop_first();
        let next = v.step(ops[0]);
        lemma_step_keeps_wf(v, ops[0]);
        lemma_ids_issued_increase(next, tail);
        lemma_run_keeps_wf(next, tail);
        let later = next.ids_issued(tail);
        let ids = v.ids_issued(ops);
        match v.issued(ops[0]) {
            Some(id) => {
                assert(ids =~= seq![id] + later);
                assert forall|i: int| 0 < i < ids.len() implies ids[i] == later[i - 1] by {}
            },
            None => {
                assert(ids =~= later);
            },
        }
    }
}

/// A request to add an entry to a full feed changes nothing: no identity is
/// taken, and no entry appears.
pub proof fn lemma_full_feed_turns_away(v: FeedView, op: Op)
    requires
        v.is_full(),
        op is Post,
    ensures
        v.step(op) == v,
        v.issued(op) is None,
{
}

/// The texts of a run of names.
pub open spec fn names_of(names: Seq<String>) -> Seq<Seq<char>> {
    Seq::new(names.len(), |i: int| names[i]@)
}

/// The names that a feed is seeded with, in order: every name that is short
/// enough to travel, as long as the counter has an identity left.
pub open spec fn seeded(names: Seq<Seq<char>>) -> Seq<Seq<char>>
    decreases names.len(),
{
    if names.len() == 0 {
        Seq::empty()
    } else {
        let before = seeded(names.drop_last());
        if fits_wire(names.last()) && before.len() + 1 < LAST_ID {
            before.push(names.last())
        } else {
            before
        }
    }
}

/// Every name that a feed is seeded with is short enough to travel.
pub proof fn lemma_seeded_fit(names: Seq<Seq<char>>, k: int)
    requires
        0 <= k < seeded(names).len(),
    ensures
        fits_wire(seeded(names)[k]),
    decreases names.len(),
{
    if names.len() > 0 {
        let before = seeded(names.drop_last());
        if k < before.len() {
            lemma_seeded_fit(names.drop_last(), k);
        }
    }
}

/// Where every name is short enough to travel and there are fewer names than
/// identities, every name is seeded.
pub proof fn lemma_seeded_all(names: Seq<Seq<char>>)
    requires
        names.len() < LAST_ID,
        forall|i: int| 0 <= i < names.len() ==> fits_wire(#[trigger] names[i]),
    ensures
        seeded(names) == names,
    decreases names.len(),
{
    if names.len() > 0 {
        let front = names.drop_last();
        assert forall|i: int| 0 <= i < front.len() implies fits_wire(#[trigger] front[i]) by {
            assert(front[i] == names[i]);
        }
        lemma_seeded_all(front);
        assert(front.push(names.last()) =~= names);
    }
}

/// The shared feed. It is made once and handed to every session; whoever
/// changes it holds it alone for the length of the call.
pub struct FeedStore {
    id_gen: i32,
    msg_arr: Vec<Msg>,
}

impl View for FeedStore {
    type V = FeedView;

    closed spec fn view(&self) -> FeedView {
        FeedView { next_id: self.id_gen as int, entries: msg_views(self.msg_arr@) }
    }
}

impl FeedStore {
    /// Whether the feed is as it should be.
    pub open spec fn wf(&self) -> bool {
        self@.wf()
    }

    /// A feed seeded with one file entry for each name, in the order given,
    /// with the identities 1, 2, 3 and so on. A name that is too long to
    /// travel gets no entry and no identity. Seeding is not held to the
    /// feed's capacity: every file that is there is shown.
    pub fn new(file_name_list: Vec<String>) -> (store: FeedStore)
        ensures
            store.wf(),
            store@.next_id == seeded(names_of(file_name_list@)).len() + 1,
            store@.entries.len() == seeded(names_of(file_name_list@)).len(),
            forall|i: int|
                0 <= i < store@.entries.len() ==> {
                    &&& (#[trigger] store@.entries[i]).id == i + 1
                    &&& store@.entries[i].msg_type == MsgType::File
                    &&& store@.entries[i].text == seeded(names_of(file_name_list@))[i]
                },
    {
        let ghost names = names_of(file_name_list@);
        let mut id: i32 = 1;
        let mut msg_list: Vec<Msg> = Vec::new();
        let mut i: usize = 0;
        assert(names.take(0) =~= Seq::<Seq<char>>::empty());
        while i < file_name_list.len()
            invariant
                i <= file_name_list@.len(),
                names == names_of(file_name_list@),
                1 <= id <= LAST_ID,
                id == msg_list@.len() + 1,
                msg_list@.len() == seeded(names.take(i as int)).len(),
                forall|k: int|
                    0 <= k < msg_list@.len() ==> {
                        &&& (#[trigger] msg_list@[k]).id == k + 1
                        &&& msg_list@[k].msg_type == MsgType::File
                        &&& msg_list@[k].text@ == seeded(names.take(i as int))[k]
                    },
            decreases file_name_list@.len() - i,
        {
            let name: String = file_name_list[i].clone();
            proof {
                assert(names.take(i + 1).drop_last() =~= names.take(i as int));
                assert(names.take(i + 1).last() == name@);
            }
            if id < LAST_ID && name.as_str().as_bytes().len() <= MAX_TEXT_BYTES {
                msg_list.push(Msg::new(id, MsgType::File, name));
                id = id + 1;
            }
            i = i + 1;
        }
        assert(names.take(i as int) =~= names);
        let store = FeedStore { id_gen: id, msg_arr: msg_list };
        assert forall|k: int| 0 <= k < store@.entries.len() implies fits_wire(
            (#[trigger] store@.entries[k]).text,
        ) by {
            lemma_seeded_fit(names, k);
        }
        store
    }

    /// How many entries the feed holds.
    pub fn len(&self) -> (n: usize)
        ensures
            n == self@.entries.len(),
    {
        self.msg_arr.len()
    }

    /// Whether the feed holds as many entries as it takes.
    pub fn is_full(&self) -> (b: bool)
        ensures
            b == self@.is_full(),
    {
        self.msg_arr.len() >= FEED_CAPACITY
    }

    /// Whether the counter still has an identity to hand out.
    pub fn has_free_id(&self) -> (b: bool)
        ensures
            b == !self@.exhausted(),
    {
        self.id_gen < LAST_ID
    }

    /// Hands out the next identity. Each call gives a greater one than the
    /// call before.
    pub fn next_id(&mut self) -> (id: i32)
        requires
            old(self).wf(),
            !old(self)@.exhausted(),
        ensures
            final(self).wf(),
            old(self)@.issued(Op::Draw) == Some(id),
            final(self)@ == old(self)@.step(Op::Draw),
    {
        let result: i32 = self.id_gen;
        self.id_gen = result + 1;
        result
    }

    /// Adds an entry with the next identity and hands back a copy of it. A
    /// full feed, or one whose counter has stopped, turns the entry away, and
    /// so is a text too long to travel: then nothing changes and no identity
    /// is taken.
    pub fn append(&mut self, msg_type: MsgType, text: String) -> (added: Option<Msg>)
        requires
            old(self).wf(),
        ensures
            final(self).wf(),
            added is Some <==> old(self)@.takes(text@),
            added is None ==> final(self)@ == old(self)@,
            added matches Some(m) ==> {
                &&& m.id == old(self)@.next_id
                &&& m.msg_type == msg_type
                &&& m.text@ == text@
                &&& old(self)@.issued(
                    Op::Post { msg_type, text: text@, create_time: m.create_time },
                ) == Some(m.id)
                &&& final(self)@ == old(self)@.step(
                    Op::Post { msg_type, text: text@, create_time: m.create_time },
                )
                &&& final(self)@.entries == old(self)@.entries.push(m@)
            },
    {
        if self.msg_arr.len() >= FEED_CAPACITY || self.id_gen >= LAST_ID {
            return None;
        }
        if text.as_str().as_bytes().len() > MAX_TEXT_BYTES {
            return None;
        }
        let id: i32 = self.id_gen;
        let msg = Msg::new(id, msg_type, text);
        let copy = msg.clone();
        self.id_gen = id + 1;
        self.msg_arr.push(msg);
        proof {
            assert(msg_views(self.msg_arr@) =~= msg_views(old(self).msg_arr@).push(copy@));
            lemma_step_keeps_wf(
                old(self)@,
                Op::Post { msg_type, text: text@, create_time: copy.create_time },
            );
        }
        Some(copy)
    }

    /// A copy of the first entry with the given identity, if there is one.
    pub fn find_by_id(&self, id: i32) -> (found: Option<Msg>)
        ensures
            match find_entry(self@.entries, id) {
                Some(e) => found matches Some(m) && m@ == e,
                None => found is None,
            },
    {
        let mut i: usize = 0;
        assert(self@.entries.skip(0) =~= self@.entries);
        while i < self.msg_arr.len()
            invariant
                i <= self.msg_arr@.len(),
                find_entry(self@.entries, id) == find_entry(self@.entries.skip(i as int), id),
            decreases self.msg_arr@.len() - i,
        {
            if self.msg_arr[i].id == id {
                return Some(self.msg_arr[i].clone());
            }
            assert(self@.entries.skip(i as int).drop_first() =~= self@.entries.skip(i + 1));
            i = i + 1;
        }
        None
    }

    /// A copy of every entry, oldest first.
    pub fn snapshot(&self) -> (all: Vec<Msg>)
        ensures
            msg_views(all@) == self@.entries,
    {
        let mut all: Vec<Msg> = Vec::new();
        let mut i: usize = 0;
        while i < self.msg_arr.len()
            invariant
                i <= self.msg_arr@.len(),
                all@.len() == i,
                forall|k: int| 0 <= k < i ==> (#[trigger] all@[k])@ == self.msg_arr@[k]@,
            decreases self.msg_arr@.len() - i,
        {
            all.push(self.msg_arr[i].clone());
            i = i + 1;
        }
        assert(msg_views(all@) =~= self@.entries);
        all
    }

    /// Drops the first entry with the given identity and says whether there
    /// was one. The counter stays where it is: the identity is not given out
    /// again.
    pub fn remove(&mut self, id: i32) -> (removed: bool)
        requires
            old(self).wf(),
        ensures
            final(self).wf(),
            final(self)@ == old(self)@.step(Op::Remove { id }),
            removed == (find_entry(old(self)@.entries, id) is Some),
    {
        proof {
            let es = self@.entries;
            lemma_step_keeps_wf(self@, Op::Remove { id });
            assert(es.skip(0) =~= es);
            assert(es.take(0) + remove_entry(es, id) =~= remove_entry(es, id));
        }
        let mut i: usize = 0;
        while i < self.msg_arr.len()
            invariant
                *self == *old(self),
                old(self)@.step(Op::Remove { id }).wf(),
                i <= self.msg_arr@.len(),
                find_entry(self@.entries, id) == find_entry(self@.entries.skip(i as int), id),
                remove_entry(self@.entries, id) == self@.entries.take(i as int) + remove_entry(
                    self@.entries.skip(i as int),
                    id,
                ),
            decreases self.msg_arr@.len() - i,
        {
            let ghost es = self@.entries;
            if self.msg_arr[i].id == id {
                self.msg_arr.remove(i);
                proof {
                    assert(es.skip(i as int)[0] == es[i as int]);
                    assert(es.skip(i as int).drop_first() =~= es.skip(i + 1));
                    assert(msg_views(self.msg_arr@) =~= es.take(i as int) + es.skip(i + 1));
                }
                return true;
            }
            proof {
                assert(es.skip(i as int)[0] == es[i as int]);
                assert(es.skip(i as int).drop_first() =~= es.skip(i + 1));
                assert(es.take(i as int) + (seq![es[i as int]] + remove_entry(es.skip(i + 1), id))
                    =~= es.take(i + 1) + remove_entry(es.skip(i + 1), id));
            }
            i = i + 1;
        }
        proof {
            let es = self@.entries;
            assert(es.skip(i as int) =~= Seq::<MsgView>::empty());
            assert(es.take(i as int) + Seq::<MsgView>::empty() =~= es);
        }
        false
    }
}

} // verus!
