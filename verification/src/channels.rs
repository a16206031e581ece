//! The channel registry: which Slack channel is bound to which IRC channel, and, for each
//! binding, the timestamps of the messages that the gateway posted to Slack and expects to see
//! again as events.
use crate::text::same_text;
use vstd::prelude::*;

verus! {

/// The most timestamps that one channel keeps while waiting for their echoes. When one more is
/// recorded, the oldest leaves.
pub const MAX_MSGS_FROM_IRC_BUFFER: usize = 64;

/// The stamps after `ts` was recorded: `ts` comes last, and the oldest stamp leaves when the
/// bound is passed.
pub open spec fn stamps_after_mark(stamps: Seq<Seq<char>>, ts: Seq<char>) -> Seq<Seq<char>> {
    let pushed = stamps.push(ts);
    if pushed.len() > MAX_MSGS_FROM_IRC_BUFFER {
        pushed.drop_first()
    } else {
        pushed
    }
}

/// The stamps after `ts` was acknowledged: its oldest occurrence is gone, if there was one.
pub open spec fn stamps_after_ack(stamps: Seq<Seq<char>>, ts: Seq<char>) -> Seq<Seq<char>> {
    match stamps.index_of_first(ts) {
        Some(i) => stamps.remove(i),
        None => stamps,
    }
}

/// The timestamps of one channel's pending echoes, oldest first.
pub struct EchoBuffer {
    stamps: Vec<String>,
}

impl View for EchoBuffer {
    type V = Seq<Seq<char>>;

    closed spec fn view(&self) -> Seq<Seq<char>> {
        self.stamps@.map_values(|s: String| s@)
    }
}

impl EchoBuffer {
    #[verifier::type_invariant]
    spec fn bounded(self) -> bool {
        self.stamps@.len() <= MAX_MSGS_FROM_IRC_BUFFER
    }

    /// An empty buffer.
    pub fn new() -> (buffer: EchoBuffer)
        ensures
            buffer@ == Seq::<Seq<char>>::empty(),
    {
        let buffer = EchoBuffer { stamps: Vec::new() };
        assert(buffer@ =~= Seq::<Seq<char>>::empty());
        buffer
    }

    /// How many echoes are pending: never more than the bound.
    pub fn len(&self) -> (len: usize)
        ensures
            len == self@.len(),
            len <= MAX_MSGS_FROM_IRC_BUFFER,
    {
        proof {
            use_type_invariant(self);
        }
        self.stamps.len()
    }

    /// Records `ts` as the newest pending echo.
    pub fn mark(&mut self, ts: String)
        ensures
            final(self)@ == stamps_after_mark(old(self)@, ts@),
            final(self)@.len() <= MAX_MSGS_FROM_IRC_BUFFER,
    {
        proof {
            use_type_invariant(&*self);
        }
        let mut stamps: Vec<String> = Vec::new();
        core::mem::swap(&mut self.stamps, &mut stamps);
        if stamps.len() >= MAX_MSGS_FROM_IRC_BUFFER {
            stamps.remove(0);
        }
        stamps.push(ts);
        self.stamps = stamps;
        assert(self@ =~= stamps_after_mark(old(self)@, ts@));
    }

    /// Where the oldest occurrence of `ts` stands.
    fn position(&self, ts: &str) -> (at: Option<usize>)
        ensures
            at matches Some(i) ==> self@.index_of_first(ts@) == Some(i as int) && i < self@.len(),
            at is None ==> self@.index_of_first(ts@) is None,
    {
        proof {
            self@.index_of_first_ensures(ts@);
        }
        let mut i: usize = 0;
        while i < self.stamps.len()
            invariant
                i <= self.stamps@.len(),
                forall|j: int| 0 <= j < i ==> self@[j] != ts@,
            decreases self.stamps@.len() - i,
        {
            if same_text(self.stamps[i].as_str(), ts) {
                proof {
                    self@.index_of_first_ensures(ts@);
                    assert(self@[i as int] == ts@);
                }
                return Some(i);
            }
            i = i + 1;
        }
        None
    }

    /// Acknowledges `ts`: says whether it was pending, and forgets its oldest occurrence.
    pub fn ack(&mut self, ts: &str) -> (found: bool)
        ensures
            found == old(self)@.contains(ts@),
            final(self)@ == stamps_after_ack(old(self)@, ts@),
            final(self)@.len() <= MAX_MSGS_FROM_IRC_BUFFER,
    {
        proof {
            use_type_invariant(&*self);
            self@.index_of_first_ensures(ts@);
        }
        match self.position(ts) {
            Some(i) => {
                let mut stamps: Vec<String> = Vec::new();
                core::mem::swap(&mut self.stamps, &mut stamps);
                stamps.remove(i);
                self.stamps = stamps;
                assert(self@ =~= old(self)@.remove(i as int));
                true
            },
            None => false,
        }
    }
}

/// What the registry holds for one bound Slack channel.
pub struct Binding<C> {
    /// The name of the IRC channel that the Slack channel is bound to.
    pub irc_channel_name: Seq<char>,
    /// The IRC server's handle of that channel.
    pub channel: C,
    /// The pending echoes, oldest first.
    pub msgs_from_irc: Seq<Seq<char>>,
}

/// No IRC channel is bound to two Slack channels.
pub open spec fn one_to_one<C>(bindings: Map<Seq<char>, Binding<C>>) -> bool {
    forall|a: Seq<char>, b: Seq<char>|
        #![trigger bindings[a], bindings[b]]
        bindings.contains_key(a) && bindings.contains_key(b) && bindings[a].irc_channel_name
            == bindings[b].irc_channel_name ==> a == b
}

/// Every buffer of pending echoes is within the bound.
pub open spec fn echoes_bounded<C>(bindings: Map<Seq<char>, Binding<C>>) -> bool {
    forall|id: Seq<char>|
        bindings.contains_key(id) ==> (#[trigger] bindings[id]).msgs_from_irc.len()
            <= MAX_MSGS_FROM_IRC_BUFFER
}

/// The Slack channels that are bound to the IRC channel `name`.
pub open spec fn bound_to<C>(bindings: Map<Seq<char>, Binding<C>>, name: Seq<char>) -> Set<
    Seq<char>,
> {
    Set::new(|id: Seq<char>| bindings.contains_key(id) && bindings[id].irc_channel_name == name)
}

/// The Slack channel that the IRC channel `name` is bound to, if any.
pub open spec fn channel_id_of<C>(bindings: Map<Seq<char>, Binding<C>>, name: Seq<char>) -> Option<
    Seq<char>,
> {
    if exists|id: Seq<char>| bound_to(bindings, name).contains(id) {
        Some(choose|id: Seq<char>| bound_to(bindings, name).contains(id))
    } else {
        None
    }
}

/// The bindings after `id` was bound to `name`: what either was bound to before is forgotten,
/// and the new binding starts with no pending echoes.
pub open spec fn after_register<C>(
    bindings: Map<Seq<char>, Binding<C>>,
    id: Seq<char>,
    name: Seq<char>,
    channel: C,
) -> Map<Seq<char>, Binding<C>> {
    bindings.remove_keys(bound_to(bindings, name)).insert(
        id,
        Binding { irc_channel_name: name, channel, msgs_from_irc: Seq::empty() },
    )
}

/// The bindings after `ts` was recorded for `id`: unchanged when `id` is not bound.
pub open spec fn after_mark<C>(
    bindings: Map<Seq<char>, Binding<C>>,
    id: Seq<char>,
    ts: Seq<char>,
) -> Map<Seq<char>, Binding<C>> {
    if bindings.contains_key(id) {
        bindings.insert(
            id,
            Binding {
                msgs_from_irc: stamps_after_mark(bindings[id].msgs_from_irc, ts),
                ..bindings[id]
            },
        )
    } else {
        bindings
    }
}

/// Whether `ts` is a pending echo of `id`.
pub open spec fn is_pending<C>(
    bindings: Map<Seq<char>, Binding<C>>,
    id: Seq<char>,
    ts: Seq<char>,
) -> bool {
    bindings.contains_key(id) && bindings[id].msgs_from_irc.contains(ts)
}

/// The bindings after `ts` was acknowledged for `id`: unchanged when `id` is not bound.
pub open spec fn after_ack<C>(
    bindings: Map<Seq<char>, Binding<C>>,
    id: Seq<char>,
    ts: Seq<char>,
) -> Map<Seq<char>, Binding<C>> {
    if bindings.contains_key(id) {
        bindings.insert(
            id,
            Binding {
                msgs_from_irc: stamps_after_ack(bindings[id].msgs_from_irc, ts),
                ..bindings[id]
            },
        )
    } else {
        bindings
    }
}

struct Entry<C> {
    slack_channel_id: String,
    irc_channel_name: String,
    channel: C,
    msgs_from_irc: EchoBuffer,
}

impl<C> Entry<C> {
    spec fn binding(self) -> Binding<C> {
        Binding {
            irc_channel_name: self.irc_channel_name@,
            channel: self.channel,
            msgs_from_irc: self.msgs_from_irc@,
        }
    }
}

spec fn distinct<C>(entries: Seq<Entry<C>>) -> bool {
    forall|i: int, j: int|
        #![trigger entries[i], entries[j]]
        0 <= i < entries.len() && 0 <= j < entries.len() && i != j ==> entries[i].slack_channel_id@
            != entries[j].slack_channel_id@ && entries[i].irc_channel_name@
            != entries[j].irc_channel_name@
}

spec fn within_bound<C>(entries: Seq<Entry<C>>) -> bool {
    forall|i: int|
        0 <= i < entries.len() ==> (#[trigger] entries[i]).msgs_from_irc@.len()
            <= MAX_MSGS_FROM_IRC_BUFFER
}

spec fn holds_id<C>(entries: Seq<Entry<C>>, id: Seq<char>) -> bool {
    exists|i: int| 0 <= i < entries.len() && (#[trigger] entries[i]).slack_channel_id@ == id
}

spec fn index_of_id<C>(entries: Seq<Entry<C>>, id: Seq<char>) -> int {
    choose|i: int| 0 <= i < entries.len() && (#[trigger] entries[i]).slack_channel_id@ == id
}

spec fn bindings_of<C>(entries: Seq<Entry<C>>) -> Map<Seq<char>, Binding<C>> {
    Map::new(
        |id: Seq<char>| holds_id(entries, id),
        |id: Seq<char>| entries[index_of_id(entries, id)].binding(),
    )
}

/// The registry of channel bindings. Each bound Slack channel has one entry, which holds the
/// IRC channel's name and handle together with the pending echoes, so that a binding and its
/// buffer appear and disappear together.
pub struct Channels<C> {
    entries: Vec<Entry<C>>,
}

impl<C> View for Channels<C> {
    type V = Map<Seq<char>, Binding<C>>;

    closed spec fn view(&self) -> Map<Seq<char>, Binding<C>> {
        bindings_of(self.entries@)
    }
}

proof fn lemma_binding_at<C>(entries: Seq<Entry<C>>, i: int)
    requires
        distinct(entries),
        0 <= i < entries.len(),
    ensures
        bindings_of(entries).contains_key(entries[i].slack_channel_id@),
        bindings_of(entries)[entries[i].slack_channel_id@] == entries[i].binding(),
        index_of_id(entries, entries[i].slack_channel_id@) == i,
{
    let id = entries[i].slack_channel_id@;
    assert(holds_id(entries, id));
    let k = index_of_id(entries, id);
    assert(entries[k].slack_channel_id@ == id);
}

proof fn lemma_bindings_one_to_one<C>(entries: Seq<Entry<C>>)
    requires
        distinct(entries),
    ensures
        one_to_one(bindings_of(entries)),
        within_bound(entries) ==> echoes_bounded(bindings_of(entries)),
{
    let m = bindings_of(entries);
    assert forall|a: Seq<char>, b: Seq<char>|
        m.contains_key(a) && m.contains_key(b) && m[a].irc_channel_name
            == m[b].irc_channel_name implies a == b by {
        let i = index_of_id(entries, a);
        let j = index_of_id(entries, b);
        assert(entries[i].slack_channel_id@ == a);
        assert(entries[j].slack_channel_id@ == b);
    }
    if within_bound(entries) {
        assert forall|id: Seq<char>| m.contains_key(id) implies (#[trigger] m[id]).msgs_from_irc.len()
            <= MAX_MSGS_FROM_IRC_BUFFER by {
            let i = index_of_id(entries, id);
            assert(entries[i].slack_channel_id@ == id);
        }
    }
}

proof fn lemma_name_lookup<C>(entries: Seq<Entry<C>>, name: Seq<char>)
    requires
        distinct(entries),
    ensures
        forall|i: int|
            0 <= i < entries.len() && (#[trigger] entries[i]).irc_channel_name@ == name
                ==> channel_id_of(bindings_of(entries), name) == Some(
                entries[i].slack_channel_id@,
            ),
        (forall|i: int| 0 <= i < entries.len() ==> (#[trigger] entries[i]).irc_channel_name@ != name)
            ==> channel_id_of(bindings_of(entries), name) is None,
{
    let m = bindings_of(entries);
    lemma_bindings_one_to_one(entries);
    assert forall|i: int|
        0 <= i < entries.len() && (#[trigger] entries[i]).irc_channel_name@ == name implies channel_id_of(
        m,
        name,
    ) == Some(entries[i].slack_channel_id@) by {
        lemma_binding_at(entries, i);
        let id = entries[i].slack_channel_id@;
        assert(bound_to(m, name).contains(id));
        let chosen = choose|id: Seq<char>| bound_to(m, name).contains(id);
        assert(bound_to(m, name).contains(chosen));
        assert(m[chosen].irc_channel_name == m[id].irc_channel_name);
    }
    if forall|i: int| 0 <= i < entries.len() ==> (#[trigger] entries[i]).irc_channel_name@ != name {
        assert forall|id: Seq<char>| !bound_to(m, name).contains(id) by {
            if m.contains_key(id) {
                let i = index_of_id(entries, id);
                assert(entries[i].slack_channel_id@ == id);
            }
        }
    }
}

proof fn lemma_bindings_push<C>(entries: Seq<Entry<C>>, entry: Entry<C>)
    requires
        distinct(entries.push(entry)),
    ensures
        distinct(entries),
        bindings_of(entries.push(entry)) == bindings_of(entries).insert(
            entry.slack_channel_id@,
            entry.binding(),
        ),
{
    let pushed = entries.push(entry);
    let n = entries.len() as int;
    assert(pushed[n] == entry);
    assert forall|i: int, j: int|
        #![trigger entries[i], entries[j]]
        0 <= i < entries.len() && 0 <= j < entries.len() && i != j implies entries[i].slack_channel_id@
        != entries[j].slack_channel_id@ && entries[i].irc_channel_name@
        != entries[j].irc_channel_name@ by {
        assert(pushed[i] == entries[i] && pushed[j] == entries[j]);
    }
    let before = bindings_of(entries);
    let after = bindings_of(pushed);
    let expected = before.insert(entry.slack_channel_id@, entry.binding());
    assert forall|id: Seq<char>| after.contains_key(id) <==> expected.contains_key(id) by {
        if after.contains_key(id) {
            let i = index_of_id(pushed, id);
            assert(pushed[i].slack_channel_id@ == id);
            if i < n {
                assert(entries[i] == pushed[i]);
                assert(holds_id(entries, id));
            }
        }
        if expected.contains_key(id) {
            if id == entry.slack_channel_id@ {
                assert(holds_id(pushed, id));
            } else {
                let i = index_of_id(entries, id);
                assert(entries[i].slack_channel_id@ == id);
                assert(pushed[i] == entries[i]);
                assert(holds_id(pushed, id));
            }
        }
    }
    assert forall|id: Seq<char>| after.contains_key(id) implies after[id] == expected[id] by {
        let i = index_of_id(pushed, id);
        assert(pushed[i].slack_channel_id@ == id);
        lemma_binding_at(pushed, i);
        if i < n {
            assert(entries[i] == pushed[i]);
            lemma_binding_at(entries, i);
        }
    }
    assert(after =~= expected);
}

proof fn lemma_bindings_remove<C>(entries: Seq<Entry<C>>, at: int)
    requires
        distinct(entries),
        0 <= at < entries.len(),
    ensures
        distinct(entries.remove(at)),
        bindings_of(entries.remove(at)) == bindings_of(entries).remove(
            entries[at].slack_channel_id@,
        ),
{
    let rest = entries.remove(at);
    let gone = entries[at].slack_channel_id@;
    assert forall|i: int| 0 <= i < rest.len() implies #[trigger] rest[i] == entries[if i < at {
        i
    } else {
        i + 1
    }] by {}
    assert forall|i: int, j: int|
        #![trigger rest[i], rest[j]]
        0 <= i < rest.len() && 0 <= j < rest.len() && i != j implies rest[i].slack_channel_id@
        != rest[j].slack_channel_id@ && rest[i].irc_channel_name@ != rest[j].irc_channel_name@ by {
        let a = if i < at { i } else { i + 1 };
        let b = if j < at { j } else { j + 1 };
        assert(rest[i] == entries[a] && rest[j] == entries[b]);
    }
    let before = bindings_of(entries);
    let after = bindings_of(rest);
    let expected = before.remove(gone);
    assert forall|id: Seq<char>| after.contains_key(id) <==> expected.contains_key(id) by {
        if after.contains_key(id) {
            let i = index_of_id(rest, id);
            assert(rest[i].slack_channel_id@ == id);
            let a = if i < at { i } else { i + 1 };
            assert(rest[i] == entries[a]);
            assert(entries[a].slack_channel_id@ == id);
            assert(holds_id(entries, id));
            assert(entries[a].slack_channel_id@ != entries[at].slack_channel_id@);
        }
        if expected.contains_key(id) {
            let a = index_of_id(entries, id);
            assert(entries[a].slack_channel_id@ == id);
            assert(a != at);
            let i = if a < at { a } else { a - 1 };
            assert(rest[i] == entries[a]);
            assert(holds_id(rest, id));
        }
    }
    assert forall|id: Seq<char>| after.contains_key(id) implies after[id] == expected[id] by {
        let i = index_of_id(rest, id);
        assert(rest[i].slack_channel_id@ == id);
        let a = if i < at { i } else { i + 1 };
        assert(rest[i] == entries[a]);
        lemma_binding_at(rest, i);
        lemma_binding_at(entries, a);
    }
    assert(after =~= expected);
}

proof fn lemma_bindings_update<C>(entries: Seq<Entry<C>>, at: int, entry: Entry<C>)
    requires
        distinct(entries),
        0 <= at < entries.len(),
        entry.slack_channel_id@ == entries[at].slack_channel_id@,
        entry.irc_channel_name@ == entries[at].irc_channel_name@,
    ensures
        distinct(entries.update(at, entry)),
        bindings_of(entries.update(at, entry)) == bindings_of(entries).insert(
            entry.slack_channel_id@,
            entry.binding(),
        ),
{
    let updated = entries.update(at, entry);
    assert forall|i: int, j: int|
        #![trigger updated[i], updated[j]]
        0 <= i < updated.len() && 0 <= j < updated.len() && i != j implies updated[i].slack_channel_id@
        != updated[j].slack_channel_id@ && updated[i].irc_channel_name@
        != updated[j].irc_channel_name@ by {
        assert(entries[i].slack_channel_id@ != entries[j].slack_channel_id@);
        assert(entries[i].irc_channel_name@ != entries[j].irc_channel_name@);
    }
    let before = bindings_of(entries);
    let after = bindings_of(updated);
    let expected = before.insert(entry.slack_channel_id@, entry.binding());
    assert forall|id: Seq<char>| after.contains_key(id) <==> expected.contains_key(id) by {
        if after.contains_key(id) {
            let i = index_of_id(updated, id);
            assert(updated[i].slack_channel_id@ == id);
            assert(entries[i].slack_channel_id@ == id);
            assert(holds_id(entries, id));
        }
        if expected.contains_key(id) {
            if id == entry.slack_channel_id@ {
                assert(updated[at].slack_channel_id@ == id);
                assert(holds_id(updated, id));
            } else {
                let i = index_of_id(entries, id);
                assert(entries[i].slack_channel_id@ == id);
                assert(updated[i].slack_channel_id@ == id);
                assert(holds_id(updated, id));
            }
        }
    }
    assert forall|id: Seq<char>| after.contains_key(id) implies after[id] == expected[id] by {
        let i = index_of_id(updated, id);
        assert(updated[i].slack_channel_id@ == id);
        lemma_binding_at(updated, i);
        if i != at {
            assert(entries[i] == updated[i]);
            lemma_binding_at(entries, i);
        }
    }
    assert(after =~= expected);
}

impl<C> Channels<C> {
    #[verifier::type_invariant]
    spec fn well_formed(self) -> bool {
        distinct(self.entries@) && within_bound(self.entries@)
    }

    /// A registry without bindings.
    pub fn new() -> (channels: Channels<C>)
        ensures
            channels@ == Map::<Seq<char>, Binding<C>>::empty(),
            one_to_one(channels@),
            echoes_bounded(channels@),
    {
        let channels = Channels { entries: Vec::new() };
        assert(channels@ =~= Map::<Seq<char>, Binding<C>>::empty());
        channels
    }

    fn find_id(&self, id: &str) -> (at: Option<usize>)
        ensures
            match at {
                Some(i) => i < self.entries@.len() && self.entries@[i as int].slack_channel_id@
                    == id@,
                None => !self@.contains_key(id@),
            },
    {
        let mut i: usize = 0;
        while i < self.entries.len()
            invariant
                i <= self.entries@.len(),
                forall|j: int| 0 <= j < i ==> (#[trigger] self.entries@[j]).slack_channel_id@ != id@,
            decreases self.entries@.len() - i,
        {
            if same_text(self.entries[i].slack_channel_id.as_str(), id) {
                return Some(i);
            }
            i = i + 1;
        }
        None
    }
}

fn find_name<C>(entries: &Vec<Entry<C>>, name: &str) -> (at: Option<usize>)
    ensures
        match at {
            Some(i) => i < entries@.len() && entries@[i as int].irc_channel_name@ == name@,
            None => forall|j: int|
                0 <= j < entries@.len() ==> (#[trigger] entries@[j]).irc_channel_name@ != name@,
        },
{
    let mut i: usize = 0;
    while i < entries.len()
        invariant
            i <= entries@.len(),
            forall|j: int| 0 <= j < i ==> (#[trigger] entries@[j]).irc_channel_name@ != name@,
        decreases entries@.len() - i,
    {
        if same_text(entries[i].irc_channel_name.as_str(), name) {
            return Some(i);
        }
        i = i + 1;
    }
    None
}

/// The Slack channel that the IRC channel `irc_channel_name` is bound to.
pub fn get_channel_id<C>(channels: &Channels<C>, irc_channel_name: &str) -> (found: Option<String>)
    ensures
        one_to_one(channels@),
        echoes_bounded(channels@),
        match found {
            Some(id) => channel_id_of(channels@, irc_channel_name@) == Some(id@),
            None => channel_id_of(channels@, irc_channel_name@) is None,
        },
{
    proof {
        use_type_invariant(channels);
        lemma_name_lookup(channels.entries@, irc_channel_name@);
        lemma_bindings_one_to_one(channels.entries@);
    }
    match find_name(&channels.entries, irc_channel_name) {
        Some(i) => Some(channels.entries[i].slack_channel_id.clone()),
        None => None,
    }
}

/// The handle of the IRC channel that the Slack channel `slack_channel_id` is bound to.
pub fn get_irc_channel<'a, C>(channels: &'a Channels<C>, slack_channel_id: &str) -> (found: Option<
    &'a C,
>)
    ensures
        match found {
            Some(channel) => channels@.contains_key(slack_channel_id@)
                && channels@[slack_channel_id@].channel == *channel,
            None => !channels@.contains_key(slack_channel_id@),
        },
{
    proof {
        use_type_invariant(channels);
    }
    match channels.find_id(slack_channel_id) {
        Some(i) => {
            proof {
                lemma_binding_at(channels.entries@, i as int);
            }
            Some(&channels.entries[i].channel)
        },
        None => None,
    }
}

/// The name of the IRC channel that the Slack channel `slack_channel_id` is bound to.
pub fn get_irc_channel_name<C>(channels: &Channels<C>, slack_channel_id: &str) -> (found: Option<
    String,
>)
    ensures
        match found {
            Some(name) => channels@.contains_key(slack_channel_id@)
                && channels@[slack_channel_id@].irc_channel_name == name@,
            None => !channels@.contains_key(slack_channel_id@),
        },
{
    proof {
        use_type_invariant(channels);
    }
    match channels.find_id(slack_channel_id) {
        Some(i) => {
            proof {
                lemma_binding_at(channels.entries@, i as int);
            }
            Some(channels.entries[i].irc_channel_name.clone())
        },
        None => None,
    }
}

/// Records `msg_ts` as the newest pending echo of `slack_channel_id`. Nothing changes when that
/// channel is not bound.
pub fn mark_message_from_irc<C>(channels: &mut Channels<C>, slack_channel_id: &str, msg_ts: String)
    ensures
        final(channels)@ == after_mark(old(channels)@, slack_channel_id@, msg_ts@),
        one_to_one(final(channels)@),
        echoes_bounded(final(channels)@),
{
    proof {
        use_type_invariant(&*channels);
        lemma_bindings_one_to_one(channels.entries@);
    }
    match channels.find_id(slack_channel_id) {
        Some(i) => {
            let mut entries: Vec<Entry<C>> = Vec::new();
            core::mem::swap(&mut channels.entries, &mut entries);
            entries[i].msgs_from_irc.mark(msg_ts);
            proof {
                lemma_binding_at(old(channels).entries@, i as int);
                lemma_bindings_update(old(channels).entries@, i as int, entries@[i as int]);
                assert(entries@ =~= old(channels).entries@.update(i as int, entries@[i as int]));
            }
            channels.entries = entries;
            proof {
                lemma_bindings_one_to_one(channels.entries@);
            }
        },
        None => {},
    }
}

/// Acknowledges `msg_ts` for `slack_channel_id`: says whether it was a pending echo of that
/// channel, and forgets its oldest occurrence. The answer is `false` when the channel is not
/// bound.
pub fn ack_message_from_irc<C>(channels: &mut Channels<C>, slack_channel_id: &str, msg_ts: &str) -> (from_irc:
    bool)
    ensures
        from_irc == is_pending(old(channels)@, slack_channel_id@, msg_ts@),
        final(channels)@ == after_ack(old(channels)@, slack_channel_id@, msg_ts@),
        one_to_one(final(channels)@),
        echoes_bounded(final(channels)@),
{
    proof {
        use_type_invariant(&*channels);
        lemma_bindings_one_to_one(channels.entries@);
    }
    match channels.find_id(slack_channel_id) {
        Some(i) => {
            let mut entries: Vec<Entry<C>> = Vec::new();
            core::mem::swap(&mut channels.entries, &mut entries);
            let from_irc = entries[i].msgs_from_irc.ack(msg_ts);
            proof {
                lemma_binding_at(old(channels).entries@, i as int);
                lemma_bindings_update(old(channels).entries@, i as int, entries@[i as int]);
                assert(entries@ =~= old(channels).entries@.update(i as int, entries@[i as int]));
            }
            channels.entries = entries;
            proof {
                lemma_bindings_one_to_one(channels.entries@);
            }
            from_irc
        },
        None => false,
    }
}

/// Binds the Slack channel `slack_channel_id` to the IRC channel `irc_channel_name`, whose
/// handle is `channel`. A binding that either of the two had before is dropped with its pending
/// echoes, so the registry stays one-to-one; the new binding has no pending echoes.
pub fn register_channel<C>(
    channels: &mut Channels<C>,
    slack_channel_id: String,
    irc_channel_name: String,
    channel: C,
)
    ensures
        final(channels)@ == after_register(
            old(channels)@,
            slack_channel_id@,
            irc_channel_name@,
            channel,
        ),
        one_to_one(final(channels)@),
        echoes_bounded(final(channels)@),
{
    proof {
        use_type_invariant(&*channels);
    }
    let ghost id = slack_channel_id@;
    let ghost name = irc_channel_name@;
    let ghost m0 = channels@;
    let ghost e0 = channels.entries@;
    proof {
        lemma_bindings_one_to_one(e0);
    }
    let by_id = channels.find_id(slack_channel_id.as_str());
    let mut entries: Vec<Entry<C>> = Vec::new();
    core::mem::swap(&mut channels.entries, &mut entries);
    if let Some(i) = by_id {
        proof {
            lemma_bindings_remove(e0, i as int);
        }
        entries.remove(i);
    }
    let ghost e1 = entries@;
    let ghost m1 = bindings_of(e1);
    assert(m1 =~= m0.remove(id));
    assert(distinct(e1));
    let by_name = find_name(&entries, irc_channel_name.as_str());
    proof {
        lemma_name_lookup(e1, name);
    }
    if let Some(j) = by_name {
        proof {
            lemma_bindings_remove(e1, j as int);
            lemma_binding_at(e1, j as int);
        }
        entries.remove(j);
    }
    let ghost e2 = entries@;
    let ghost m2 = bindings_of(e2);
    let entry = Entry { slack_channel_id, irc_channel_name, channel, msgs_from_irc: EchoBuffer::new() };
    proof {
        assert(distinct(e2));
        assert(!m2.contains_key(id));
        assert(forall|key: Seq<char>| m2.contains_key(key) ==> m2[key].irc_channel_name != name) by {
            assert forall|key: Seq<char>| m2.contains_key(key) implies m2[key].irc_channel_name
                != name by {
                assert(m1.contains_key(key));
                if m1[key].irc_channel_name == name {
                    assert(bound_to(m1, name).contains(key));
                }
            }
        }
        let e3 = e2.push(entry);
        assert forall|a: int, b: int|
            #![trigger e3[a], e3[b]]
            0 <= a < e3.len() && 0 <= b < e3.len() && a != b implies e3[a].slack_channel_id@
            != e3[b].slack_channel_id@ && e3[a].irc_channel_name@ != e3[b].irc_channel_name@ by {
            if a < e2.len() && b < e2.len() {
                assert(e2[a] == e3[a] && e2[b] == e3[b]);
            } else {
                let other = if a < e2.len() { a } else { b };
                assert(e2[other] == e3[other]);
                lemma_binding_at(e2, other);
            }
        }
        lemma_bindings_push(e2, entry);
        lemma_bindings_one_to_one(e3);
        let expected = after_register(m0, id, name, channel);
        assert(bindings_of(e3) =~= expected) by {
            assert forall|key: Seq<char>| key != id implies (m2.contains_key(key) <==> (
            m0.contains_key(key) && m0[key].irc_channel_name != name)) by {
                if m0.contains_key(key) && m0[key].irc_channel_name != name {
                    assert(m1.contains_key(key));
                    if let Some(j) = by_name {
                        assert(e1[j as int].slack_channel_id@ != key);
                    }
                }
            }
        }
    }
    entries.push(entry);
    channels.entries = entries;
}

/// The stamps after each of `later` was recorded in turn.
pub open spec fn stamps_after_marks(stamps: Seq<Seq<char>>, later: Seq<Seq<char>>) -> Seq<
    Seq<char>,
>
    decreases later.len(),
{
    if later.len() == 0 {
        stamps
    } else {
        stamps_after_mark(stamps_after_marks(stamps, later.drop_last()), later.last())
    }
}

/// The newest stamps of `stamps`, as many as the bound allows.
pub open spec fn newest(stamps: Seq<Seq<char>>) -> Seq<Seq<char>> {
    if stamps.len() > MAX_MSGS_FROM_IRC_BUFFER {
        stamps.subrange(stamps.len() - MAX_MSGS_FROM_IRC_BUFFER, stamps.len() as int)
    } else {
        stamps
    }
}

/// `ts` stands at no more than one place of `stamps`.
pub open spec fn at_most_once(stamps: Seq<Seq<char>>, ts: Seq<char>) -> bool {
    forall|i: int, j: int|
        0 <= i < stamps.len() && 0 <= j < stamps.len() && stamps[i] == ts && stamps[j] == ts ==> i
            == j
}

/// Recording keeps a buffer within the bound, and a buffer within the bound that records any
/// number of stamps holds exactly the newest of all of them, in their order.
pub proof fn lemma_marks_keep_newest(stamps: Seq<Seq<char>>, later: Seq<Seq<char>>)
    requires
        stamps.len() <= MAX_MSGS_FROM_IRC_BUFFER,
    ensures
        stamps_after_marks(stamps, later) == newest(stamps + later),
        stamps_after_marks(stamps, later).len() <= MAX_MSGS_FROM_IRC_BUFFER,
    decreases later.len(),
{
    if later.len() == 0 {
        assert(stamps + later =~= stamps);
    } else {
        lemma_marks_keep_newest(stamps, later.drop_last());
        assert((stamps + later.drop_last()).push(later.last()) =~= stamps + later);
        assert(stamps_after_marks(stamps, later) =~= newest(stamps + later));
    }
}

/// A stamp that was pushed out of the buffer is not recognised again: once more than the bound
/// has been recorded after it, a stamp that was recorded only once is no longer pending.
pub proof fn lemma_evicted_is_forgotten(stamps: Seq<Seq<char>>, later: Seq<Seq<char>>, at: int)
    requires
        stamps.len() <= MAX_MSGS_FROM_IRC_BUFFER,
        0 <= at < (stamps + later).len() - MAX_MSGS_FROM_IRC_BUFFER,
        at_most_once(stamps + later, (stamps + later)[at]),
    ensures
        !stamps_after_marks(stamps, later).contains((stamps + later)[at]),
{
    lemma_marks_keep_newest(stamps, later);
    let all = stamps + later;
    let kept = newest(all);
    if kept.contains(all[at]) {
        let i = choose|i: int| 0 <= i < kept.len() && kept[i] == all[at];
        assert(all[i + all.len() - MAX_MSGS_FROM_IRC_BUFFER] == all[at]);
    }
}

/// A stamp stays pending while fewer than the bound are recorded after it.
pub proof fn lemma_marked_stays_pending(
    stamps: Seq<Seq<char>>,
    ts: Seq<char>,
    later: Seq<Seq<char>>,
)
    requires
        stamps.len() <= MAX_MSGS_FROM_IRC_BUFFER,
        later.len() < MAX_MSGS_FROM_IRC_BUFFER,
    ensures
        stamps_after_marks(stamps_after_mark(stamps, ts), later).contains(ts),
{
    let marked = stamps_after_mark(stamps, ts);
    lemma_marks_keep_newest(marked, later);
    let all = marked + later;
    let kept = newest(all);
    let at = marked.len() - 1;
    assert(all[at] == ts);
    if all.len() > MAX_MSGS_FROM_IRC_BUFFER {
        assert(kept[at - (all.len() - MAX_MSGS_FROM_IRC_BUFFER)] == ts);
    } else {
        assert(kept[at] == ts);
    }
}

/// Whether `stamp` stands in `stamps` at a place other than `at`.
spec fn stands_elsewhere(stamps: Seq<Seq<char>>, at: int, stamp: Seq<char>) -> bool {
    exists|j: int| 0 <= j < stamps.len() && j != at && stamps[j] == stamp
}

proof fn lemma_remove_keeps_others(stamps: Seq<Seq<char>>, at: int, stamp: Seq<char>)
    requires
        0 <= at < stamps.len(),
    ensures
        stamps.remove(at).contains(stamp) == stands_elsewhere(stamps, at, stamp),
{
    let rest = stamps.remove(at);
    if rest.contains(stamp) {
        let i = choose|i: int| 0 <= i < rest.len() && rest[i] == stamp;
        let j = if i < at { i } else { i + 1 };
        assert(0 <= j < stamps.len() && j != at && stamps[j] == stamp);
    }
    if stands_elsewhere(stamps, at, stamp) {
        let j = choose|j: int| 0 <= j < stamps.len() && j != at && stamps[j] == stamp;
        let i = if j < at { j } else { j - 1 };
        assert(0 <= i < rest.len() && rest[i] == stamp);
    }
}

/// Acknowledging one stamp affects no other: whether another stamp is pending stays as it
/// was, and the buffer does not grow.
pub proof fn lemma_ack_keeps_others(stamps: Seq<Seq<char>>, ts: Seq<char>)
    ensures
        forall|other: Seq<char>|
            other != ts ==> #[trigger] stamps_after_ack(stamps, ts).contains(other)
                == stamps.contains(other),
        stamps_after_ack(stamps, ts).len() <= stamps.len(),
{
    stamps.index_of_first_ensures(ts);
    match stamps.index_of_first(ts) {
        Some(at) => {
            assert forall|other: Seq<char>| other != ts implies #[trigger] stamps.remove(
                at,
            ).contains(other) == stamps.contains(other) by {
                lemma_remove_keeps_others(stamps, at, other);
                if stamps.contains(other) {
                    let j = choose|j: int| 0 <= j < stamps.len() && stamps[j] == other;
                    assert(j != at);
                }
            }
        },
        None => {},
    }
}

/// Acknowledging takes one occurrence away: a stamp that was pending once is not pending
/// afterwards.
pub proof fn lemma_ack_consumes(stamps: Seq<Seq<char>>, ts: Seq<char>)
    requires
        at_most_once(stamps, ts),
    ensures
        !stamps_after_ack(stamps, ts).contains(ts),
{
    stamps.index_of_first_ensures(ts);
    match stamps.index_of_first(ts) {
        Some(at) => {
            lemma_remove_keeps_others(stamps, at, ts);
            if stands_elsewhere(stamps, at, ts) {
                let j = choose|j: int| 0 <= j < stamps.len() && j != at && stamps[j] == ts;
                assert(stamps[at] == ts && stamps[j] == ts);
            }
        },
        None => {},
    }
}

/// The registry's invariants hold whatever is done: binding, recording and acknowledging keep
/// the registry one-to-one and every buffer within the bound.
pub proof fn lemma_invariants_are_kept<C>(
    bindings: Map<Seq<char>, Binding<C>>,
    id: Seq<char>,
    name: Seq<char>,
    channel: C,
    ts: Seq<char>,
)
    requires
        one_to_one(bindings),
        echoes_bounded(bindings),
    ensures
        one_to_one(after_register(bindings, id, name, channel)),
        echoes_bounded(after_register(bindings, id, name, channel)),
        one_to_one(after_mark(bindings, id, ts)),
        echoes_bounded(after_mark(bindings, id, ts)),
        one_to_one(after_ack(bindings, id, ts)),
        echoes_bounded(after_ack(bindings, id, ts)),
{
    lemma_register_resolves(bindings, id, name, channel);
    let registered = after_register(bindings, id, name, channel);
    assert forall|key: Seq<char>| registered.contains_key(key) implies (
    #[trigger] registered[key]).msgs_from_irc.len() <= MAX_MSGS_FROM_IRC_BUFFER by {
        if key != id {
            assert(registered[key] == bindings[key]);
        }
    }
    let marked = after_mark(bindings, id, ts);
    assert forall|key: Seq<char>| marked.contains_key(key) implies (#[trigger] marked[key]).msgs_from_irc.len()
        <= MAX_MSGS_FROM_IRC_BUFFER by {
        assert(bindings.contains_key(key));
        if key != id {
            assert(marked[key] == bindings[key]);
        } else {
            assert(bindings[id].msgs_from_irc.len() <= MAX_MSGS_FROM_IRC_BUFFER);
        }
    }
    assert forall|a: Seq<char>, b: Seq<char>|
        marked.contains_key(a) && marked.contains_key(b) && marked[a].irc_channel_name
            == marked[b].irc_channel_name implies a == b by {
        assert(marked[a].irc_channel_name == bindings[a].irc_channel_name);
        assert(marked[b].irc_channel_name == bindings[b].irc_channel_name);
    }
    let acked = after_ack(bindings, id, ts);
    if bindings.contains_key(id) {
        lemma_ack_keeps_others(bindings[id].msgs_from_irc, ts);
    }
    assert forall|key: Seq<char>| acked.contains_key(key) implies (#[trigger] acked[key]).msgs_from_irc.len()
        <= MAX_MSGS_FROM_IRC_BUFFER by {
        assert(bindings.contains_key(key));
        if key != id {
            assert(acked[key] == bindings[key]);
        } else {
            assert(bindings[id].msgs_from_irc.len() <= MAX_MSGS_FROM_IRC_BUFFER);
        }
    }
    assert forall|a: Seq<char>, b: Seq<char>|
        acked.contains_key(a) && acked.contains_key(b) && acked[a].irc_channel_name
            == acked[b].irc_channel_name implies a == b by {
        assert(acked[a].irc_channel_name == bindings[a].irc_channel_name);
        assert(acked[b].irc_channel_name == bindings[b].irc_channel_name);
    }
}

/// Echo suppression. A timestamp recorded for a bound channel is pending there, so the event
/// that carries it back is recognised; a different timestamp that was not pending before is
/// still not pending, so its event is relayed.
pub proof fn lemma_marked_echo_is_pending<C>(
    bindings: Map<Seq<char>, Binding<C>>,
    id: Seq<char>,
    ts: Seq<char>,
    other: Seq<char>,
)
    requires
        bindings.contains_key(id),
        other != ts,
        !is_pending(bindings, id, other),
    ensures
        is_pending(after_mark(bindings, id, ts), id, ts),
        !is_pending(after_mark(bindings, id, ts), id, other),
{
    let stamps = bindings[id].msgs_from_irc;
    let pushed = stamps.push(ts);
    let marked = stamps_after_mark(stamps, ts);
    assert(pushed[pushed.len() - 1] == ts);
    assert(marked[marked.len() - 1] == ts);
    if marked.contains(other) {
        let i = choose|i: int| 0 <= i < marked.len() && marked[i] == other;
        if pushed.len() > MAX_MSGS_FROM_IRC_BUFFER {
            assert(pushed[i + 1] == other);
            assert(stamps[i + 1] == other);
        } else {
            assert(stamps[i] == other);
        }
    }
}

/// Acknowledging twice. A timestamp that is pending once for a channel is recognised by the
/// first acknowledgement and not by a second one.
pub proof fn lemma_ack_twice<C>(bindings: Map<Seq<char>, Binding<C>>, id: Seq<char>, ts: Seq<char>)
    requires
        is_pending(bindings, id, ts),
        at_most_once(bindings[id].msgs_from_irc, ts),
    ensures
        !is_pending(after_ack(bindings, id, ts), id, ts),
{
    lemma_ack_consumes(bindings[id].msgs_from_irc, ts);
}

/// Binding resolves both ways: after `id` was bound to `name` with `channel`, the name resolves
/// to `id`, `id` to `channel`, and the registry is still one-to-one.
pub proof fn lemma_register_resolves<C>(
    bindings: Map<Seq<char>, Binding<C>>,
    id: Seq<char>,
    name: Seq<char>,
    channel: C,
)
    requires
        one_to_one(bindings),
    ensures
        one_to_one(after_register(bindings, id, name, channel)),
        channel_id_of(after_register(bindings, id, name, channel), name) == Some(id),
        after_register(bindings, id, name, channel).contains_key(id),
        after_register(bindings, id, name, channel)[id].channel == channel,
        after_register(bindings, id, name, channel)[id].irc_channel_name == name,
        after_register(bindings, id, name, channel)[id].msgs_from_irc.len() == 0,
{
    let after = after_register(bindings, id, name, channel);
    assert(bound_to(after, name).contains(id));
    let chosen = choose|key: Seq<char>| bound_to(after, name).contains(key);
    assert(bound_to(after, name).contains(chosen));
    if chosen != id {
        assert(bound_to(bindings, name).contains(chosen));
    }
    assert forall|a: Seq<char>, b: Seq<char>|
        after.contains_key(a) && after.contains_key(b) && after[a].irc_channel_name
            == after[b].irc_channel_name implies a == b by {
        if a != id && b != id {
            assert(bindings[a].irc_channel_name == bindings[b].irc_channel_name);
        } else if a != id {
            assert(!bound_to(bindings, name).contains(a));
        } else if b != id {
            assert(!bound_to(bindings, name).contains(b));
        }
    }
}

/// Binding again forgets the old name: after `id`, bound to `name`, was bound to another name,
/// `name` resolves to nothing.
pub proof fn lemma_rebind_forgets_old_name<C>(
    bindings: Map<Seq<char>, Binding<C>>,
    id: Seq<char>,
    name: Seq<char>,
    channel: C,
    new_name: Seq<char>,
    new_channel: C,
)
    requires
        one_to_one(bindings),
        new_name != name,
    ensures
        channel_id_of(
            after_register(after_register(bindings, id, name, channel), id, new_name, new_channel),
            name,
        ) is None,
{
    let first = after_register(bindings, id, name, channel);
    let second = after_register(first, id, new_name, new_channel);
    lemma_register_resolves(bindings, id, name, channel);
    assert forall|key: Seq<char>| !bound_to(second, name).contains(key) by {
        if bound_to(second, name).contains(key) {
            assert(key != id);
            assert(first.contains_key(key));
            assert(first[key].irc_channel_name == first[id].irc_channel_name);
        }
    }
}

} // verus!
