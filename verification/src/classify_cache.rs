//! A small memory of classified messages.
//!
//! A user message is classified by a model, which costs a network call. The cache
//! answers a message that was classified before in the same place of a
//! conversation: its key covers the message, the length of the history and the
//! last two messages of it. It never holds more than `CACHE_CAP` answers.

use vstd::prelude::*;
use std::collections::hash_map::DefaultHasher;
use std::collections::HashMap;
use std::hash::Hasher;
use vstd::std_specs::hash::*;
use vstd::string::*;
use crate::digest;
use crate::router::{ConversationMessage, Intent};

verus! {

pub const CACHE_CAP: usize = 128;

/// The chunks of one message: its role and its content.
pub open spec fn message_chunks(m: ConversationMessage) -> Seq<Seq<u8>> {
    digest::text_chunks(vstd::utf8::encode_utf8(m.role@)) + digest::text_chunks(
        vstd::utf8::encode_utf8(m.content@),
    )
}

/// The last two messages of a history.
pub open spec fn tail(history: Seq<ConversationMessage>) -> Seq<ConversationMessage> {
    if history.len() <= 2 {
        history
    } else {
        history.subrange(history.len() - 2, history.len() as int)
    }
}

/// The chunks of a list of messages.
pub open spec fn messages_chunks(s: Seq<ConversationMessage>) -> Seq<Seq<u8>>
    decreases s.len(),
{
    if s.len() == 0 {
        Seq::empty()
    } else {
        messages_chunks(s.drop_last()) + message_chunks(s.last())
    }
}

/// What goes into the key of a message: its text, the length of the history, and
/// the last two messages.
pub open spec fn key_chunks(message: Seq<char>, history: Seq<ConversationMessage>) -> Seq<Seq<u8>> {
    digest::text_chunks(vstd::utf8::encode_utf8(message)).push(digest::size_chunk(history.len()))
        + messages_chunks(tail(history))
}

/// The key of a message.
pub open spec fn key_of(message: Seq<char>, history: Seq<ConversationMessage>) -> u64 {
    digest::digest(key_chunks(message, history))
}

/// Computes the key of a message in its place of a conversation.
pub fn cache_key(message: &str, history: &[ConversationMessage]) -> (r: u64)
    ensures
        r == key_of(message@, history@),
{
    let mut h = DefaultHasher::new();
    digest::feed_text(&mut h, message.as_bytes());
    digest::feed_size(&mut h, history.len());
    let ghost head = digest::text_chunks(vstd::utf8::encode_utf8(message@)).push(
        digest::size_chunk(history@.len()),
    );
    assert(h@ == head);
    let n: usize = history.len();
    let from: usize = if n <= 2 {
        0
    } else {
        n - 2
    };
    let ghost last = tail(history@);
    assert(last == history@.subrange(from as int, n as int));
    assert(last.take(0) == Seq::<ConversationMessage>::empty());
    let mut i: usize = from;
    while i < n
        invariant
            from <= i <= n == history@.len(),
            last == history@.subrange(from as int, n as int),
            h@ == head + messages_chunks(last.take(i - from)),
        decreases n - i,
    {
        let ghost before = h@;
        digest::feed_text(&mut h, history[i].role.as_str().as_bytes());
        digest::feed_text(&mut h, history[i].content.as_str().as_bytes());
        assert(h@ == before + message_chunks(history@[i as int]));
        proof {
            let next = last.take(i - from + 1);
            assert(next.drop_last() == last.take(i - from));
            assert(next.last() == history@[i as int]);
        }
        i += 1;
    }
    assert(last.take(n - from) == last);
    h.finish()
}

/// Classified messages by their keys.
#[derive(Debug)]
pub struct ClassifyCache {
    inner: HashMap<u64, Intent>,
}

impl Default for ClassifyCache {
    fn default() -> (r: Self)
        ensures
            r.wf(),
            r.entries() == Map::<u64, Intent>::empty(),
    {
        ClassifyCache { inner: HashMap::with_capacity(CACHE_CAP) }
    }
}

impl ClassifyCache {
    /// The answers by key.
    pub closed spec fn entries(self) -> Map<u64, Intent> {
        self.inner@
    }

    /// The cache holds no more than it may.
    pub open spec fn wf(self) -> bool {
        &&& self.entries().dom().finite()
        &&& self.entries().len() <= CACHE_CAP
    }

    /// Whether `next` holds the answers after one more was stored: at the cap some
    /// answer leaves first, whichever it is.
    pub open spec fn stored(self, key: u64, intent: Intent, next: Map<u64, Intent>) -> bool {
        if self.entries().len() >= CACHE_CAP {
            exists|gone: u64|
                #![trigger self.entries().remove(gone)]
                self.entries().contains_key(gone) && next == self.entries().remove(gone).insert(
                    key,
                    intent,
                )
        } else {
            next == self.entries().insert(key, intent)
        }
    }

    pub fn new() -> (r: Self)
        ensures
            r.wf(),
            r.entries() == Map::<u64, Intent>::empty(),
    {
        ClassifyCache::default()
    }

    /// Drops every answer.
    pub fn clear(&mut self)
        ensures
            final(self).wf(),
            final(self).entries() == Map::<u64, Intent>::empty(),
    {
        self.inner.clear();
    }

    /// The number of answers.
    pub fn len(&self) -> (r: usize)
        ensures
            r == self.entries().len(),
    {
        self.inner.len()
    }

    /// The answer under a key.
    pub fn lookup(&self, key: u64) -> (r: Option<Intent>)
        ensures
            match r {
                Some(intent) => self.entries().contains_key(key) && intent == self.entries()[key],
                None => !self.entries().contains_key(key),
            },
    {
        match self.inner.get(&key) {
            Some(intent) => Some(intent.clone()),
            None => None,
        }
    }

    /// Some key of the cache, whichever comes first.
    fn some_key(&self) -> (r: Option<u64>)
        ensures
            match r {
                Some(k) => self.entries().contains_key(k),
                None => self.entries().len() == 0,
            },
    {
        let mut first: Option<u64> = None;
        for k in it: self.inner.keys()
            invariant
                it.seq().unref().to_set() == self.inner@.dom(),
                it.seq().len() == self.inner@.len(),
                match first {
                    Some(f) => self.inner@.contains_key(f),
                    None => it.index() == 0,
                },
        {
            if first.is_none() {
                assert(it.seq().unref()[it.index()] == *k);
                assert(it.seq().unref().to_set().contains(*k));
                first = Some(*k);
            }
        }
        first
    }

    /// Stores an answer. At the cap some other answer leaves first.
    pub fn store(&mut self, key: u64, intent: Intent)
        requires
            old(self).wf(),
        ensures
            final(self).wf(),
            old(self).stored(key, intent, final(self).entries()),
    {
        if self.inner.len() >= CACHE_CAP {
            if let Some(gone) = self.some_key() {
                let ghost before = self.entries();
                self.inner.remove(&gone);
                assert(self.entries() == before.remove(gone));
            }
        }
        self.inner.insert(key, intent);
    }

    /// The answer that was stored for a message in its place of a conversation.
    pub fn recall(&self, message: &str, history: &[ConversationMessage]) -> (r: Option<Intent>)
        ensures
            match r {
                Some(intent) => self.entries().contains_key(key_of(message@, history@)) && intent
                    == self.entries()[key_of(message@, history@)],
                None => !self.entries().contains_key(key_of(message@, history@)),
            },
    {
        self.lookup(cache_key(message, history))
    }

    /// Stores the answer for a message in its place of a conversation. A failed
    /// classification is `None` and stores nothing.
    pub fn remember(
        &mut self,
        message: &str,
        history: &[ConversationMessage],
        answer: &Option<Intent>,
    )
        requires
            old(self).wf(),
        ensures
            final(self).wf(),
            match *answer {
                Some(intent) => old(self).stored(
                    key_of(message@, history@),
                    intent,
                    final(self).entries(),
                ),
                None => final(self).entries() == old(self).entries(),
            },
    {
        if let Some(intent) = answer {
            self.store(cache_key(message, history), intent.clone());
        }
    }
}

// ---------------------------------------------------------------------------
// Laws
// ---------------------------------------------------------------------------

/// The key looks at no message before the last two: histories of one length that
/// end alike give one key.
pub proof fn law_key_ignores_older_messages(
    message: Seq<char>,
    a: Seq<ConversationMessage>,
    b: Seq<ConversationMessage>,
)
    requires
        a.len() == b.len(),
        tail(a) == tail(b),
    ensures
        key_of(message, a) == key_of(message, b),
{
}

/// What was stored last is what is read back.
pub proof fn law_stored_answers_are_read_back(
    c: ClassifyCache,
    key: u64,
    intent: Intent,
    next: Map<u64, Intent>,
)
    requires
        c.stored(key, intent, next),
    ensures
        next.contains_key(key),
        next[key] == intent,
{
}

/// Storing an answer never changes another one: each other answer of the cache
/// is one that it held before.
pub proof fn law_other_answers_stay(
    c: ClassifyCache,
    key: u64,
    intent: Intent,
    next: Map<u64, Intent>,
    other: u64,
)
    requires
        c.stored(key, intent, next),
        other != key,
        next.contains_key(other),
    ensures
        c.entries().contains_key(other),
        next[other] == c.entries()[other],
{
}

/// The key of a message takes in the message, how long the conversation is and who said
/// what in its last two messages: where two keys are made of the same, all of these are
/// the same.
pub proof fn law_keys_take_in_the_message_and_what_came_before(
    message: Seq<char>,
    history: Seq<ConversationMessage>,
    other: Seq<char>,
    others: Seq<ConversationMessage>,
    back: int,
)
    requires
        history.len() <= u64::MAX,
        others.len() <= u64::MAX,
        key_chunks(message, history) == key_chunks(other, others),
    ensures
        vstd::utf8::encode_utf8(message) == vstd::utf8::encode_utf8(other),
        history.len() == others.len(),
        1 <= back <= 2 && back <= history.len() ==> {
            let a = history[history.len() - back];
            let b = others[others.len() - back];
            &&& vstd::utf8::encode_utf8(a.role@) == vstd::utf8::encode_utf8(b.role@)
            &&& vstd::utf8::encode_utf8(a.content@) == vstd::utf8::encode_utf8(b.content@)
        },
{
    reveal_with_fuel(messages_chunks, 3);
    let x = key_chunks(message, history);
    let y = key_chunks(other, others);
    vstd::bytes::lemma_auto_spec_u64_to_from_le_bytes();
    assert(x[0] == vstd::utf8::encode_utf8(message));
    assert(y[0] == vstd::utf8::encode_utf8(other));
    assert(x[2] == digest::size_chunk(history.len()));
    assert(y[2] == digest::size_chunk(others.len()));
    assert(vstd::bytes::spec_u64_from_le_bytes(x[2]) == history.len() as u64);
    assert(vstd::bytes::spec_u64_from_le_bytes(y[2]) == others.len() as u64);
    assert(history.len() == others.len());
    if 1 <= back <= 2 && back <= history.len() {
        let a = tail(history);
        let b = tail(others);
        let k = a.len() - back;
        assert(a[k] == history[history.len() - back]);
        assert(b[k] == others[others.len() - back]);
        lemma_chunks_at(a, k);
        lemma_chunks_at(b, k);
        assert(x[3 + 4 * k] == messages_chunks(a)[4 * k]);
        assert(y[3 + 4 * k] == messages_chunks(b)[4 * k]);
        assert(x[3 + 4 * k + 2] == messages_chunks(a)[4 * k + 2]);
        assert(y[3 + 4 * k + 2] == messages_chunks(b)[4 * k + 2]);
    }
}

proof fn lemma_chunks_at(s: Seq<ConversationMessage>, k: int)
    requires
        0 <= k < s.len(),
    ensures
        messages_chunks(s).len() == 4 * s.len(),
        messages_chunks(s)[4 * k] == vstd::utf8::encode_utf8(s[k].role@),
        messages_chunks(s)[4 * k + 2] == vstd::utf8::encode_utf8(s[k].content@),
    decreases s.len(),
{
    let t = s.drop_last();
    assert(messages_chunks(Seq::empty()).len() == 0);
    if t.len() > 0 {
        lemma_chunks_at(
            t,
            if k < t.len() {
                k
            } else {
                0
            },
        );
    } else {
        assert(t =~= Seq::empty());
    }
    if k < t.len() {
        assert(t[k] == s[k]);
    }
}

/// The cache holds at most 128 answers, and none has to go while there is room.
pub proof fn law_answers_go_only_where_there_is_no_room(
    c: ClassifyCache,
    key: u64,
    intent: Intent,
    next: Map<u64, Intent>,
    other: u64,
)
    requires
        c.wf(),
        c.stored(key, intent, next),
    ensures
        next.len() <= 128,
        c.entries().len() < 128 && c.entries().contains_key(other) ==> next.contains_key(other),
        next.len() + 1 >= c.entries().len(),
{
    let e = c.entries();
    if e.len() >= CACHE_CAP {
        let gone = choose|gone: u64|
            #![trigger e.remove(gone)]
            e.contains_key(gone) && next == e.remove(gone).insert(key, intent);
        assert(e.remove(gone).dom() =~= e.dom().remove(gone));
        assert(next.dom() =~= e.remove(gone).dom().insert(key));
    } else {
        assert(next.dom() =~= e.dom().insert(key));
    }
}

} // verus!
