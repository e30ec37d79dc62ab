use vstd::prelude::*;

use crate::message::{same_keymap, KeymapMessage};

verus! {

/// tokio_util's cancellation token, carried through opaque.
#[verifier::external_type_specification]
#[verifier::external_body]
pub struct ExCancellationToken(tokio_util::sync::CancellationToken);

/// Where an envelope of messages came from.
#[derive(Clone, Copy, Debug, PartialEq, Eq, Structural)]
pub enum MessageSource {
    Filesystem,
    Task,
    User,
}

/// Loaded content for the preview slot.
pub enum Preview {
    Content(String, Vec<String>),
    Empty(String),
}

/// The message vocabulary of the update step.
pub enum Message {
    Keymap(KeymapMessage),
    EnumerationFinished(String, Option<String>),
    Error(String),
    PathRemoved(String),
    PathsAdded(Vec<String>),
    PreviewLoaded(Preview),
    Rerender,
    Resize(u16, u16),
    TaskStarted(String, u64, tokio_util::sync::CancellationToken),
    TaskEnded(String, u64),
}

/// `m` announces the single new path `p`.
pub open spec fn is_added(m: Message, p: Seq<char>) -> bool {
    m matches Message::PathsAdded(v) && v@.len() == 1 && v@[0]@ == p
}

/// `m` announces that path `p` is gone.
pub open spec fn is_removed(m: Message, p: Seq<char>) -> bool {
    m matches Message::PathRemoved(q) && q@ == p
}

/// One delivered unit of the router: messages in order, the key chord typed so
/// far, and the producer.
pub struct Envelope {
    pub messages: Vec<Message>,
    pub sequence: String,
    pub source: MessageSource,
}


/// The keymap messages among `ms`, in order.
pub open spec fn keymap_messages(ms: Seq<Message>) -> Seq<KeymapMessage>
    decreases ms.len(),
{
    if ms.len() == 0 {
        Seq::empty()
    } else {
        let rest = keymap_messages(ms.drop_last());
        match ms.last() {
            Message::Keymap(k) => rest.push(k),
            _ => rest,
        }
    }
}

impl Envelope {
    /// Copies of the keymap messages the envelope carries, in order.
    pub fn clone_keymap_messages(&self) -> (r: Vec<KeymapMessage>)
        ensures
            r@.len() == keymap_messages(self.messages@).len(),
            forall|i: int|
                0 <= i < r@.len() ==> same_keymap(#[trigger] r@[i], keymap_messages(self.messages@)[i]),
    {
        let mut out: Vec<KeymapMessage> = Vec::new();
        let mut i: usize = 0;
        proof {
            assert(self.messages@.take(0) =~= Seq::<Message>::empty());
        }
        while i < self.messages.len()
            invariant
                i <= self.messages@.len(),
                out@.len() == keymap_messages(self.messages@.take(i as int)).len(),
                forall|j: int|
                    0 <= j < out@.len() ==> same_keymap(
                        #[trigger] out@[j],
                        keymap_messages(self.messages@.take(i as int))[j],
                    ),
            decreases self.messages@.len() - i,
        {
            proof {
                assert(self.messages@.take(i + 1).drop_last() =~= self.messages@.take(i as int));
            }
            if let Message::Keymap(k) = &self.messages[i] {
                out.push(k.duplicate());
            }
            i = i + 1;
        }
        proof {
            assert(self.messages@.take(self.messages@.len() as int) =~= self.messages@);
        }
        out
    }
}

impl Preview {
    /// The path a preview belongs to.
    pub fn path(&self) -> (r: &String)
        ensures
            match self {
                Preview::Content(p, _) => r == p,
                Preview::Empty(p) => r == p,
            },
    {
        match self {
            Preview::Content(p, _) => p,
            Preview::Empty(p) => p,
        }
    }

    /// Previews are the same when they are of one kind and for one path; the
    /// lines are not compared.
    pub fn same_as(&self, other: &Preview) -> (r: bool)
        ensures
            r == match (self, other) {
                (Preview::Content(a, _), Preview::Content(b, _)) => a@ == b@,
                (Preview::Empty(a), Preview::Empty(b)) => a@ == b@,
                _ => false,
            },
    {
        match (self, other) {
            (Preview::Content(a, _), Preview::Content(b, _)) => *a == *b,
            (Preview::Empty(a), Preview::Empty(b)) => *a == *b,
            _ => false,
        }
    }
}

} // verus!
