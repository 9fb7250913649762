//! The values a caller hands to the library and the values it hands back.
use vstd::prelude::*;

verus! {

/// What a message is for.
#[derive(Debug, Clone, Copy, PartialEq, Eq, Structural)]
pub enum MessageType {
    Verification,
    Transactional,
    Notification,
}

/// How a message travels.
#[derive(Debug, Clone, Copy, PartialEq, Eq, Structural)]
pub enum Channel {
    Email,
    WhatsApp,
    Push,
}

/// Which template the API fills in.
#[derive(Debug, Clone, Copy, PartialEq, Eq, Structural)]
pub enum Template {
    Otp,
    Custom,
    Notification,
}

/// The name of a message type, as the API spells it.
pub open spec fn message_type_name(m: MessageType) -> Seq<char> {
    match m {
        MessageType::Verification => "Verification"@,
        MessageType::Transactional => "Transactional"@,
        MessageType::Notification => "Notification"@,
    }
}

/// The name of a channel, as the API spells it.
pub open spec fn channel_name(c: Channel) -> Seq<char> {
    match c {
        Channel::Email => "Email"@,
        Channel::WhatsApp => "WhatsApp"@,
        Channel::Push => "Push"@,
    }
}

/// The name of a template, as the API spells it.
pub open spec fn template_name(t: Template) -> Seq<char> {
    match t {
        Template::Otp => "Otp"@,
        Template::Custom => "Custom"@,
        Template::Notification => "Notification"@,
    }
}

impl MessageType {
    pub fn name(&self) -> (s: &'static str)
        ensures
            s@ == message_type_name(*self),
    {
        match self {
            MessageType::Verification => "Verification",
            MessageType::Transactional => "Transactional",
            MessageType::Notification => "Notification",
        }
    }
}

impl Channel {
    pub fn name(&self) -> (s: &'static str)
        ensures
            s@ == channel_name(*self),
    {
        match self {
            Channel::Email => "Email",
            Channel::WhatsApp => "WhatsApp",
            Channel::Push => "Push",
        }
    }
}

impl Template {
    pub fn name(&self) -> (s: &'static str)
        ensures
            s@ == template_name(*self),
    {
        match self {
            Template::Otp => "Otp",
            Template::Custom => "Custom",
            Template::Notification => "Notification",
        }
    }
}

/// No two entries of `s` share a key.
pub open spec fn keys_distinct<V>(s: Seq<(String, V)>) -> bool {
    forall|i: int, j: int|
        0 <= i < s.len() && 0 <= j < s.len() && i != j ==> #[trigger] s[i].0@ != #[trigger] s[j].0@
}

/// The index of the entry of `s` with key `k`, if there is one.
pub open spec fn key_index<V>(s: Seq<(String, V)>, k: Seq<char>) -> Option<int> {
    if exists|i: int| 0 <= i < s.len() && #[trigger] s[i].0@ == k {
        Some(choose|i: int| 0 <= i < s.len() && #[trigger] s[i].0@ == k)
    } else {
        None
    }
}

/// `s` after an insertion of `(k, v)` with map semantics: an entry with key `k`
/// keeps its place and takes the value `v`; otherwise the pair goes last.
pub open spec fn inserted<V>(s: Seq<(String, V)>, k: String, v: V) -> Seq<(String, V)> {
    match key_index(s, k@) {
        Some(i) => s.update(i, (s[i].0, v)),
        None => s.push((k, v)),
    }
}

/// Law: after an insertion the key holds the new value, keys stay distinct,
/// entries under other keys keep their place and value, and the map grows by
/// one entry exactly when the key was new.
pub proof fn lemma_insert_then_lookup<V>(s: Seq<(String, V)>, k: String, v: V)
    requires
        keys_distinct(s),
    ensures
        keys_distinct(inserted(s, k, v)),
        key_index(inserted(s, k, v), k@) matches Some(i) && inserted(s, k, v)[i].1 == v,
        forall|j: int|
            0 <= j < s.len() && s[j].0@ != k@ ==> #[trigger] inserted(s, k, v)[j] == s[j],
        inserted(s, k, v).len() == s.len() + if key_index(s, k@) is Some {
            0int
        } else {
            1int
        },
{
    let t = inserted(s, k, v);
    match key_index(s, k@) {
        Some(i) => {
            assert(t[i].0@ == k@);
            assert forall|a: int, b: int|
                0 <= a < t.len() && 0 <= b < t.len() && a != b implies #[trigger] t[a].0@
                != #[trigger] t[b].0@ by {
                assert(t[a].0 == s[a].0);
                assert(t[b].0 == s[b].0);
            }
            let w = choose|w: int| 0 <= w < t.len() && #[trigger] t[w].0@ == k@;
            assert(w == i);
        },
        None => {
            assert(t[s.len() as int].0@ == k@);
            assert forall|a: int, b: int|
                0 <= a < t.len() && 0 <= b < t.len() && a != b implies #[trigger] t[a].0@
                != #[trigger] t[b].0@ by {
                if a < s.len() {
                    assert(t[a] == s[a]);
                }
                if b < s.len() {
                    assert(t[b] == s[b]);
                }
            }
            let w = choose|w: int| 0 <= w < t.len() && #[trigger] t[w].0@ == k@;
            assert(w == s.len());
        },
    }
}

/// A map from strings to values that remembers the order in which keys were
/// first inserted. No key occurs twice.
#[derive(Debug)]
pub struct OrderedMap<V> {
    entries: Vec<(String, V)>,
}

impl<V> OrderedMap<V> {
    #[verifier::type_invariant]
    spec fn keys_unique(self) -> bool {
        keys_distinct(self.entries@)
    }

    /// The entries, in insertion order.
    pub closed spec fn entries_view(self) -> Seq<(String, V)> {
        self.entries@
    }

    /// An empty map.
    pub fn new() -> (m: Self)
        ensures
            m.entries_view() == Seq::<(String, V)>::empty(),
    {
        OrderedMap { entries: Vec::new() }
    }

    /// Sets the value of `key`: an existing entry keeps its place, a new key goes last.
    pub fn insert(&mut self, key: String, value: V)
        ensures
            final(self).entries_view() == inserted(old(self).entries_view(), key, value),
    {
        proof {
            use_type_invariant(&*self);
        }
        let mut i: usize = 0;
        while i < self.entries.len()
            invariant
                i <= self.entries.len(),
                self.entries@ == old(self).entries_view(),
                keys_distinct(self.entries@),
                forall|j: int| 0 <= j < i ==> #[trigger] self.entries@[j].0@ != key@,
            decreases self.entries.len() - i,
        {
            if self.entries[i].0 == key {
                let ghost old_entries = self.entries@;
                assert(key_index(old_entries, key@) == Some(i as int)) by {
                    let w = choose|w: int| 0 <= w < old_entries.len() && #[trigger] old_entries[w].0@
                        == key@;
                    assert(old_entries[w].0@ == old_entries[i as int].0@);
                }
                let mut entries: Vec<(String, V)> = Vec::new();
                std::mem::swap(&mut entries, &mut self.entries);
                let ghost taken = entries@;
                let (k, _) = entries.remove(i);
                entries.insert(i, (k, value));
                assert(entries@ == taken.update(i as int, (taken[i as int].0, value)));
                assert forall|a: int, b: int|
                    0 <= a < entries@.len() && 0 <= b < entries@.len() && a != b implies #[trigger] entries@[a].0@
                    != #[trigger] entries@[b].0@ by {
                    assert(entries@[a].0 == taken[a].0);
                    assert(entries@[b].0 == taken[b].0);
                }
                self.entries = entries;
                return ;
            }
            i = i + 1;
        }
        assert(key_index(self.entries@, key@) is None);
        let mut entries: Vec<(String, V)> = Vec::new();
        std::mem::swap(&mut entries, &mut self.entries);
        let ghost taken = entries@;
        entries.push((key, value));
        assert forall|a: int, b: int|
            0 <= a < entries@.len() && 0 <= b < entries@.len() && a != b implies #[trigger] entries@[a].0@
            != #[trigger] entries@[b].0@ by {
            if a < taken.len() && b < taken.len() {
                assert(entries@[a] == taken[a]);
                assert(entries@[b] == taken[b]);
            } else if a < taken.len() {
                assert(entries@[a] == taken[a]);
            } else {
                assert(entries@[b] == taken[b]);
            }
        }
        self.entries = entries;
    }

    /// The number of entries.
    pub fn len(&self) -> (n: usize)
        ensures
            n == self.entries_view().len(),
    {
        self.entries.len()
    }

    /// The entries, in insertion order; no key occurs twice.
    pub fn entries(&self) -> (r: &Vec<(String, V)>)
        ensures
            r@ == self.entries_view(),
            keys_distinct(r@),
    {
        proof {
            use_type_invariant(self);
        }
        &self.entries
    }
}

impl<V: Clone> Clone for OrderedMap<V> {
    /// A copy with the same keys in the same order, each value cloned.
    fn clone(&self) -> (c: Self)
        ensures
            c.entries_view().len() == self.entries_view().len(),
            forall|i: int|
                0 <= i < self.entries_view().len() ==> #[trigger] c.entries_view()[i].0
                    == self.entries_view()[i].0 && cloned::<V>(
                    self.entries_view()[i].1,
                    c.entries_view()[i].1,
                ),
    {
        proof {
            use_type_invariant(self);
        }
        let mut entries: Vec<(String, V)> = Vec::new();
        let mut i: usize = 0;
        while i < self.entries.len()
            invariant
                i <= self.entries.len(),
                keys_distinct(self.entries@),
                entries@.len() == i,
                forall|j: int|
                    0 <= j < i ==> #[trigger] entries@[j].0 == self.entries@[j].0 && cloned::<V>(
                        self.entries@[j].1,
                        entries@[j].1,
                    ),
            decreases self.entries.len() - i,
        {
            let k = self.entries[i].0.clone();
            let v = self.entries[i].1.clone();
            entries.push((k, v));
            i = i + 1;
        }
        assert forall|a: int, b: int|
            0 <= a < entries@.len() && 0 <= b < entries@.len() && a != b implies #[trigger] entries@[a].0@
            != #[trigger] entries@[b].0@ by {
            assert(entries@[a].0 == self.entries@[a].0);
            assert(entries@[b].0 == self.entries@[b].0);
        }
        OrderedMap { entries }
    }
}

/// String keys with string values, such as the `data` of a push notification.
pub type DataMap = OrderedMap<String>;

/// What a message carries. Which fields are required depends on the channel,
/// message type and template; see [`crate::payload::verify_payload`].
#[derive(Debug, Clone)]
pub struct SendPayload {
    /// Email address (Email), phone number with country code (WhatsApp), or
    /// FCM registration token (Push).
    pub to: Option<String>,
    pub otp: Option<String>,
    /// Required for Email. Optional for WhatsApp, where it is a bold first line.
    pub subject: Option<String>,
    pub body: Option<String>,
    /// Push only: the notification title.
    pub title: Option<String>,
    /// Push only: string values delivered to the app.
    pub data: Option<DataMap>,
    /// Push only: an https URL.
    pub image: Option<String>,
    /// Push only: an https URL opened when the notification is tapped.
    pub link: Option<String>,
    /// Push only: the device's X25519 public key, base64.
    pub device_key: Option<String>,
}

impl Default for SendPayload {
    fn default() -> (p: Self)
        ensures
            p.to is None,
            p.otp is None,
            p.subject is None,
            p.body is None,
            p.title is None,
            p.data is None,
            p.image is None,
            p.link is None,
            p.device_key is None,
    {
        SendPayload {
            to: None,
            otp: None,
            subject: None,
            body: None,
            title: None,
            data: None,
            image: None,
            link: None,
            device_key: None,
        }
    }
}

/// One message to send.
#[derive(Debug, Clone)]
pub struct SendInput {
    pub message_type: MessageType,
    pub channel: Channel,
    pub template: Template,
    /// The sender: a verified email domain, a connected WhatsApp number or a
    /// Firebase project.
    pub identity: String,
    pub payload: SendPayload,
}

/// The sealed form of a message, as the API receives it.
#[derive(Debug)]
pub struct EncryptedBody {
    /// The 12-byte nonce, base64.
    pub nonce: String,
    /// ChaCha20-Poly1305 ciphertext and tag, base64.
    pub ciphertext: String,
}

/// The API's reply to a successful request.
#[derive(Debug)]
pub struct ApiResponse {
    pub status: String,
}

/// Credentials given by the caller in place of the process environment.
#[derive(Debug)]
pub struct EnvValues {
    pub api_key: String,
    pub private_key: String,
    pub server_public_key: String,
}

impl Clone for EnvValues {
    fn clone(&self) -> (c: Self)
        ensures
            c == *self,
    {
        EnvValues {
            api_key: self.api_key.clone(),
            private_key: self.private_key.clone(),
            server_public_key: self.server_public_key.clone(),
        }
    }
}

/// The settings found in the process environment, each `None` when unset.
#[derive(Debug, Clone)]
pub struct EnvVars {
    /// `CATZCONNECT_API_KEY`
    pub api_key: Option<String>,
    /// `CATZCONNECT_PRIVATE_KEY`
    pub private_key: Option<String>,
    /// `CATZCONNECT_SERVER_PUBLIC_KEY`
    pub server_public_key: Option<String>,
    /// `CATZCONNECT_BASE_URL`
    pub base_url: Option<String>,
}

} // verus!
