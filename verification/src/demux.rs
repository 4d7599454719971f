//! Telling ICE sessions apart on one UDP socket.
//!
//! Every STUN binding request that reaches the socket carries a username of
//! the form `local:remote`, made of the two username fragments of an ICE
//! session. A request that names this side's fragment announces the remote
//! fragment, and a remote fragment that has not been seen before asks for a
//! new ICE agent.

use crate::text::same_text;
use vstd::prelude::*;

verus! {

/// The text of the USERNAME attribute of the STUN message that a datagram
/// holds, if the datagram is a STUN message with such an attribute in UTF-8.
pub uninterp spec fn username_in(datagram: Seq<u8>) -> Option<Seq<char>>;

/// `stun::message::Message::unmarshal_binary`, then
/// `stun::textattrs::TextAttribute::get_from_as` for the USERNAME attribute:
/// the text of that attribute, or `None` where either reports an error.
#[verifier::external_body]
fn stun_username(datagram: &[u8]) -> (r: Option<String>)
    ensures
        r.deep_view() == username_in(datagram@),
{
    let mut message = stun::message::Message::new();
    message.unmarshal_binary(datagram).ok()?;
    let attribute =
        stun::textattrs::TextAttribute::get_from_as(&message, stun::attributes::ATTR_USERNAME);
    attribute.ok().map(|a| a.text)
}

/// The position of the first colon at or after `from`.
pub open spec fn colon_from(s: Seq<char>, from: int) -> Option<int>
    decreases s.len() - from,
{
    if from < 0 || from >= s.len() {
        None
    } else if s[from] == ':' {
        Some(from)
    } else {
        colon_from(s, from + 1)
    }
}

/// The remote fragment that a username announces to the side whose fragment
/// is `local`: what follows the first colon, where what stands before it is
/// `local`.
pub open spec fn remote_fragment(username: Seq<char>, local: Seq<char>) -> Option<Seq<char>> {
    match colon_from(username, 0) {
        Some(i) => if username.subrange(0, i) == local {
            Some(username.subrange(i + 1, username.len() as int))
        } else {
            None
        },
        None => None,
    }
}

/// The remote fragment that a datagram announces to the side whose fragment
/// is `local`.
pub open spec fn announced(datagram: Seq<u8>, local: Seq<char>) -> Option<Seq<char>> {
    match username_in(datagram) {
        Some(username) => remote_fragment(username, local),
        None => None,
    }
}

/// The remote fragment that a username announces to the side whose fragment
/// is `local`.
pub fn remote_fragment_of(username: &str, local: &str) -> (r: Option<String>)
    ensures
        r.deep_view() == remote_fragment(username@, local@),
{
    let n = username.unicode_len();
    let mut i: usize = 0;
    while i < n
        invariant
            i <= n,
            n == username@.len(),
            colon_from(username@, 0) == colon_from(username@, i as int),
        decreases n - i,
    {
        if username.get_char(i) == ':' {
            let before = username.substring_char(0, i);
            if same_text(before, local) {
                return Some(String::from_str(username.substring_char(i + 1, n)));
            } else {
                return None;
            }
        }
        i += 1;
    }
    None
}

/// The ICE sessions that share one socket: this side's username fragment,
/// and the remote fragments that have announced themselves, each once.
pub struct Demux {
    local: String,
    known: Vec<String>,
}

/// The value of a [`Demux`].
pub struct DemuxView {
    pub local: Seq<char>,
    pub known: Seq<Seq<char>>,
}

impl View for Demux {
    type V = DemuxView;

    closed spec fn view(&self) -> DemuxView {
        DemuxView { local: self.local@, known: self.known.deep_view() }
    }
}

impl Demux {
    /// No remote fragment is known twice. This holds of every demux that
    /// the program holds.
    #[verifier::type_invariant]
    pub closed spec fn no_repeats(self) -> bool {
        self.known.deep_view().no_duplicates()
    }

    /// The sessions of the side whose fragment is `local`; no remote
    /// fragment is known yet.
    pub fn new(local: String) -> (r: Demux)
        ensures
            r@ == (DemuxView { local: local@, known: Seq::empty() }),
    {
        let known: Vec<String> = Vec::new();
        assert(known.deep_view() =~= Seq::<Seq<char>>::empty());
        Demux { local, known }
    }

    /// The remote fragment that a datagram announces to this side.
    pub fn remote_of(&self, datagram: &[u8]) -> (r: Option<String>)
        ensures
            r.deep_view() == announced(datagram@, self@.local),
    {
        match stun_username(datagram) {
            Some(username) => remote_fragment_of(username.as_str(), self.local.as_str()),
            None => None,
        }
    }

    /// Whether a remote fragment is known.
    pub fn knows(&self, remote: &str) -> (r: bool)
        ensures
            r == self@.known.contains(remote@),
            self@.known.no_duplicates(),
    {
        proof {
            use_type_invariant(self);
        }
        let mut i: usize = 0;
        while i < self.known.len()
            invariant
                i <= self.known.len(),
                self@.known.no_duplicates(),
                forall|k: int| 0 <= k < i ==> self.known.deep_view()[k] != remote@,
            decreases self.known.len() - i,
        {
            assert(self.known.deep_view()[i as int] == self.known@[i as int]@);
            if same_text(self.known[i].as_str(), remote) {
                return true;
            }
            i += 1;
        }
        false
    }

    /// Takes note of a remote fragment. `true` where it was not known: an
    /// ICE agent is to be started for it.
    pub fn note(&mut self, remote: String) -> (r: bool)
        ensures
            r == !old(self)@.known.contains(remote@),
            final(self)@.local == old(self)@.local,
            final(self)@.known == if r {
                old(self)@.known.push(remote@)
            } else {
                old(self)@.known
            },
            final(self)@.known.no_duplicates(),
    {
        if self.knows(remote.as_str()) {
            return false;
        }
        let ghost before = self.known.deep_view();
        let ghost value = remote@;
        let mut known = Vec::new();
        core::mem::swap(&mut known, &mut self.known);
        proof {
            let empty: Vec<String> = self.known;
            assert(empty.deep_view() =~= Seq::<Seq<char>>::empty());
        }
        known.push(remote);
        assert(known.deep_view() =~= before.push(value));
        self.known = known;
        true
    }
}

} // verus!
