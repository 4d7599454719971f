//! The JSON form of messages.
//!
//! A message is an object whose `"type"` member names its kind in snake
//! case; the other members are the fields of that kind. The details of an
//! error lie beside its `"type"` and `"msg"` members in the same object.
//! Absent and `null` are the same for an optional field, and members that a
//! kind does not know are passed over.

use crate::identity::{base64_text, peer_of_text, peer_on_wire, PeerId};
use crate::json::{
    distinct_keys, items_view, lemma_list_view, lemma_object_view,
    lemma_printable_list, lemma_printable_object, member_from, members_view, printable, Json,
    JsonValue,
};
use crate::messages::{
    peers_on_wire, IceCandidate, IceCandidateView, Message, MessageView,
    RoutableMessage, RoutableView, SdpType, SessionDescription, SessionDescriptionView,
    UnRoutableMessage, UnRoutableView,
};
use crate::text::same_text;
use vstd::prelude::*;

verus! {

/// The text that a required member holds.
pub open spec fn text_of(v: Option<JsonValue>) -> Option<Seq<char>> {
    match v {
        Some(JsonValue::Text(s)) => Some(s),
        _ => None,
    }
}

/// The text that an optional member holds: `Some(None)` where it is absent
/// or `null`, `None` where it holds anything but a text.
pub open spec fn optional_text_of(v: Option<JsonValue>) -> Option<Option<Seq<char>>> {
    match v {
        None => Some(None),
        Some(JsonValue::Null) => Some(None),
        Some(JsonValue::Text(s)) => Some(Some(s)),
        _ => None,
    }
}

/// The 16-bit index that an optional member holds.
pub open spec fn optional_index_of(v: Option<JsonValue>) -> Option<Option<u16>> {
    match v {
        None => Some(None),
        Some(JsonValue::Null) => Some(None),
        Some(JsonValue::Number(Some(n))) => if n <= 0xffff {
            Some(Some(n as u16))
        } else {
            None
        },
        _ => None,
    }
}

/// The flag that a required member holds.
pub open spec fn flag_of(v: Option<JsonValue>) -> Option<bool> {
    match v {
        Some(JsonValue::Bool(b)) => Some(b),
        _ => None,
    }
}

/// Every item is a text.
pub open spec fn all_text(items: Seq<JsonValue>) -> bool {
    forall|i: int| 0 <= i < items.len() ==> (#[trigger] items[i]) is Text
}

/// The texts that a required list member holds.
pub open spec fn texts_of(v: Option<JsonValue>) -> Option<Seq<Seq<char>>> {
    match v {
        Some(JsonValue::List(items)) => if all_text(items) {
            Some(Seq::new(items.len(), |i: int| items[i]->Text_0))
        } else {
            None
        },
        _ => None,
    }
}

/// The id that an item names.
pub open spec fn peer_of(item: JsonValue) -> Option<Seq<u8>> {
    match item {
        JsonValue::Text(t) => peer_of_text(t),
        _ => None,
    }
}

/// Every item names an id.
pub open spec fn all_peers(items: Seq<JsonValue>) -> bool {
    forall|i: int| 0 <= i < items.len() ==> peer_of(#[trigger] items[i]) is Some
}

/// The ids that a required list member names.
pub open spec fn peers_of(v: Option<JsonValue>) -> Option<Seq<Seq<u8>>> {
    match v {
        Some(JsonValue::List(items)) => if all_peers(items) {
            Some(Seq::new(items.len(), |i: int| peer_of(items[i])->0))
        } else {
            None
        },
        _ => None,
    }
}

/// The keys of an error object that are not details.
pub open spec fn reserved_key(key: Seq<char>) -> bool {
    key == "type"@ || key == "msg"@
}

/// Whether a member of an error object is a detail: its key is not
/// reserved.
pub open spec fn is_detail() -> spec_fn((Seq<char>, JsonValue)) -> bool {
    |member: (Seq<char>, JsonValue)| !reserved_key(member.0)
}

/// Every member holds a text.
pub open spec fn all_hold_text(members: Seq<(Seq<char>, JsonValue)>) -> bool {
    forall|i: int| 0 <= i < members.len() ==> (#[trigger] members[i]).1 is Text
}

/// The keys of members with the texts that they hold.
pub open spec fn held_texts(members: Seq<(Seq<char>, JsonValue)>) -> Seq<(Seq<char>, Seq<char>)> {
    Seq::new(members.len(), |i: int| (members[i].0, members[i].1->Text_0))
}

/// The details of an error object: its members whose keys are not reserved,
/// in their order, each of which must hold a text.
pub open spec fn details_in(v: JsonValue) -> Option<Seq<(Seq<char>, Seq<char>)>> {
    match v {
        JsonValue::Object(members) => if all_hold_text(members.filter(is_detail())) {
            Some(held_texts(members.filter(is_detail())))
        } else {
            None
        },
        _ => None,
    }
}

/// The name of a kind of session description.
pub open spec fn sdp_type_name(t: SdpType) -> Seq<char> {
    match t {
        SdpType::Unspecified => "Unspecified"@,
        SdpType::Offer => "offer"@,
        SdpType::Pranswer => "pranswer"@,
        SdpType::Answer => "answer"@,
        SdpType::Rollback => "rollback"@,
    }
}

/// The kind of session description that a name stands for.
pub open spec fn sdp_type_of(name: Seq<char>) -> Option<SdpType> {
    if name == "offer"@ {
        Some(SdpType::Offer)
    } else if name == "pranswer"@ {
        Some(SdpType::Pranswer)
    } else if name == "answer"@ {
        Some(SdpType::Answer)
    } else if name == "rollback"@ {
        Some(SdpType::Rollback)
    } else if name == "Unspecified"@ {
        Some(SdpType::Unspecified)
    } else {
        None
    }
}

/// The session description that a document holds.
pub open spec fn decode_description(v: JsonValue) -> Option<SessionDescriptionView> {
    match (text_of(v.field("type"@)), text_of(v.field("sdp"@))) {
        (Some(name), Some(sdp)) => match sdp_type_of(name) {
            Some(sdp_type) => Some(SessionDescriptionView { sdp_type, sdp }),
            None => None,
        },
        _ => None,
    }
}

/// The session description that an optional member holds.
pub open spec fn optional_description(v: Option<JsonValue>) -> Option<
    Option<SessionDescriptionView>,
> {
    match v {
        None => Some(None),
        Some(JsonValue::Null) => Some(None),
        Some(d) => match decode_description(d) {
            Some(description) => Some(Some(description)),
            None => None,
        },
    }
}

/// The ICE candidate that a document holds.
pub open spec fn decode_candidate(v: JsonValue) -> Option<IceCandidateView> {
    match (
        text_of(v.field("candidate"@)),
        optional_text_of(v.field("sdpMid"@)),
        optional_index_of(v.field("sdpMLineIndex"@)),
        optional_text_of(v.field("usernameFragment"@)),
    ) {
        (Some(candidate), Some(sdp_mid), Some(sdp_mline_index), Some(username_fragment)) => Some(
            IceCandidateView { candidate, sdp_mid, sdp_mline_index, username_fragment },
        ),
        _ => None,
    }
}

/// The ICE candidate that an optional member holds.
pub open spec fn optional_candidate(v: Option<JsonValue>) -> Option<Option<IceCandidateView>> {
    match v {
        None => Some(None),
        Some(JsonValue::Null) => Some(None),
        Some(c) => match decode_candidate(c) {
            Some(candidate) => Some(Some(candidate)),
            None => None,
        },
    }
}

/// The routable message that a document holds. A `"type"` that names no
/// routable kind gives the unknown message; a known kind whose fields are
/// missing or of the wrong shape gives nothing.
pub open spec fn decode_routable(v: JsonValue) -> Option<RoutableView> {
    match text_of(v.field("type"@)) {
        None => None,
        Some(tag) => if tag == "connect"@ {
            match (optional_description(v.field("sdp"@)), optional_candidate(v.field("ice"@))) {
                (Some(sdp), Some(ice)) => Some(RoutableView::Connect { sdp, ice }),
                _ => None,
            }
        } else if tag == "addresses"@ {
            match texts_of(v.field("addresses"@)) {
                Some(addresses) => Some(RoutableView::Addresses { addresses }),
                None => None,
            }
        } else if tag == "routing_table"@ {
            match peers_of(v.field("peers"@)) {
                Some(peers) => Some(RoutableView::RoutingTable { peers }),
                None => None,
            }
        } else if tag == "query"@ {
            match (flag_of(v.field("addresses"@)), flag_of(v.field("routing_table"@))) {
                (Some(addresses), Some(routing_table)) => Some(
                    RoutableView::Query { addresses, routing_table },
                ),
                _ => None,
            }
        } else if tag == "error"@ {
            match (text_of(v.field("msg"@)), details_in(v)) {
                (Some(msg), Some(data)) => Some(RoutableView::Error { msg, data }),
                _ => None,
            }
        } else {
            Some(RoutableView::UnknownMessage)
        },
    }
}

/// The unroutable message that a document holds. A `"type"` that names no
/// unroutable kind gives nothing.
pub open spec fn decode_unroutable(v: JsonValue) -> Option<UnRoutableView> {
    match text_of(v.field("type"@)) {
        None => None,
        Some(tag) => if tag == "source_route"@ {
            match (peers_of(v.field("path"@)), v.field("content"@)) {
                (Some(path), Some(c)) => match decode_routable(c) {
                    Some(content) => Some(UnRoutableView::SourceRoute { path, content }),
                    None => None,
                },
                _ => None,
            }
        } else if tag == "app_data"@ {
            match text_of(v.field("content"@)) {
                Some(content) => Some(UnRoutableView::AppData { content }),
                None => None,
            }
        } else {
            None
        },
    }
}

/// Whether a `"type"` names an unroutable kind.
pub open spec fn unroutable_tag(tag: Seq<char>) -> bool {
    tag == "source_route"@ || tag == "app_data"@
}

/// The message that a document holds: an unroutable one where its `"type"`
/// names an unroutable kind, a routable one otherwise.
pub open spec fn decode_message(v: JsonValue) -> Option<MessageView> {
    match text_of(v.field("type"@)) {
        None => None,
        Some(tag) => if unroutable_tag(tag) {
            match decode_unroutable(v) {
                Some(m) => Some(MessageView::UnRoutable(m)),
                None => None,
            }
        } else {
            match decode_routable(v) {
                Some(m) => Some(MessageView::Routable(m)),
                None => None,
            }
        },
    }
}

/// The text of a required member.
pub(crate) fn text_at(doc: &Json, key: &str) -> (r: Option<String>)
    ensures
        r.deep_view() == text_of(doc@.field(key@)),
{
    match doc.get(key) {
        Some(Json::Text(s)) => Some(s.clone()),
        _ => None,
    }
}

/// The text of an optional member.
fn optional_text_at(doc: &Json, key: &str) -> (r: Option<Option<String>>)
    ensures
        r.deep_view() == optional_text_of(doc@.field(key@)),
{
    match doc.get(key) {
        None => Some(None),
        Some(Json::Null) => Some(None),
        Some(Json::Text(s)) => Some(Some(s.clone())),
        _ => None,
    }
}

/// The 16-bit index of an optional member.
fn optional_index_at(doc: &Json, key: &str) -> (r: Option<Option<u16>>)
    ensures
        r == optional_index_of(doc@.field(key@)),
{
    match doc.get(key) {
        None => Some(None),
        Some(Json::Null) => Some(None),
        Some(Json::Number(Some(n))) => if *n <= 0xffff {
            Some(Some(*n as u16))
        } else {
            None
        },
        _ => None,
    }
}

/// The flag of a required member.
fn flag_at(doc: &Json, key: &str) -> (r: Option<bool>)
    ensures
        r == flag_of(doc@.field(key@)),
{
    match doc.get(key) {
        Some(Json::Bool(b)) => Some(*b),
        _ => None,
    }
}

/// The texts of a required list member.
fn texts_at(doc: &Json, key: &str) -> (r: Option<Vec<String>>)
    ensures
        r.deep_view() == texts_of(doc@.field(key@)),
{
    match doc.get(key) {
        Some(Json::List(items)) => {
            proof {
                lemma_list_view(*items);
            }
            let ghost model = items_view(items@);
            let mut out: Vec<String> = Vec::new();
            let mut i: usize = 0;
            while i < items.len()
                invariant
                    i <= items.len(),
                    out@.len() == i,
                    model == items_view(items@),
                    doc@.field(key@) == Some(JsonValue::List(model)),
                    forall|k: int| 0 <= k < i ==> (#[trigger] model[k]) == JsonValue::Text(out@[k]@),
                decreases items.len() - i,
            {
                match &items[i] {
                    Json::Text(s) => {
                        out.push(s.clone());
                    },
                    _ => {
                        assert(!(model[i as int] is Text));
                        return None;
                    },
                }
                i += 1;
            }
            assert(all_text(model));
            assert(out.deep_view() =~= Seq::new(model.len(), |i: int| model[i]->Text_0));
            Some(out)
        },
        _ => None,
    }
}

/// The ids of a required list member.
fn peers_at(doc: &Json, key: &str) -> (r: Option<Vec<PeerId>>)
    ensures
        r.deep_view() == peers_of(doc@.field(key@)),
{
    match doc.get(key) {
        Some(Json::List(items)) => {
            proof {
                lemma_list_view(*items);
            }
            let ghost model = items_view(items@);
            let mut out: Vec<PeerId> = Vec::new();
            let mut i: usize = 0;
            while i < items.len()
                invariant
                    i <= items.len(),
                    out@.len() == i,
                    model == items_view(items@),
                    doc@.field(key@) == Some(JsonValue::List(model)),
                    forall|k: int| 0 <= k < i ==> peer_of(#[trigger] model[k]) == Some(out@[k]@),
                decreases items.len() - i,
            {
                match &items[i] {
                    Json::Text(s) => match PeerId::from_text(s.as_str()) {
                        Some(id) => {
                            out.push(id);
                        },
                        None => {
                            assert(peer_of(model[i as int]) is None);
                            return None;
                        },
                    },
                    _ => {
                        assert(peer_of(model[i as int]) is None);
                        return None;
                    },
                }
                i += 1;
            }
            assert(all_peers(model));
            assert(out.deep_view() =~= Seq::new(model.len(), |i: int| peer_of(model[i])->0));
            Some(out)
        },
        _ => None,
    }
}

/// The details of an error object.
fn details_at(doc: &Json) -> (r: Option<Vec<(String, String)>>)
    ensures
        r.deep_view() == details_in(doc@),
{
    match doc {
        Json::Object(members) => {
            proof {
                lemma_object_view(*members);
            }
            let ghost model = members_view(members@);
            let ghost none = Seq::<(Seq<char>, JsonValue)>::empty();
            let mut out: Vec<(String, String)> = Vec::new();
            let mut i: usize = 0;
            proof {
                none.lemma_filter_len(is_detail());
                assert(model.take(0) =~= none);
                assert(out.deep_view() =~= held_texts(none.filter(is_detail())));
            }
            while i < members.len()
                invariant
                    i <= members.len(),
                    model == members_view(members@),
                    doc@ == JsonValue::Object(model),
                    all_hold_text(model.take(i as int).filter(is_detail())),
                    out.deep_view() == held_texts(model.take(i as int).filter(is_detail())),
                decreases members.len() - i,
            {
                let ghost before = out.deep_view();
                let ghost seen = model.take(i as int).filter(is_detail());
                proof {
                    assert(model[i as int] == (members@[i as int].0@, members@[i as int].1@));
                    assert(model.take(i + 1) =~= model.take(i as int).push(model[i as int]));
                    model.take(i as int).lemma_filter_push(model[i as int], is_detail());
                }
                let key = &members[i].0;
                if !(same_text(key.as_str(), "type") || same_text(key.as_str(), "msg")) {
                    match &members[i].1 {
                        Json::Text(s) => {
                            out.push((key.clone(), s.clone()));
                            assert(out.deep_view() =~= before.push((key@, s@)));
                            assert(held_texts(seen.push(model[i as int])) =~= before.push(
                                (key@, s@),
                            ));
                        },
                        _ => {
                            proof {
                                broadcast use vstd::seq_lib::group_filter_ensures;

                                let all = model.filter(is_detail());
                                assert(is_detail()(model[i as int]));
                                assert(all.contains(model[i as int]));
                                let k = choose|k: int| 0 <= k < all.len() && all[k] == model[i as int];
                                assert(!(all[k].1 is Text));
                            }
                            return None;
                        },
                    }
                }
                i += 1;
            }
            assert(model.take(i as int) =~= model);
            Some(out)
        },
        _ => None,
    }
}

/// The kind of session description that a name stands for.
fn sdp_type_from_name(name: &str) -> (r: Option<SdpType>)
    ensures
        r == sdp_type_of(name@),
{
    if same_text(name, "offer") {
        Some(SdpType::Offer)
    } else if same_text(name, "pranswer") {
        Some(SdpType::Pranswer)
    } else if same_text(name, "answer") {
        Some(SdpType::Answer)
    } else if same_text(name, "rollback") {
        Some(SdpType::Rollback)
    } else if same_text(name, "Unspecified") {
        Some(SdpType::Unspecified)
    } else {
        None
    }
}

/// The name of a kind of session description.
fn sdp_type_to_name(t: SdpType) -> (r: &'static str)
    ensures
        r@ == sdp_type_name(t),
{
    match t {
        SdpType::Unspecified => "Unspecified",
        SdpType::Offer => "offer",
        SdpType::Pranswer => "pranswer",
        SdpType::Answer => "answer",
        SdpType::Rollback => "rollback",
    }
}

impl SessionDescription {
    /// Reads a session description from its JSON form.
    pub fn from_json(doc: &Json) -> (r: Option<SessionDescription>)
        ensures
            r.deep_view() == decode_description(doc@),
    {
        let name = text_at(doc, "type");
        let sdp = text_at(doc, "sdp");
        match (name, sdp) {
            (Some(name), Some(sdp)) => match sdp_type_from_name(name.as_str()) {
                Some(sdp_type) => Some(SessionDescription { sdp_type, sdp }),
                None => None,
            },
            _ => None,
        }
    }
}

/// The session description of an optional member.
fn optional_description_at(doc: &Json, key: &str) -> (r: Option<Option<SessionDescription>>)
    ensures
        r.deep_view() == optional_description(doc@.field(key@)),
{
    match doc.get(key) {
        None => Some(None),
        Some(Json::Null) => Some(None),
        Some(d) => match SessionDescription::from_json(d) {
            Some(description) => Some(Some(description)),
            None => None,
        },
    }
}

impl IceCandidate {
    /// Reads an ICE candidate from its JSON form.
    pub fn from_json(doc: &Json) -> (r: Option<IceCandidate>)
        ensures
            r.deep_view() == decode_candidate(doc@),
    {
        let candidate = text_at(doc, "candidate");
        let sdp_mid = optional_text_at(doc, "sdpMid");
        let sdp_mline_index = optional_index_at(doc, "sdpMLineIndex");
        let username_fragment = optional_text_at(doc, "usernameFragment");
        match (candidate, sdp_mid, sdp_mline_index, username_fragment) {
            (Some(candidate), Some(sdp_mid), Some(sdp_mline_index), Some(username_fragment)) => Some(
                IceCandidate { candidate, sdp_mid, sdp_mline_index, username_fragment },
            ),
            _ => None,
        }
    }
}

/// The ICE candidate of an optional member.
fn optional_candidate_at(doc: &Json, key: &str) -> (r: Option<Option<IceCandidate>>)
    ensures
        r.deep_view() == optional_candidate(doc@.field(key@)),
{
    match doc.get(key) {
        None => Some(None),
        Some(Json::Null) => Some(None),
        Some(c) => match IceCandidate::from_json(c) {
            Some(candidate) => Some(Some(candidate)),
            None => None,
        },
    }
}

impl RoutableMessage {
    /// Reads a routable message from its JSON form.
    pub fn from_json(doc: &Json) -> (r: Option<RoutableMessage>)
        ensures
            r.deep_view() == decode_routable(doc@),
    {
        let tag = match text_at(doc, "type") {
            Some(tag) => tag,
            None => {
                return None;
            },
        };
        if same_text(tag.as_str(), "connect") {
            let sdp = optional_description_at(doc, "sdp");
            let ice = optional_candidate_at(doc, "ice");
            match (sdp, ice) {
                (Some(sdp), Some(ice)) => Some(RoutableMessage::Connect { sdp, ice }),
                _ => None,
            }
        } else if same_text(tag.as_str(), "addresses") {
            match texts_at(doc, "addresses") {
                Some(addresses) => Some(RoutableMessage::Addresses { addresses }),
                None => None,
            }
        } else if same_text(tag.as_str(), "routing_table") {
            match peers_at(doc, "peers") {
                Some(peers) => Some(RoutableMessage::RoutingTable { peers }),
                None => None,
            }
        } else if same_text(tag.as_str(), "query") {
            let addresses = flag_at(doc, "addresses");
            let routing_table = flag_at(doc, "routing_table");
            match (addresses, routing_table) {
                (Some(addresses), Some(routing_table)) => Some(
                    RoutableMessage::Query { addresses, routing_table },
                ),
                _ => None,
            }
        } else if same_text(tag.as_str(), "error") {
            let msg = text_at(doc, "msg");
            let data = details_at(doc);
            match (msg, data) {
                (Some(msg), Some(data)) => Some(RoutableMessage::Error { msg, data }),
                _ => None,
            }
        } else {
            Some(RoutableMessage::UnknownMessage)
        }
    }
}

impl UnRoutableMessage {
    /// Reads an unroutable message from its JSON form.
    pub fn from_json(doc: &Json) -> (r: Option<UnRoutableMessage>)
        ensures
            r.deep_view() == decode_unroutable(doc@),
    {
        let tag = match text_at(doc, "type") {
            Some(tag) => tag,
            None => {
                return None;
            },
        };
        if same_text(tag.as_str(), "source_route") {
            let path = peers_at(doc, "path");
            match (path, doc.get("content")) {
                (Some(path), Some(c)) => match RoutableMessage::from_json(c) {
                    Some(content) => Some(UnRoutableMessage::SourceRoute { path, content }),
                    None => None,
                },
                _ => None,
            }
        } else if same_text(tag.as_str(), "app_data") {
            match text_at(doc, "content") {
                Some(content) => Some(UnRoutableMessage::AppData { content }),
                None => None,
            }
        } else {
            None
        }
    }
}

impl Message {
    /// Reads a message from its JSON form.
    pub fn from_json(doc: &Json) -> (r: Option<Message>)
        ensures
            r.deep_view() == decode_message(doc@),
    {
        let tag = match text_at(doc, "type") {
            Some(tag) => tag,
            None => {
                return None;
            },
        };
        if same_text(tag.as_str(), "source_route") || same_text(tag.as_str(), "app_data") {
            match UnRoutableMessage::from_json(doc) {
                Some(m) => Some(Message::UnRoutable(m)),
                None => None,
            }
        } else {
            match RoutableMessage::from_json(doc) {
                Some(m) => Some(Message::Routable(m)),
                None => None,
            }
        }
    }
}

/// The JSON form of an optional text: `null` where there is none.
pub open spec fn encode_optional_text(t: Option<Seq<char>>) -> JsonValue {
    match t {
        Some(s) => JsonValue::Text(s),
        None => JsonValue::Null,
    }
}

/// The JSON form of an optional index: `null` where there is none.
pub open spec fn encode_optional_index(i: Option<u16>) -> JsonValue {
    match i {
        Some(n) => JsonValue::Number(Some(n as u64)),
        None => JsonValue::Null,
    }
}

/// The JSON form of a list of texts.
pub open spec fn encode_texts(texts: Seq<Seq<char>>) -> JsonValue {
    JsonValue::List(Seq::new(texts.len(), |i: int| JsonValue::Text(texts[i])))
}

/// The JSON form of a list of ids: the base64 text of each.
pub open spec fn encode_peers(peers: Seq<Seq<u8>>) -> JsonValue {
    JsonValue::List(Seq::new(peers.len(), |i: int| JsonValue::Text(base64_text(peers[i]))))
}

/// The members that the details of an error become.
pub open spec fn encode_details(data: Seq<(Seq<char>, Seq<char>)>) -> Seq<(Seq<char>, JsonValue)> {
    Seq::new(data.len(), |i: int| (data[i].0, JsonValue::Text(data[i].1)))
}

/// The JSON form of a session description.
pub open spec fn encode_description(d: SessionDescriptionView) -> JsonValue {
    JsonValue::Object(
        seq![
            ("type"@, JsonValue::Text(sdp_type_name(d.sdp_type))),
            ("sdp"@, JsonValue::Text(d.sdp)),
        ],
    )
}

/// The JSON form of an optional session description.
pub open spec fn encode_optional_description(d: Option<SessionDescriptionView>) -> JsonValue {
    match d {
        Some(d) => encode_description(d),
        None => JsonValue::Null,
    }
}

/// The JSON form of an ICE candidate.
pub open spec fn encode_candidate(c: IceCandidateView) -> JsonValue {
    JsonValue::Object(
        seq![
            ("candidate"@, JsonValue::Text(c.candidate)),
            ("sdpMid"@, encode_optional_text(c.sdp_mid)),
            ("sdpMLineIndex"@, encode_optional_index(c.sdp_mline_index)),
            ("usernameFragment"@, encode_optional_text(c.username_fragment)),
        ],
    )
}

/// The JSON form of an optional ICE candidate.
pub open spec fn encode_optional_candidate(c: Option<IceCandidateView>) -> JsonValue {
    match c {
        Some(c) => encode_candidate(c),
        None => JsonValue::Null,
    }
}

/// The JSON form of a routable message: its `"type"` first, then its fields
/// in the order in which its kind declares them.
pub open spec fn encode_routable(m: RoutableView) -> JsonValue {
    match m {
        RoutableView::Connect { sdp, ice } => JsonValue::Object(
            seq![
                ("type"@, JsonValue::Text("connect"@)),
                ("sdp"@, encode_optional_description(sdp)),
                ("ice"@, encode_optional_candidate(ice)),
            ],
        ),
        RoutableView::Addresses { addresses } => JsonValue::Object(
            seq![
                ("type"@, JsonValue::Text("addresses"@)),
                ("addresses"@, encode_texts(addresses)),
            ],
        ),
        RoutableView::RoutingTable { peers } => JsonValue::Object(
            seq![("type"@, JsonValue::Text("routing_table"@)), ("peers"@, encode_peers(peers))],
        ),
        RoutableView::Query { addresses, routing_table } => JsonValue::Object(
            seq![
                ("type"@, JsonValue::Text("query"@)),
                ("addresses"@, JsonValue::Bool(addresses)),
                ("routing_table"@, JsonValue::Bool(routing_table)),
            ],
        ),
        RoutableView::Error { msg, data } => JsonValue::Object(
            seq![("type"@, JsonValue::Text("error"@)), ("msg"@, JsonValue::Text(msg))]
                + encode_details(data),
        ),
        RoutableView::UnknownMessage => JsonValue::Object(
            seq![("type"@, JsonValue::Text("unknown"@))],
        ),
    }
}

/// The JSON form of an unroutable message.
pub open spec fn encode_unroutable(m: UnRoutableView) -> JsonValue {
    match m {
        UnRoutableView::SourceRoute { path, content } => JsonValue::Object(
            seq![
                ("type"@, JsonValue::Text("source_route"@)),
                ("path"@, encode_peers(path)),
                ("content"@, encode_routable(content)),
            ],
        ),
        UnRoutableView::AppData { content } => JsonValue::Object(
            seq![("type"@, JsonValue::Text("app_data"@)), ("content"@, JsonValue::Text(content))],
        ),
    }
}

/// The JSON form of a message.
pub open spec fn encode_message(m: MessageView) -> JsonValue {
    match m {
        MessageView::Routable(m) => encode_routable(m),
        MessageView::UnRoutable(m) => encode_unroutable(m),
    }
}

/// A text as a JSON document.
pub(crate) fn text(s: &str) -> (r: Json)
    ensures
        r@ == JsonValue::Text(s@),
{
    Json::Text(String::from_str(s))
}

/// A member of an object.
pub(crate) fn member(key: &str, value: Json) -> (r: (String, Json))
    ensures
        r.0@ == key@,
        r.1 == value,
{
    (String::from_str(key), value)
}

/// The JSON form of an optional text.
fn optional_text_json(t: &Option<String>) -> (r: Json)
    ensures
        r@ == encode_optional_text(t.deep_view()),
{
    match t {
        Some(s) => Json::Text(s.clone()),
        None => Json::Null,
    }
}

/// The JSON form of an optional index.
fn optional_index_json(i: &Option<u16>) -> (r: Json)
    ensures
        r@ == encode_optional_index(*i),
{
    match i {
        Some(n) => Json::Number(Some(*n as u64)),
        None => Json::Null,
    }
}

/// The JSON form of a list of texts.
fn texts_json(texts: &Vec<String>) -> (r: Json)
    ensures
        r@ == encode_texts(texts.deep_view()),
{
    let mut out: Vec<Json> = Vec::new();
    let mut i: usize = 0;
    while i < texts.len()
        invariant
            i <= texts.len(),
            out@.len() == i,
            forall|k: int| 0 <= k < i ==> (#[trigger] out@[k])@ == JsonValue::Text(texts@[k]@),
        decreases texts.len() - i,
    {
        out.push(Json::Text(texts[i].clone()));
        i += 1;
    }
    proof {
        lemma_list_view(out);
        assert(items_view(out@) =~= encode_texts(texts.deep_view())->List_0);
    }
    Json::List(out)
}

/// The JSON form of a list of ids.
fn peers_json(peers: &Vec<PeerId>) -> (r: Json)
    ensures
        r@ == encode_peers(peers.deep_view()),
        peers_on_wire(peers.deep_view()),
{
    let mut out: Vec<Json> = Vec::new();
    let mut i: usize = 0;
    while i < peers.len()
        invariant
            i <= peers.len(),
            out@.len() == i,
            forall|k: int|
                0 <= k < i ==> (#[trigger] out@[k])@ == JsonValue::Text(base64_text(peers@[k]@)),
            forall|k: int| 0 <= k < i ==> peer_on_wire(#[trigger] peers.deep_view()[k]),
        decreases peers.len() - i,
    {
        out.push(Json::Text(peers[i].to_text()));
        i += 1;
    }
    proof {
        lemma_list_view(out);
        assert(items_view(out@) =~= encode_peers(peers.deep_view())->List_0);
    }
    Json::List(out)
}

impl SessionDescription {
    /// The JSON form.
    pub fn to_json(&self) -> (r: Json)
        ensures
            r@ == encode_description(self@),
    {
        let mut members: Vec<(String, Json)> = Vec::new();
        members.push(member("type", text(sdp_type_to_name(self.sdp_type))));
        members.push(member("sdp", Json::Text(self.sdp.clone())));
        proof {
            lemma_object_view(members);
            assert(members_view(members@) =~= encode_description(self@)->Object_0);
        }
        Json::Object(members)
    }
}

impl IceCandidate {
    /// The JSON form.
    pub fn to_json(&self) -> (r: Json)
        ensures
            r@ == encode_candidate(self@),
    {
        let mut members: Vec<(String, Json)> = Vec::new();
        members.push(member("candidate", Json::Text(self.candidate.clone())));
        members.push(member("sdpMid", optional_text_json(&self.sdp_mid)));
        members.push(member("sdpMLineIndex", optional_index_json(&self.sdp_mline_index)));
        members.push(member("usernameFragment", optional_text_json(&self.username_fragment)));
        proof {
            lemma_object_view(members);
            assert(members_view(members@) =~= encode_candidate(self@)->Object_0);
        }
        Json::Object(members)
    }
}

impl RoutableMessage {
    /// The JSON form, from which the message is read back unless a detail of
    /// an error uses a reserved key.
    pub fn to_json(&self) -> (r: Json)
        ensures
            r@ == encode_routable(self@),
            routable_free(self@) ==> routable_on_wire(self@) && decode_routable(r@) == Some(self@),
    {
        let mut members: Vec<(String, Json)> = Vec::new();
        match self {
            RoutableMessage::Connect { sdp, ice } => {
                members.push(member("type", text("connect")));
                let sdp_json = match sdp {
                    Some(d) => d.to_json(),
                    None => Json::Null,
                };
                members.push(member("sdp", sdp_json));
                let ice_json = match ice {
                    Some(c) => c.to_json(),
                    None => Json::Null,
                };
                members.push(member("ice", ice_json));
                assert(members_view(members@) =~= encode_routable(self@)->Object_0);
            },
            RoutableMessage::Addresses { addresses } => {
                members.push(member("type", text("addresses")));
                members.push(member("addresses", texts_json(addresses)));
                assert(members_view(members@) =~= encode_routable(self@)->Object_0);
            },
            RoutableMessage::RoutingTable { peers } => {
                members.push(member("type", text("routing_table")));
                members.push(member("peers", peers_json(peers)));
                assert(members_view(members@) =~= encode_routable(self@)->Object_0);
            },
            RoutableMessage::Query { addresses, routing_table } => {
                members.push(member("type", text("query")));
                members.push(member("addresses", Json::Bool(*addresses)));
                members.push(member("routing_table", Json::Bool(*routing_table)));
                assert(members_view(members@) =~= encode_routable(self@)->Object_0);
            },
            RoutableMessage::Error { msg, data } => {
                members.push(member("type", text("error")));
                members.push(member("msg", Json::Text(msg.clone())));
                let mut i: usize = 0;
                while i < data.len()
                    invariant
                        i <= data.len(),
                        members@.len() == i + 2,
                        members@[0].0@ == "type"@,
                        members@[0].1@ == JsonValue::Text("error"@),
                        members@[1].0@ == "msg"@,
                        members@[1].1@ == JsonValue::Text(msg@),
                        forall|k: int|
                            2 <= k < i + 2 ==> (#[trigger] members@[k]).0@ == data@[k - 2].0@
                                && members@[k].1@ == JsonValue::Text(data@[k - 2].1@),
                    decreases data.len() - i,
                {
                    members.push((data[i].0.clone(), Json::Text(data[i].1.clone())));
                    i += 1;
                }
                proof {
                    let details = encode_details(data.deep_view());
                    let head = seq![
                        ("type"@, JsonValue::Text("error"@)),
                        ("msg"@, JsonValue::Text(msg@)),
                    ];
                    assert(encode_routable(self@)->Object_0 == head + details);
                    assert forall|k: int| 0 <= k < members@.len() implies members_view(members@)[k]
                        == (head + details)[k] by {
                        if k >= 2 {
                            assert(details[k - 2] == (data@[k - 2].0@, JsonValue::Text(data@[k - 2].1@)));
                        }
                    }
                    assert(members_view(members@) =~= head + details);
                }
            },
            RoutableMessage::UnknownMessage => {
                members.push(member("type", text("unknown")));
                assert(members_view(members@) =~= encode_routable(self@)->Object_0);
            },
        }
        proof {
            lemma_object_view(members);
            if routable_free(self@) {
                lemma_routable_round_trip(self@);
            }
        }
        Json::Object(members)
    }
}

impl UnRoutableMessage {
    /// The JSON form, from which the message is read back unless a detail of
    /// an error uses a reserved key.
    pub fn to_json(&self) -> (r: Json)
        ensures
            r@ == encode_unroutable(self@),
            message_free(MessageView::UnRoutable(self@)) ==> decode_unroutable(r@) == Some(self@),
    {
        let mut members: Vec<(String, Json)> = Vec::new();
        match self {
            UnRoutableMessage::SourceRoute { path, content } => {
                members.push(member("type", text("source_route")));
                members.push(member("path", peers_json(path)));
                members.push(member("content", content.to_json()));
            },
            UnRoutableMessage::AppData { content } => {
                members.push(member("type", text("app_data")));
                members.push(member("content", Json::Text(content.clone())));
            },
        }
        proof {
            lemma_object_view(members);
            assert(members_view(members@) =~= encode_unroutable(self@)->Object_0);
            if message_free(MessageView::UnRoutable(self@)) {
                lemma_unroutable_round_trip(self@);
            }
        }
        Json::Object(members)
    }
}

impl Message {
    /// The JSON form, from which the message is read back unless a detail of
    /// an error uses a reserved key.
    pub fn to_json(&self) -> (r: Json)
        ensures
            r@ == encode_message(self@),
            message_free(self@) ==> decode_message(r@) == Some(self@),
    {
        match self {
            Message::Routable(m) => {
                proof {
                    lemma_routable_tag(m@);
                }
                m.to_json()
            },
            Message::UnRoutable(m) => {
                let r = m.to_json();
                proof {
                    if message_free(self@) {
                        lemma_tags_differ();
                        reveal_with_fuel(member_from, 2);
                    }
                }
                r
            },
        }
    }
}

/// No detail of an error uses a key that the error object reserves.
pub open spec fn details_free(data: Seq<(Seq<char>, Seq<char>)>) -> bool {
    forall|i: int| 0 <= i < data.len() ==> !reserved_key((#[trigger] data[i]).0)
}

/// Whether a routable message can go over the wire and come back: every id
/// in it is read back from its own text, and no detail of an error uses a
/// reserved key.
pub open spec fn routable_on_wire(m: RoutableView) -> bool {
    match m {
        RoutableView::RoutingTable { peers } => peers_on_wire(peers),
        RoutableView::Error { msg, data } => details_free(data),
        _ => true,
    }
}

/// Whether an unroutable message can go over the wire and come back.
pub open spec fn unroutable_on_wire(m: UnRoutableView) -> bool {
    match m {
        UnRoutableView::SourceRoute { path, content } => peers_on_wire(path) && routable_on_wire(
            content,
        ),
        _ => true,
    }
}

/// Whether a message can go over the wire and come back.
pub open spec fn message_on_wire(m: MessageView) -> bool {
    match m {
        MessageView::Routable(m) => routable_on_wire(m),
        MessageView::UnRoutable(m) => unroutable_on_wire(m),
    }
}

/// Whether no detail of an error in a routable message uses a reserved key.
pub open spec fn routable_free(m: RoutableView) -> bool {
    match m {
        RoutableView::Error { msg, data } => details_free(data),
        _ => true,
    }
}

/// Whether no detail of an error in a message uses a reserved key.
pub open spec fn message_free(m: MessageView) -> bool {
    match m {
        MessageView::Routable(m) => routable_free(m),
        MessageView::UnRoutable(UnRoutableView::SourceRoute { path, content }) => routable_free(
            content,
        ),
        MessageView::UnRoutable(UnRoutableView::AppData { content }) => true,
    }
}

/// Whether the JSON form of a routable message can be written as text: the
/// details of an error have keys that are distinct and not reserved.
pub open spec fn routable_printable(m: RoutableView) -> bool {
    match m {
        RoutableView::Error { msg, data } => details_free(data) && distinct_keys(data),
        _ => true,
    }
}

/// Whether the JSON form of a message can be written as text.
pub open spec fn message_printable(m: MessageView) -> bool {
    match m {
        MessageView::Routable(m) => routable_printable(m),
        MessageView::UnRoutable(UnRoutableView::SourceRoute { path, content }) => routable_printable(
            content,
        ),
        MessageView::UnRoutable(UnRoutableView::AppData { content }) => true,
    }
}

/// A list of texts is read back from its JSON form.
pub proof fn lemma_texts_round_trip(texts: Seq<Seq<char>>)
    ensures
        texts_of(Some(encode_texts(texts))) == Some(texts),
{
    let items = encode_texts(texts)->List_0;
    assert(all_text(items));
    assert(Seq::new(items.len(), |i: int| items[i]->Text_0) =~= texts);
}

/// A list of ids, each read back from its own text, is read back from its
/// JSON form.
pub proof fn lemma_peers_round_trip(peers: Seq<Seq<u8>>)
    requires
        peers_on_wire(peers),
    ensures
        peers_of(Some(encode_peers(peers))) == Some(peers),
{
    let items = encode_peers(peers)->List_0;
    assert forall|i: int| 0 <= i < items.len() implies peer_of(#[trigger] items[i]) == Some(
        peers[i],
    ) by {
        assert(peer_on_wire(peers[i]));
    }
    assert(all_peers(items));
    assert(Seq::new(items.len(), |i: int| peer_of(items[i])->0) =~= peers);
}

/// Members whose keys are all free of reserved keys are all details.
pub proof fn lemma_details_kept(members: Seq<(Seq<char>, JsonValue)>)
    requires
        forall|i: int| 0 <= i < members.len() ==> !reserved_key((#[trigger] members[i]).0),
    ensures
        members.filter(is_detail()) == members,
    decreases members.len(),
{
    if members.len() == 0 {
        members.lemma_filter_len(is_detail());
        assert(members.filter(is_detail()) =~= members);
    } else {
        let front = members.drop_last();
        lemma_details_kept(front);
        front.lemma_filter_push(members.last(), is_detail());
        assert(front.push(members.last()) =~= members);
    }
}

/// The details of an error are read back from the members that follow its
/// `"type"` and `"msg"`.
pub proof fn lemma_details_round_trip(msg: Seq<char>, data: Seq<(Seq<char>, Seq<char>)>)
    requires
        details_free(data),
    ensures
        details_in(
            JsonValue::Object(
                seq![("type"@, JsonValue::Text("error"@)), ("msg"@, JsonValue::Text(msg))]
                    + encode_details(data),
            ),
        ) == Some(data),
{
    let head = seq![("type"@, JsonValue::Text("error"@)), ("msg"@, JsonValue::Text(msg))];
    let tail = encode_details(data);
    let none = Seq::<(Seq<char>, JsonValue)>::empty();
    Seq::filter_distributes_over_add(head, tail, is_detail());
    none.lemma_filter_len(is_detail());
    none.lemma_filter_push(head[0], is_detail());
    none.push(head[0]).lemma_filter_push(head[1], is_detail());
    assert(none.push(head[0]).push(head[1]) =~= head);
    assert(head.filter(is_detail()) =~= none);
    assert forall|i: int| 0 <= i < tail.len() implies !reserved_key((#[trigger] tail[i]).0) by {
        assert(tail[i].0 == data[i].0);
    }
    lemma_details_kept(tail);
    assert(none + tail =~= tail);
    assert(all_hold_text(tail));
    assert(held_texts(tail) =~= data);
}

/// The keys that one object holds side by side are different.
pub proof fn lemma_keys_differ()
    ensures
        "type"@ != "sdp"@,
        "type"@ != "ice"@,
        "sdp"@ != "ice"@,
        "type"@ != "addresses"@,
        "type"@ != "peers"@,
        "type"@ != "routing_table"@,
        "addresses"@ != "routing_table"@,
        "type"@ != "msg"@,
        "type"@ != "path"@,
        "type"@ != "content"@,
        "path"@ != "content"@,
        "candidate"@ != "sdpMid"@,
        "candidate"@ != "sdpMLineIndex"@,
        "candidate"@ != "usernameFragment"@,
        "sdpMid"@ != "sdpMLineIndex"@,
        "sdpMid"@ != "usernameFragment"@,
        "sdpMLineIndex"@ != "usernameFragment"@,
{
    reveal_strlit("type");
    reveal_strlit("sdp");
    reveal_strlit("ice");
    reveal_strlit("addresses");
    reveal_strlit("peers");
    reveal_strlit("routing_table");
    reveal_strlit("msg");
    reveal_strlit("path");
    reveal_strlit("content");
    reveal_strlit("candidate");
    reveal_strlit("sdpMid");
    reveal_strlit("sdpMLineIndex");
    reveal_strlit("usernameFragment");
    assert("type"@.len() == 4);
    assert("sdp"@.len() == 3);
    assert("ice"@.len() == 3);
    assert("addresses"@.len() == 9);
    assert("peers"@.len() == 5);
    assert("routing_table"@.len() == 13);
    assert("msg"@.len() == 3);
    assert("path"@.len() == 4);
    assert("content"@.len() == 7);
    assert("candidate"@.len() == 9);
    assert("sdpMid"@.len() == 6);
    assert("sdpMLineIndex"@.len() == 13);
    assert("usernameFragment"@.len() == 16);
    assert("sdp"@[0] == 's');
    assert("ice"@[0] == 'i');
    assert("type"@[0] == 't');
    assert("path"@[0] == 'p');
}

/// The names of the kinds of message are different.
pub proof fn lemma_tags_differ()
    ensures
        "connect"@ != "addresses"@,
        "connect"@ != "routing_table"@,
        "connect"@ != "query"@,
        "connect"@ != "error"@,
        "connect"@ != "unknown"@,
        "addresses"@ != "routing_table"@,
        "addresses"@ != "query"@,
        "addresses"@ != "error"@,
        "addresses"@ != "unknown"@,
        "routing_table"@ != "query"@,
        "routing_table"@ != "error"@,
        "routing_table"@ != "unknown"@,
        "query"@ != "error"@,
        "query"@ != "unknown"@,
        "error"@ != "unknown"@,
        "connect"@ != "source_route"@,
        "connect"@ != "app_data"@,
        "addresses"@ != "source_route"@,
        "addresses"@ != "app_data"@,
        "routing_table"@ != "source_route"@,
        "routing_table"@ != "app_data"@,
        "query"@ != "source_route"@,
        "query"@ != "app_data"@,
        "error"@ != "source_route"@,
        "error"@ != "app_data"@,
        "unknown"@ != "source_route"@,
        "unknown"@ != "app_data"@,
        "source_route"@ != "app_data"@,
{
    reveal_strlit("connect");
    reveal_strlit("addresses");
    reveal_strlit("routing_table");
    reveal_strlit("query");
    reveal_strlit("error");
    reveal_strlit("unknown");
    reveal_strlit("source_route");
    reveal_strlit("app_data");
    assert("connect"@.len() == 7);
    assert("addresses"@.len() == 9);
    assert("routing_table"@.len() == 13);
    assert("query"@.len() == 5);
    assert("error"@.len() == 5);
    assert("unknown"@.len() == 7);
    assert("source_route"@.len() == 12);
    assert("app_data"@.len() == 8);
    assert("connect"@[0] == 'c');
    assert("unknown"@[0] == 'u');
    assert("query"@[0] == 'q');
    assert("error"@[0] == 'e');
}

/// The names of the kinds of session description are different.
pub proof fn lemma_sdp_names_differ()
    ensures
        "offer"@ != "pranswer"@,
        "offer"@ != "answer"@,
        "offer"@ != "rollback"@,
        "offer"@ != "Unspecified"@,
        "pranswer"@ != "answer"@,
        "pranswer"@ != "rollback"@,
        "pranswer"@ != "Unspecified"@,
        "answer"@ != "rollback"@,
        "answer"@ != "Unspecified"@,
        "rollback"@ != "Unspecified"@,
{
    reveal_strlit("offer");
    reveal_strlit("pranswer");
    reveal_strlit("answer");
    reveal_strlit("rollback");
    reveal_strlit("Unspecified");
    assert("offer"@.len() == 5);
    assert("pranswer"@.len() == 8);
    assert("answer"@.len() == 6);
    assert("rollback"@.len() == 8);
    assert("Unspecified"@.len() == 11);
    assert("pranswer"@[0] == 'p');
    assert("rollback"@[0] == 'r');
}

/// A session description is read back from its JSON form.
pub proof fn lemma_description_round_trip(d: SessionDescriptionView)
    ensures
        decode_description(encode_description(d)) == Some(d),
{
    lemma_keys_differ();
    lemma_sdp_names_differ();
    reveal_with_fuel(member_from, 3);
    let v = encode_description(d);
    assert(v.field("type"@) == Some(JsonValue::Text(sdp_type_name(d.sdp_type))));
    assert(v.field("sdp"@) == Some(JsonValue::Text(d.sdp)));
    assert(sdp_type_of(sdp_type_name(d.sdp_type)) == Some(d.sdp_type));
}

/// An ICE candidate is read back from its JSON form.
pub proof fn lemma_candidate_round_trip(c: IceCandidateView)
    ensures
        decode_candidate(encode_candidate(c)) == Some(c),
{
    lemma_keys_differ();
    reveal_with_fuel(member_from, 5);
    let v = encode_candidate(c);
    assert(v.field("candidate"@) == Some(JsonValue::Text(c.candidate)));
    assert(v.field("sdpMid"@) == Some(encode_optional_text(c.sdp_mid)));
    assert(v.field("sdpMLineIndex"@) == Some(encode_optional_index(c.sdp_mline_index)));
    assert(v.field("usernameFragment"@) == Some(encode_optional_text(c.username_fragment)));
}

/// The `"type"` of the JSON form of a routable message names no unroutable
/// kind.
pub proof fn lemma_routable_tag(m: RoutableView)
    ensures
        text_of(encode_routable(m).field("type"@)) matches Some(tag) && !unroutable_tag(tag),
{
    lemma_tags_differ();
    reveal_with_fuel(member_from, 2);
}

/// A routable message that can go over the wire is read back from its JSON
/// form.
pub proof fn lemma_routable_round_trip(m: RoutableView)
    requires
        routable_on_wire(m),
    ensures
        decode_routable(encode_routable(m)) == Some(m),
{
    lemma_keys_differ();
    lemma_tags_differ();
    reveal_with_fuel(member_from, 4);
    let v = encode_routable(m);
    match m {
        RoutableView::Connect { sdp, ice } => {
            assert(v.field("type"@) == Some(JsonValue::Text("connect"@)));
            assert(v.field("sdp"@) == Some(encode_optional_description(sdp)));
            assert(v.field("ice"@) == Some(encode_optional_candidate(ice)));
            if let Some(d) = sdp {
                lemma_description_round_trip(d);
            }
            if let Some(c) = ice {
                lemma_candidate_round_trip(c);
            }
        },
        RoutableView::Addresses { addresses } => {
            assert(v.field("type"@) == Some(JsonValue::Text("addresses"@)));
            assert(v.field("addresses"@) == Some(encode_texts(addresses)));
            lemma_texts_round_trip(addresses);
        },
        RoutableView::RoutingTable { peers } => {
            assert(v.field("type"@) == Some(JsonValue::Text("routing_table"@)));
            assert(v.field("peers"@) == Some(encode_peers(peers)));
            lemma_peers_round_trip(peers);
        },
        RoutableView::Query { addresses, routing_table } => {
            assert(v.field("type"@) == Some(JsonValue::Text("query"@)));
            assert(v.field("addresses"@) == Some(JsonValue::Bool(addresses)));
            assert(v.field("routing_table"@) == Some(JsonValue::Bool(routing_table)));
        },
        RoutableView::Error { msg, data } => {
            let members = seq![("type"@, JsonValue::Text("error"@)), ("msg"@, JsonValue::Text(msg))]
                + encode_details(data);
            assert(members[0] == ("type"@, JsonValue::Text("error"@)));
            assert(members[1] == ("msg"@, JsonValue::Text(msg)));
            assert(v.field("type"@) == Some(JsonValue::Text("error"@)));
            assert(v.field("msg"@) == Some(JsonValue::Text(msg)));
            lemma_details_round_trip(msg, data);
        },
        RoutableView::UnknownMessage => {
            assert(v.field("type"@) == Some(JsonValue::Text("unknown"@)));
        },
    }
}

/// An unroutable message that can go over the wire is read back from its
/// JSON form.
pub proof fn lemma_unroutable_round_trip(m: UnRoutableView)
    requires
        unroutable_on_wire(m),
    ensures
        decode_unroutable(encode_unroutable(m)) == Some(m),
{
    lemma_keys_differ();
    lemma_tags_differ();
    reveal_with_fuel(member_from, 4);
    let v = encode_unroutable(m);
    match m {
        UnRoutableView::SourceRoute { path, content } => {
            assert(v.field("type"@) == Some(JsonValue::Text("source_route"@)));
            assert(v.field("path"@) == Some(encode_peers(path)));
            assert(v.field("content"@) == Some(encode_routable(content)));
            lemma_peers_round_trip(path);
            lemma_routable_round_trip(content);
        },
        UnRoutableView::AppData { content } => {
            assert(v.field("type"@) == Some(JsonValue::Text("app_data"@)));
            assert(v.field("content"@) == Some(JsonValue::Text(content)));
        },
    }
}

/// Round trip: a message that can go over the wire is read back from its
/// JSON form as the same message.
pub proof fn message_round_trip(m: MessageView)
    requires
        message_on_wire(m),
    ensures
        decode_message(encode_message(m)) == Some(m),
{
    match m {
        MessageView::Routable(r) => {
            lemma_routable_tag(r);
            lemma_routable_round_trip(r);
        },
        MessageView::UnRoutable(u) => {
            reveal_with_fuel(member_from, 2);
            lemma_unroutable_round_trip(u);
        },
    }
}

/// The JSON form of a list of texts can be written as text.
pub proof fn lemma_texts_printable(texts: Seq<Seq<char>>)
    ensures
        printable(encode_texts(texts)),
{
    let items = encode_texts(texts)->List_0;
    lemma_printable_list(items);
    assert forall|i: int| 0 <= i < items.len() implies printable(#[trigger] items[i]) by {
        assert(items[i] is Text);
    }
}

/// The JSON form of a list of ids can be written as text.
pub proof fn lemma_peers_printable(peers: Seq<Seq<u8>>)
    ensures
        printable(encode_peers(peers)),
{
    let items = encode_peers(peers)->List_0;
    lemma_printable_list(items);
    assert forall|i: int| 0 <= i < items.len() implies printable(#[trigger] items[i]) by {
        assert(items[i] is Text);
    }
}

/// The JSON form of a session description can be written as text.
pub proof fn lemma_description_printable(d: SessionDescriptionView)
    ensures
        printable(encode_description(d)),
{
    lemma_keys_differ();
    let members = encode_description(d)->Object_0;
    lemma_printable_object(members);
    assert(members[0].0 == "type"@);
    assert(members[1].0 == "sdp"@);
    assert forall|i: int| 0 <= i < members.len() implies printable((#[trigger] members[i]).1) by {
        assert(members[i].1 is Text);
    }
}

/// The JSON form of an ICE candidate can be written as text.
pub proof fn lemma_candidate_printable(c: IceCandidateView)
    ensures
        printable(encode_candidate(c)),
{
    lemma_keys_differ();
    let members = encode_candidate(c)->Object_0;
    lemma_printable_object(members);
    assert(members[0].0 == "candidate"@);
    assert(members[1].0 == "sdpMid"@);
    assert(members[2].0 == "sdpMLineIndex"@);
    assert(members[3].0 == "usernameFragment"@);
    assert(printable(members[0].1));
    assert(printable(members[1].1));
    assert(printable(members[2].1));
    assert(printable(members[3].1));
}

/// The JSON form of a routable message can be written as text exactly when
/// the details of an error have keys that are distinct and not reserved.
pub proof fn lemma_routable_printable(m: RoutableView)
    ensures
        printable(encode_routable(m)) == routable_printable(m),
{
    lemma_keys_differ();
    let members = encode_routable(m)->Object_0;
    lemma_printable_object(members);
    match m {
        RoutableView::Connect { sdp, ice } => {
            assert(members[0].0 == "type"@);
            assert(members[1].0 == "sdp"@);
            assert(members[2].0 == "ice"@);
            if let Some(d) = sdp {
                lemma_description_printable(d);
            }
            if let Some(c) = ice {
                lemma_candidate_printable(c);
            }
            assert(printable(members[0].1));
            assert(printable(members[1].1));
            assert(printable(members[2].1));
        },
        RoutableView::Addresses { addresses } => {
            lemma_texts_printable(addresses);
            assert(members[0].0 == "type"@);
            assert(members[1].0 == "addresses"@);
            assert(printable(members[0].1));
            assert(printable(members[1].1));
        },
        RoutableView::RoutingTable { peers } => {
            lemma_peers_printable(peers);
            assert(members[0].0 == "type"@);
            assert(members[1].0 == "peers"@);
            assert(printable(members[0].1));
            assert(printable(members[1].1));
        },
        RoutableView::Query { addresses, routing_table } => {
            assert(members[0].0 == "type"@);
            assert(members[1].0 == "addresses"@);
            assert(members[2].0 == "routing_table"@);
            assert(printable(members[0].1));
            assert(printable(members[1].1));
            assert(printable(members[2].1));
        },
        RoutableView::Error { msg, data } => {
            let details = encode_details(data);
            assert(members[0] == ("type"@, JsonValue::Text("error"@)));
            assert(members[1] == ("msg"@, JsonValue::Text(msg)));
            assert forall|i: int| 0 <= i < data.len() implies #[trigger] members[i + 2] == (
                data[i].0,
                JsonValue::Text(data[i].1),
            ) by {
                assert(members[i + 2] == details[i]);
            }
            assert forall|i: int| 0 <= i < members.len() implies printable(
                (#[trigger] members[i]).1,
            ) by {
                if i >= 2 {
                    assert(members[(i - 2) + 2].1 is Text);
                }
            }
            if details_free(data) && distinct_keys(data) {
                assert forall|i: int, j: int| 0 <= i < j < members.len() implies (
                #[trigger] members[i]).0 != (#[trigger] members[j]).0 by {
                    if i >= 2 {
                        assert(members[(i - 2) + 2].0 == data[i - 2].0);
                        assert(members[(j - 2) + 2].0 == data[j - 2].0);
                    } else if j >= 2 {
                        assert(members[(j - 2) + 2].0 == data[j - 2].0);
                        assert(!reserved_key(data[j - 2].0));
                    }
                }
            }
            if distinct_keys(members) {
                assert forall|i: int| 0 <= i < data.len() implies !reserved_key(
                    (#[trigger] data[i]).0,
                ) by {
                    assert(members[i + 2].0 == data[i].0);
                    assert(members[0].0 != members[i + 2].0);
                    assert(members[1].0 != members[i + 2].0);
                }
                assert forall|i: int, j: int| 0 <= i < j < data.len() implies (
                #[trigger] data[i]).0 != (#[trigger] data[j]).0 by {
                    assert(members[i + 2].0 == data[i].0);
                    assert(members[j + 2].0 == data[j].0);
                }
            }
        },
        RoutableView::UnknownMessage => {
            assert(printable(members[0].1));
        },
    }
}

/// The JSON form of a message can be written as text exactly when the
/// details of an error in it have keys that are distinct and not reserved.
pub proof fn lemma_message_printable(m: MessageView)
    ensures
        printable(encode_message(m)) == message_printable(m),
{
    lemma_keys_differ();
    match m {
        MessageView::Routable(r) => {
            lemma_routable_printable(r);
        },
        MessageView::UnRoutable(UnRoutableView::SourceRoute { path, content }) => {
            let members = encode_message(m)->Object_0;
            lemma_printable_object(members);
            lemma_peers_printable(path);
            lemma_routable_printable(content);
            assert(members[0].0 == "type"@);
            assert(members[1].0 == "path"@);
            assert(members[2].0 == "content"@);
            assert(printable(members[0].1));
            assert(printable(members[1].1));
            assert(members[2].1 == encode_routable(content));
        },
        MessageView::UnRoutable(UnRoutableView::AppData { content }) => {
            let members = encode_message(m)->Object_0;
            lemma_printable_object(members);
            assert(members[0].0 == "type"@);
            assert(members[1].0 == "content"@);
            assert(printable(members[0].1));
            assert(printable(members[1].1));
        },
    }
}

} // verus!
