//! The signaling messages: a tagged union discriminated by a `type` string,
//! with verified encoding to and decoding from the wire map format.

use vstd::prelude::*;

use crate::bytes::{array_from_vec, push_array, vec_eq};
use crate::codec::{
    enc_array_header, enc_bin, enc_bool, enc_map_header, enc_str, enc_uint, kw_id,
    kw_initiator_connected, kw_key, kw_ping_interval, kw_reason, kw_responders, kw_signed_keys,
    kw_subprotocols, kw_type, kw_your_cookie, kw_your_key, sp_enc_array_header, sp_enc_bin,
    sp_enc_bool, sp_enc_map_header, sp_enc_str, sp_enc_str_array, sp_enc_strs_from,
    lemma_inv_array_header, lemma_inv_bin, lemma_inv_bool, lemma_inv_map_header, lemma_inv_str,
    lemma_inv_str_list, lemma_inv_u8_list, lemma_inv_uint,
    p_array_header, p_bin, p_bool, p_map_header, p_skip, p_str, p_uint, sp_array_header, sp_bin,
    sp_bool, sp_map_header, sp_skip, sp_str, sp_str_list, sp_u8_list, sp_uint,
    sp_enc_u8_array, sp_enc_uint, sp_enc_uints_from, spec_kw_id, spec_kw_initiator_connected,
    spec_kw_key, spec_kw_ping_interval, spec_kw_reason, spec_kw_responders, spec_kw_signed_keys,
    spec_kw_subprotocols, spec_kw_type, spec_kw_your_cookie, spec_kw_your_key,
    spec_tt_client_auth, spec_tt_client_hello, spec_tt_drop_responder, spec_tt_new_responder,
    spec_tt_send_error, spec_tt_server_auth, spec_tt_server_hello, spec_tt_token, tt_client_auth,
    tt_client_hello, tt_drop_responder, tt_new_responder, tt_send_error, tt_server_auth,
    tt_server_hello, tt_token,
};
use crate::cookie::Cookie;
use crate::crypto::{random_bytes, PublicKey};
use crate::errors::{SignalingError, SignalingResult};
use crate::types::Address;

verus! {

broadcast use vstd::array::group_array_axioms, crate::cookie::lemma_cookie_len,
    crate::crypto::lemma_public_key_len;

/// The mathematical shape of a message: every blob a byte sequence, every
/// address a byte.
pub enum MessageV {
    ServerHello { key: Seq<u8> },
    ClientHello { key: Seq<u8> },
    ClientAuth {
        your_cookie: Seq<u8>,
        subprotocols: Seq<Seq<u8>>,
        ping_interval: u32,
        your_key: Option<Seq<u8>>,
    },
    ServerAuth {
        your_cookie: Seq<u8>,
        signed_keys: Option<Seq<u8>>,
        responders: Option<Seq<u8>>,
        initiator_connected: Option<bool>,
    },
    NewResponder { id: u8 },
    DropResponder { id: u8, reason: Option<u32> },
    SendError { id: u8 },
    Token { key: Seq<u8> },
    Key { key: Seq<u8> },
}

/// The payload bounds under which a message can be put on the wire.
pub open spec fn wf_msg(mv: MessageV) -> bool {
    match mv {
        MessageV::ServerHello { key } => key.len() == 32,
        MessageV::ClientHello { key } => key.len() == 32,
        MessageV::ClientAuth { your_cookie, subprotocols, ping_interval, your_key } => {
            &&& your_cookie.len() == 16
            &&& subprotocols.len() <= 0xffff
            &&& (forall|j: int|
                0 <= j < subprotocols.len() ==> #[trigger] subprotocols[j].len() <= 255)
            &&& (your_key matches Some(k) ==> k.len() == 32)
        },
        MessageV::ServerAuth { your_cookie, signed_keys, responders, initiator_connected } => {
            &&& your_cookie.len() == 16
            &&& (signed_keys matches Some(s) ==> s.len() <= 255)
            &&& (responders matches Some(rs) ==> rs.len() <= 0xffff)
        },
        MessageV::NewResponder { id } => true,
        MessageV::DropResponder { id, reason } => true,
        MessageV::SendError { id } => true,
        MessageV::Token { key } => key.len() == 32,
        MessageV::Key { key } => key.len() == 32,
    }
}

/// A `server-hello` message: the server's permanent public key.
#[derive(Debug, PartialEq, Eq, Copy, Clone)]
pub struct ServerHello {
    pub key: PublicKey,
}

/// A `client-hello` message: the responder's permanent public key.
#[derive(Debug, PartialEq, Eq, Copy, Clone)]
pub struct ClientHello {
    pub key: PublicKey,
}

/// A `client-auth` message: the sender echoes the peer's cookie and names
/// its subprotocols and ping interval.
#[derive(Debug, PartialEq, Eq, Clone)]
pub struct ClientAuth {
    pub your_cookie: Cookie,
    pub subprotocols: Vec<Vec<u8>>,
    pub ping_interval: u32,
    pub your_key: Option<PublicKey>,
}

/// A `server-auth` message: the server echoes our cookie and reports either
/// the connected responders (to an initiator) or whether the initiator is
/// connected (to a responder).
#[derive(Debug, PartialEq, Eq, Clone)]
pub struct ServerAuth {
    pub your_cookie: Cookie,
    pub signed_keys: Option<Vec<u8>>,
    pub responders: Option<Vec<Address>>,
    pub initiator_connected: Option<bool>,
}

/// A `new-responder` message: a responder joined the path.
#[derive(Debug, PartialEq, Eq, Copy, Clone)]
pub struct NewResponder {
    pub id: Address,
}

/// A `drop-responder` message: ask the server to drop a responder.
#[derive(Debug, PartialEq, Eq, Copy, Clone)]
pub struct DropResponder {
    pub id: Address,
    pub reason: Option<u32>,
}

/// A `send-error` message: the server could not relay a frame.
#[derive(Debug, PartialEq, Eq, Copy, Clone)]
pub struct SendError {
    pub id: Address,
}

/// A `token` message: the responder's permanent public key, sealed with the
/// one-shot auth token.
#[derive(Debug, PartialEq, Eq, Copy, Clone)]
pub struct Token {
    pub key: PublicKey,
}

/// A `key` message: the sender's session public key.
#[derive(Debug, PartialEq, Eq, Copy, Clone)]
pub struct Key {
    pub key: PublicKey,
}

/// A signaling message.
#[derive(Debug, PartialEq, Eq, Clone)]
pub enum Message {
    ServerHello(ServerHello),
    ClientHello(ClientHello),
    ClientAuth(ClientAuth),
    ServerAuth(ServerAuth),
    NewResponder(NewResponder),
    DropResponder(DropResponder),
    SendError(SendError),
    Token(Token),
    Key(Key),
}

impl View for Message {
    type V = MessageV;

    open spec fn view(&self) -> MessageV {
        match self {
            Message::ServerHello(m) => MessageV::ServerHello { key: m.key@ },
            Message::ClientHello(m) => MessageV::ClientHello { key: m.key@ },
            Message::ClientAuth(m) => MessageV::ClientAuth {
                your_cookie: m.your_cookie@,
                subprotocols: m.subprotocols.deep_view(),
                ping_interval: m.ping_interval,
                your_key: match m.your_key {
                    Some(k) => Some(k@),
                    None => None,
                },
            },
            Message::ServerAuth(m) => MessageV::ServerAuth {
                your_cookie: m.your_cookie@,
                signed_keys: match &m.signed_keys {
                    Some(s) => Some(s@),
                    None => None,
                },
                responders: match &m.responders {
                    Some(rs) => Some(rs@.map_values(|a: Address| a.0)),
                    None => None,
                },
                initiator_connected: m.initiator_connected,
            },
            Message::NewResponder(m) => MessageV::NewResponder { id: m.id.0 },
            Message::DropResponder(m) => MessageV::DropResponder {
                id: m.id.0,
                reason: m.reason,
            },
            Message::SendError(m) => MessageV::SendError { id: m.id.0 },
            Message::Token(m) => MessageV::Token { key: m.key@ },
            Message::Key(m) => MessageV::Key { key: m.key@ },
        }
    }
}

impl ServerHello {
    pub fn new(key: PublicKey) -> (r: Self)
        ensures
            r.key == key,
    {
        ServerHello { key }
    }

    /// A `server-hello` with a fresh random key, for tests and examples.
    pub fn random() -> (r: Self) {
        let v = random_bytes(32);
        ServerHello { key: PublicKey::new(array_from_vec::<32>(&v, 0)) }
    }

    pub fn into_message(self) -> (r: Message)
        ensures
            r == Message::ServerHello(self),
    {
        Message::ServerHello(self)
    }
}

impl ClientHello {
    pub fn new(key: PublicKey) -> (r: Self)
        ensures
            r.key == key,
    {
        ClientHello { key }
    }

    /// A `client-hello` with a fresh random key, for tests and examples.
    pub fn random() -> (r: Self) {
        let v = random_bytes(32);
        ClientHello { key: PublicKey::new(array_from_vec::<32>(&v, 0)) }
    }

    pub fn into_message(self) -> (r: Message)
        ensures
            r == Message::ClientHello(self),
    {
        Message::ClientHello(self)
    }
}

impl ClientAuth {
    pub fn into_message(self) -> (r: Message)
        ensures
            r == Message::ClientAuth(self),
    {
        Message::ClientAuth(self)
    }
}

impl ServerAuth {
    /// A `server-auth` as sent to an initiator: carries the responder list.
    pub fn for_initiator(your_cookie: Cookie, signed_keys: Option<Vec<u8>>,
        responders: Vec<Address>) -> (r: Self)
        ensures
            r.your_cookie == your_cookie,
            r.signed_keys == signed_keys,
            r.responders matches Some(rs) && rs == responders,
            r.initiator_connected is None,
    {
        ServerAuth {
            your_cookie,
            signed_keys,
            responders: Some(responders),
            initiator_connected: None,
        }
    }

    /// A `server-auth` as sent to a responder: reports whether the
    /// initiator is connected.
    pub fn for_responder(your_cookie: Cookie, signed_keys: Option<Vec<u8>>,
        initiator_connected: bool) -> (r: Self)
        ensures
            r.your_cookie == your_cookie,
            r.signed_keys == signed_keys,
            r.responders is None,
            r.initiator_connected matches Some(c) && c == initiator_connected,
    {
        ServerAuth {
            your_cookie,
            signed_keys,
            responders: None,
            initiator_connected: Some(initiator_connected),
        }
    }

    pub fn into_message(self) -> (r: Message)
        ensures
            r == Message::ServerAuth(self),
    {
        Message::ServerAuth(self)
    }
}

impl NewResponder {
    pub fn new(id: Address) -> (r: Self)
        ensures
            r.id == id,
    {
        NewResponder { id }
    }

    pub fn into_message(self) -> (r: Message)
        ensures
            r == Message::NewResponder(self),
    {
        Message::NewResponder(self)
    }
}

impl Token {
    pub fn new(key: PublicKey) -> (r: Self)
        ensures
            r.key == key,
    {
        Token { key }
    }

    pub fn into_message(self) -> (r: Message)
        ensures
            r == Message::Token(self),
    {
        Message::Token(self)
    }
}

impl Key {
    pub fn new(key: PublicKey) -> (r: Self)
        ensures
            r.key == key,
    {
        Key { key }
    }

    pub fn into_message(self) -> (r: Message)
        ensures
            r == Message::Key(self),
    {
        Message::Key(self)
    }
}

/// One map entry: an encoded key name followed by an encoded string value.
pub open spec fn sp_entry_str(k: Seq<u8>, v: Seq<u8>) -> Seq<u8> {
    sp_enc_str(k) + sp_enc_str(v)
}

/// One map entry with a binary value.
pub open spec fn sp_entry_bin(k: Seq<u8>, v: Seq<u8>) -> Seq<u8> {
    sp_enc_str(k) + sp_enc_bin(v)
}

/// One map entry with an unsigned integer value.
pub open spec fn sp_entry_uint(k: Seq<u8>, v: u32) -> Seq<u8> {
    sp_enc_str(k) + sp_enc_uint(v)
}

/// One map entry with a boolean value.
pub open spec fn sp_entry_bool(k: Seq<u8>, v: bool) -> Seq<u8> {
    sp_enc_str(k) + sp_enc_bool(v)
}

/// The number of fields a message encodes, the `type` field included.
pub open spec fn spec_field_count(mv: MessageV) -> int {
    match mv {
        MessageV::ServerHello { .. } => 2,
        MessageV::ClientHello { .. } => 2,
        MessageV::ClientAuth { your_key, .. } => 4 + (if your_key is Some {
            1int
        } else {
            0int
        }),
        MessageV::ServerAuth { signed_keys, responders, initiator_connected, .. } => 2 + (
        if signed_keys is Some {
            1int
        } else {
            0int
        }) + (if responders is Some {
            1int
        } else {
            0int
        }) + (if initiator_connected is Some {
            1int
        } else {
            0int
        }),
        MessageV::NewResponder { .. } => 2,
        MessageV::DropResponder { reason, .. } => 2 + (if reason is Some {
            1int
        } else {
            0int
        }),
        MessageV::SendError { .. } => 2,
        MessageV::Token { .. } => 2,
        MessageV::Key { .. } => 2,
    }
}

/// The canonical wire bytes of a message: a fixmap holding the `type`
/// entry first and the variant's fields after it, in declaration order.
pub open spec fn spec_encode(mv: MessageV) -> Seq<u8> {
    sp_enc_map_header(spec_field_count(mv)) + match mv {
        MessageV::ServerHello { key } => sp_entry_str(spec_kw_type(), spec_tt_server_hello())
            + sp_entry_bin(spec_kw_key(), key),
        MessageV::ClientHello { key } => sp_entry_str(spec_kw_type(), spec_tt_client_hello())
            + sp_entry_bin(spec_kw_key(), key),
        MessageV::ClientAuth { your_cookie, subprotocols, ping_interval, your_key } => sp_entry_str(
            spec_kw_type(),
            spec_tt_client_auth(),
        ) + sp_entry_bin(spec_kw_your_cookie(), your_cookie) + (sp_enc_str(spec_kw_subprotocols())
            + sp_enc_str_array(subprotocols)) + sp_entry_uint(
            spec_kw_ping_interval(),
            ping_interval,
        ) + (match your_key {
            Some(k) => sp_entry_bin(spec_kw_your_key(), k),
            None => Seq::empty(),
        }),
        MessageV::ServerAuth { your_cookie, signed_keys, responders, initiator_connected } => sp_entry_str(
            spec_kw_type(),
            spec_tt_server_auth(),
        ) + sp_entry_bin(spec_kw_your_cookie(), your_cookie) + (match signed_keys {
            Some(s) => sp_entry_bin(spec_kw_signed_keys(), s),
            None => Seq::empty(),
        }) + (match responders {
            Some(rs) => sp_enc_str(spec_kw_responders()) + sp_enc_u8_array(rs),
            None => Seq::empty(),
        }) + (match initiator_connected {
            Some(c) => sp_entry_bool(spec_kw_initiator_connected(), c),
            None => Seq::empty(),
        }),
        MessageV::NewResponder { id } => sp_entry_str(spec_kw_type(), spec_tt_new_responder())
            + sp_entry_uint(spec_kw_id(), id as u32),
        MessageV::DropResponder { id, reason } => sp_entry_str(
            spec_kw_type(),
            spec_tt_drop_responder(),
        ) + sp_entry_uint(spec_kw_id(), id as u32) + (match reason {
            Some(c) => sp_entry_uint(spec_kw_reason(), c),
            None => Seq::empty(),
        }),
        MessageV::SendError { id } => sp_entry_str(spec_kw_type(), spec_tt_send_error())
            + sp_entry_uint(spec_kw_id(), id as u32),
        MessageV::Token { key } => sp_entry_str(spec_kw_type(), spec_tt_token()) + sp_entry_bin(
            spec_kw_key(),
            key,
        ),
        MessageV::Key { key } => sp_entry_str(spec_kw_type(), spec_kw_key()) + sp_entry_bin(
            spec_kw_key(),
            key,
        ),
    }
}

/// Append one encoded string entry.
fn enc_entry_str(out: &mut Vec<u8>, k: &Vec<u8>, v: &Vec<u8>)
    requires
        k@.len() <= 255,
        v@.len() <= 255,
    ensures
        final(out)@ == old(out)@ + sp_entry_str(k@, v@),
{
    let ghost orig = out@;
    enc_str(out, k);
    enc_str(out, v);
    proof {
        assert(out@ =~= orig + sp_entry_str(k@, v@));
    }
}

/// Append one encoded binary entry.
fn enc_entry_bin(out: &mut Vec<u8>, k: &Vec<u8>, v: &Vec<u8>)
    requires
        k@.len() <= 255,
        v@.len() <= 255,
    ensures
        final(out)@ == old(out)@ + sp_entry_bin(k@, v@),
{
    let ghost orig = out@;
    enc_str(out, k);
    enc_bin(out, v);
    proof {
        assert(out@ =~= orig + sp_entry_bin(k@, v@));
    }
}

/// Append one encoded unsigned integer entry.
fn enc_entry_uint(out: &mut Vec<u8>, k: &Vec<u8>, v: u32)
    requires
        k@.len() <= 255,
    ensures
        final(out)@ == old(out)@ + sp_entry_uint(k@, v),
{
    let ghost orig = out@;
    enc_str(out, k);
    enc_uint(out, v);
    proof {
        assert(out@ =~= orig + sp_entry_uint(k@, v));
    }
}

/// Append one encoded boolean entry.
fn enc_entry_bool(out: &mut Vec<u8>, k: &Vec<u8>, v: bool)
    requires
        k@.len() <= 255,
    ensures
        final(out)@ == old(out)@ + sp_entry_bool(k@, v),
{
    let ghost orig = out@;
    enc_str(out, k);
    enc_bool(out, v);
    proof {
        assert(out@ =~= orig + sp_entry_bool(k@, v));
    }
}

/// Append an encoded array of strings.
fn enc_str_array(out: &mut Vec<u8>, xs: &Vec<Vec<u8>>)
    requires
        xs.deep_view().len() <= 0xffff,
        forall|j: int| 0 <= j < xs.deep_view().len() ==> #[trigger] xs.deep_view()[j].len() <= 255,
    ensures
        final(out)@ == old(out)@ + sp_enc_str_array(xs.deep_view()),
{
    let ghost v = xs.deep_view();
    let ghost orig = out@;
    enc_array_header(out, xs.len());
    let ghost base = out@;
    let mut i: usize = 0;
    while i < xs.len()
        invariant
            0 <= i <= xs@.len(),
            v == xs.deep_view(),
            v.len() == xs@.len() <= 0xffff,
            forall|j: int| 0 <= j < v.len() ==> #[trigger] v[j].len() <= 255,
            base == orig + sp_enc_array_header(v.len() as int),
            out@ + sp_enc_strs_from(v, i as int) == base + sp_enc_strs_from(v, 0),
        decreases xs@.len() - i,
    {
        proof {
            assert(v[i as int] == xs@[i as int]@);
        }
        let ghost prev = out@;
        enc_str(out, &xs[i]);
        proof {
            assert(prev + sp_enc_strs_from(v, i as int) =~= (prev + sp_enc_str(v[i as int]))
                + sp_enc_strs_from(v, i + 1));
        }
        i += 1;
    }
    proof {
        assert(sp_enc_strs_from(v, v.len() as int) =~= Seq::<u8>::empty());
        assert(out@ + sp_enc_strs_from(v, v.len() as int) =~= out@);
        assert(base + sp_enc_strs_from(v, 0) =~= orig + sp_enc_str_array(v));
        assert(out@ =~= orig + sp_enc_str_array(v));
    }
}

/// Append an encoded array of address bytes.
fn enc_u8_array(out: &mut Vec<u8>, xs: &Vec<Address>)
    requires
        xs@.len() <= 0xffff,
    ensures
        final(out)@ == old(out)@ + sp_enc_u8_array(xs@.map_values(|a: Address| a.0)),
{
    let ghost v = xs@.map_values(|a: Address| a.0);
    let ghost orig = out@;
    enc_array_header(out, xs.len());
    let ghost base = out@;
    let mut i: usize = 0;
    while i < xs.len()
        invariant
            0 <= i <= xs@.len(),
            v == xs@.map_values(|a: Address| a.0),
            v.len() == xs@.len() <= 0xffff,
            base == orig + sp_enc_array_header(v.len() as int),
            out@ + sp_enc_uints_from(v, i as int) == base + sp_enc_uints_from(v, 0),
        decreases xs@.len() - i,
    {
        proof {
            assert(v[i as int] == xs@[i as int].0);
        }
        let ghost prev = out@;
        enc_uint(out, xs[i].0 as u32);
        proof {
            assert(prev + sp_enc_uints_from(v, i as int) =~= (prev + sp_enc_uint(
                v[i as int] as u32,
            )) + sp_enc_uints_from(v, i + 1));
        }
        i += 1;
    }
    proof {
        assert(sp_enc_uints_from(v, v.len() as int) =~= Seq::<u8>::empty());
        assert(out@ + sp_enc_uints_from(v, v.len() as int) =~= out@);
        assert(base + sp_enc_uints_from(v, 0) =~= orig + sp_enc_u8_array(v));
        assert(out@ =~= orig + sp_enc_u8_array(v));
    }
}

impl Message {
    /// The discriminator string of the message.
    pub fn get_type(&self) -> (r: &'static str)
        ensures
            r@ == spec_msg_type(self@),
    {
        match self {
            Message::ServerHello(_) => "server-hello",
            Message::ClientHello(_) => "client-hello",
            Message::ClientAuth(_) => "client-auth",
            Message::ServerAuth(_) => "server-auth",
            Message::NewResponder(_) => "new-responder",
            Message::DropResponder(_) => "drop-responder",
            Message::SendError(_) => "send-error",
            Message::Token(_) => "token",
            Message::Key(_) => "key",
        }
    }

    /// Whether the message can be put on the wire.
    #[verifier::loop_isolation(false)]
    pub fn is_wf(&self) -> (r: bool)
        ensures
            r == wf_msg(self@),
    {
        match self {
            Message::ServerHello(_) => true,
            Message::ClientHello(_) => true,
            Message::ClientAuth(m) => {
                proof {
                    assert(m.subprotocols.deep_view().len() == m.subprotocols@.len());
                }
                if m.subprotocols.len() > 0xffff {
                    return false;
                }
                let mut i: usize = 0;
                while i < m.subprotocols.len()
                    invariant
                        0 <= i <= m.subprotocols@.len(),
                        forall|j: int|
                            0 <= j < i ==> #[trigger] m.subprotocols.deep_view()[j].len() <= 255,
                    decreases m.subprotocols@.len() - i,
                {
                    if m.subprotocols[i].len() > 255 {
                        proof {
                            let s = m.subprotocols.deep_view();
                            assert(s[i as int] == m.subprotocols@[i as int].deep_view());
                            assert(s[i as int].len() == m.subprotocols@[i as int]@.len());
                            assert(!(forall|j: int|
                                0 <= j < s.len() ==> #[trigger] s[j].len() <= 255));
                            assert(self@ matches MessageV::ClientAuth { subprotocols, .. }
                                && subprotocols == s);
                            assert(!wf_msg(self@));
                        }
                        return false;
                    }
                    assert(m.subprotocols.deep_view()[i as int] == m.subprotocols@[i as int]@);
                    i += 1;
                }
                true
            },
            Message::ServerAuth(m) => {
                let sk_ok = match &m.signed_keys {
                    Some(s) => s.len() <= 255,
                    None => true,
                };
                let rs_ok = match &m.responders {
                    Some(rs) => rs.len() <= 0xffff,
                    None => true,
                };
                sk_ok && rs_ok
            },
            Message::NewResponder(_) => true,
            Message::DropResponder(_) => true,
            Message::SendError(_) => true,
            Message::Token(_) => true,
            Message::Key(_) => true,
        }
    }

    /// Encode the message into its canonical wire bytes.
    #[verifier::rlimit(50)]
    pub fn to_msgpack(&self) -> (r: Vec<u8>)
        requires
            wf_msg(self@),
        ensures
            r@ == spec_encode(self@),
    {
        let mut out: Vec<u8> = Vec::new();
        match self {
            Message::ServerHello(m) => {
                enc_map_header(&mut out, 2);
                enc_entry_str(&mut out, &kw_type(), &tt_server_hello());
                let kv = key_bytes_vec(&m.key);
                enc_entry_bin(&mut out, &kw_key(), &kv);
                proof {
                    assert(out@ =~= spec_encode(self@));
                }
            },
            Message::ClientHello(m) => {
                enc_map_header(&mut out, 2);
                enc_entry_str(&mut out, &kw_type(), &tt_client_hello());
                let kv = key_bytes_vec(&m.key);
                enc_entry_bin(&mut out, &kw_key(), &kv);
                proof {
                    assert(out@ =~= spec_encode(self@));
                }
            },
            Message::ClientAuth(m) => {
                let n: usize = if m.your_key.is_some() {
                    5
                } else {
                    4
                };
                enc_map_header(&mut out, n);
                enc_entry_str(&mut out, &kw_type(), &tt_client_auth());
                let cv = cookie_bytes_vec(&m.your_cookie);
                enc_entry_bin(&mut out, &kw_your_cookie(), &cv);
                enc_str(&mut out, &kw_subprotocols());
                enc_str_array(&mut out, &m.subprotocols);
                enc_entry_uint(&mut out, &kw_ping_interval(), m.ping_interval);
                match &m.your_key {
                    Some(k) => {
                        let kv = key_bytes_vec(k);
                        enc_entry_bin(&mut out, &kw_your_key(), &kv);
                    },
                    None => {},
                }
                proof {
                    assert(out@ =~= spec_encode(self@));
                }
            },
            Message::ServerAuth(m) => {
                let mut n: usize = 2;
                if m.signed_keys.is_some() {
                    n += 1;
                }
                if m.responders.is_some() {
                    n += 1;
                }
                if m.initiator_connected.is_some() {
                    n += 1;
                }
                enc_map_header(&mut out, n);
                enc_entry_str(&mut out, &kw_type(), &tt_server_auth());
                let cv = cookie_bytes_vec(&m.your_cookie);
                enc_entry_bin(&mut out, &kw_your_cookie(), &cv);
                match &m.signed_keys {
                    Some(s) => enc_entry_bin(&mut out, &kw_signed_keys(), s),
                    None => {},
                }
                match &m.responders {
                    Some(rs) => {
                        enc_str(&mut out, &kw_responders());
                        enc_u8_array(&mut out, rs);
                    },
                    None => {},
                }
                match &m.initiator_connected {
                    Some(c) => enc_entry_bool(&mut out, &kw_initiator_connected(), *c),
                    None => {},
                }
                proof {
                    assert(out@ =~= spec_encode(self@));
                }
            },
            Message::NewResponder(m) => {
                enc_map_header(&mut out, 2);
                enc_entry_str(&mut out, &kw_type(), &tt_new_responder());
                enc_entry_uint(&mut out, &kw_id(), m.id.0 as u32);
                proof {
                    assert(out@ =~= spec_encode(self@));
                }
            },
            Message::DropResponder(m) => {
                let n: usize = if m.reason.is_some() {
                    3
                } else {
                    2
                };
                enc_map_header(&mut out, n);
                enc_entry_str(&mut out, &kw_type(), &tt_drop_responder());
                enc_entry_uint(&mut out, &kw_id(), m.id.0 as u32);
                match m.reason {
                    Some(c) => enc_entry_uint(&mut out, &kw_reason(), c),
                    None => {},
                }
                proof {
                    assert(out@ =~= spec_encode(self@));
                }
            },
            Message::SendError(m) => {
                enc_map_header(&mut out, 2);
                enc_entry_str(&mut out, &kw_type(), &tt_send_error());
                enc_entry_uint(&mut out, &kw_id(), m.id.0 as u32);
                proof {
                    assert(out@ =~= spec_encode(self@));
                }
            },
            Message::Token(m) => {
                enc_map_header(&mut out, 2);
                enc_entry_str(&mut out, &kw_type(), &tt_token());
                let kv = key_bytes_vec(&m.key);
                enc_entry_bin(&mut out, &kw_key(), &kv);
                proof {
                    assert(out@ =~= spec_encode(self@));
                }
            },
            Message::Key(m) => {
                enc_map_header(&mut out, 2);
                enc_entry_str(&mut out, &kw_type(), &kw_key());
                let kv = key_bytes_vec(&m.key);
                enc_entry_bin(&mut out, &kw_key(), &kv);
                proof {
                    assert(out@ =~= spec_encode(self@));
                }
            },
        }
        out
    }
}

/// The discriminator string of a message, as characters.
pub open spec fn spec_msg_type(mv: MessageV) -> Seq<char> {
    match mv {
        MessageV::ServerHello { .. } => "server-hello"@,
        MessageV::ClientHello { .. } => "client-hello"@,
        MessageV::ClientAuth { .. } => "client-auth"@,
        MessageV::ServerAuth { .. } => "server-auth"@,
        MessageV::NewResponder { .. } => "new-responder"@,
        MessageV::DropResponder { .. } => "drop-responder"@,
        MessageV::SendError { .. } => "send-error"@,
        MessageV::Token { .. } => "token"@,
        MessageV::Key { .. } => "key"@,
    }
}

// ---------------------------------------------------------------------------
// Decoding
// ---------------------------------------------------------------------------
/// The fields a message map can carry, each recorded once seen. Field order
/// on the wire does not matter; unknown fields are skipped.
pub struct FieldsV {
    pub msg_type: Option<Seq<u8>>,
    pub key: Option<Seq<u8>>,
    pub your_cookie: Option<Seq<u8>>,
    pub subprotocols: Option<Seq<Seq<u8>>>,
    pub ping_interval: Option<u32>,
    pub your_key: Option<Seq<u8>>,
    pub signed_keys: Option<Seq<u8>>,
    pub responders: Option<Seq<u8>>,
    pub initiator_connected: Option<bool>,
    pub id: Option<u32>,
    pub reason: Option<u32>,
}

/// No field seen yet.
pub open spec fn sp_fields_empty() -> FieldsV {
    FieldsV {
        msg_type: None,
        key: None,
        your_cookie: None,
        subprotocols: None,
        ping_interval: None,
        your_key: None,
        signed_keys: None,
        responders: None,
        initiator_connected: None,
        id: None,
        reason: None,
    }
}

/// Parse `n` map entries: each a string key followed by a value whose shape
/// the key determines. A later entry overwrites an earlier one with the
/// same key; an unknown key has its value skipped.
pub open spec fn sp_fields(s: Seq<u8>, n: nat, acc: FieldsV) -> Option<(FieldsV, Seq<u8>)>
    decreases n,
{
    if n == 0 {
        Some((acc, s))
    } else {
        match sp_str(s) {
            None => None,
            Some((k, r)) => {
                if k == spec_kw_type() {
                    match sp_str(r) {
                        None => None,
                        Some((v, r2)) => sp_fields(
                            r2,
                            (n - 1) as nat,
                            FieldsV { msg_type: Some(v), ..acc },
                        ),
                    }
                } else if k == spec_kw_key() {
                    match sp_bin(r) {
                        None => None,
                        Some((v, r2)) => sp_fields(r2, (n - 1) as nat, FieldsV { key: Some(v), ..acc }),
                    }
                } else if k == spec_kw_your_cookie() {
                    match sp_bin(r) {
                        None => None,
                        Some((v, r2)) => sp_fields(
                            r2,
                            (n - 1) as nat,
                            FieldsV { your_cookie: Some(v), ..acc },
                        ),
                    }
                } else if k == spec_kw_subprotocols() {
                    match sp_array_header(r) {
                        None => None,
                        Some((m, r2)) => match sp_str_list(r2, m as nat) {
                            None => None,
                            Some((xs, r3)) => sp_fields(
                                r3,
                                (n - 1) as nat,
                                FieldsV { subprotocols: Some(xs), ..acc },
                            ),
                        },
                    }
                } else if k == spec_kw_ping_interval() {
                    match sp_uint(r) {
                        None => None,
                        Some((v, r2)) => sp_fields(
                            r2,
                            (n - 1) as nat,
                            FieldsV { ping_interval: Some(v), ..acc },
                        ),
                    }
                } else if k == spec_kw_your_key() {
                    match sp_bin(r) {
                        None => None,
                        Some((v, r2)) => sp_fields(
                            r2,
                            (n - 1) as nat,
                            FieldsV { your_key: Some(v), ..acc },
                        ),
                    }
                } else if k == spec_kw_signed_keys() {
                    match sp_bin(r) {
                        None => None,
                        Some((v, r2)) => sp_fields(
                            r2,
                            (n - 1) as nat,
                            FieldsV { signed_keys: Some(v), ..acc },
                        ),
                    }
                } else if k == spec_kw_responders() {
                    match sp_array_header(r) {
                        None => None,
                        Some((m, r2)) => match sp_u8_list(r2, m as nat) {
                            None => None,
                            Some((xs, r3)) => sp_fields(
                                r3,
                                (n - 1) as nat,
                                FieldsV { responders: Some(xs), ..acc },
                            ),
                        },
                    }
                } else if k == spec_kw_initiator_connected() {
                    match sp_bool(r) {
                        None => None,
                        Some((v, r2)) => sp_fields(
                            r2,
                            (n - 1) as nat,
                            FieldsV { initiator_connected: Some(v), ..acc },
                        ),
                    }
                } else if k == spec_kw_id() {
                    match sp_uint(r) {
                        None => None,
                        Some((v, r2)) => sp_fields(r2, (n - 1) as nat, FieldsV { id: Some(v), ..acc }),
                    }
                } else if k == spec_kw_reason() {
                    match sp_uint(r) {
                        None => None,
                        Some((v, r2)) => sp_fields(
                            r2,
                            (n - 1) as nat,
                            FieldsV { reason: Some(v), ..acc },
                        ),
                    }
                } else {
                    match sp_skip(r) {
                        None => None,
                        Some(r2) => sp_fields(r2, (n - 1) as nat, acc),
                    }
                }
            },
        }
    }
}

/// What decoding yields: a message, malformed bytes, or a structurally
/// valid map whose fields do not make a message.
pub enum DecodeOutcome {
    Msg(MessageV),
    Malformed,
    Invalid,
}

/// Build a message from collected fields: the `type` discriminator picks
/// the variant, which checks its required fields and their sizes.
pub open spec fn spec_assemble(f: FieldsV) -> DecodeOutcome {
    match f.msg_type {
        None => DecodeOutcome::Invalid,
        Some(t) => {
            if t == spec_tt_server_hello() {
                match f.key {
                    Some(k) => if k.len() == 32 {
                        DecodeOutcome::Msg(MessageV::ServerHello { key: k })
                    } else {
                        DecodeOutcome::Invalid
                    },
                    None => DecodeOutcome::Invalid,
                }
            } else if t == spec_tt_client_hello() {
                match f.key {
                    Some(k) => if k.len() == 32 {
                        DecodeOutcome::Msg(MessageV::ClientHello { key: k })
                    } else {
                        DecodeOutcome::Invalid
                    },
                    None => DecodeOutcome::Invalid,
                }
            } else if t == spec_tt_client_auth() {
                match (f.your_cookie, f.subprotocols, f.ping_interval) {
                    (Some(c), Some(subs), Some(p)) => if c.len() == 16 && (match f.your_key {
                        Some(k) => k.len() == 32,
                        None => true,
                    }) {
                        DecodeOutcome::Msg(
                            MessageV::ClientAuth {
                                your_cookie: c,
                                subprotocols: subs,
                                ping_interval: p,
                                your_key: f.your_key,
                            },
                        )
                    } else {
                        DecodeOutcome::Invalid
                    },
                    _ => DecodeOutcome::Invalid,
                }
            } else if t == spec_tt_server_auth() {
                match f.your_cookie {
                    Some(c) => if c.len() == 16 {
                        DecodeOutcome::Msg(
                            MessageV::ServerAuth {
                                your_cookie: c,
                                signed_keys: f.signed_keys,
                                responders: f.responders,
                                initiator_connected: f.initiator_connected,
                            },
                        )
                    } else {
                        DecodeOutcome::Invalid
                    },
                    None => DecodeOutcome::Invalid,
                }
            } else if t == spec_tt_new_responder() {
                match f.id {
                    Some(v) => if v <= 0xff {
                        DecodeOutcome::Msg(MessageV::NewResponder { id: v as u8 })
                    } else {
                        DecodeOutcome::Invalid
                    },
                    None => DecodeOutcome::Invalid,
                }
            } else if t == spec_tt_drop_responder() {
                match f.id {
                    Some(v) => if v <= 0xff {
                        DecodeOutcome::Msg(MessageV::DropResponder { id: v as u8, reason: f.reason })
                    } else {
                        DecodeOutcome::Invalid
                    },
                    None => DecodeOutcome::Invalid,
                }
            } else if t == spec_tt_send_error() {
                match f.id {
                    Some(v) => if v <= 0xff {
                        DecodeOutcome::Msg(MessageV::SendError { id: v as u8 })
                    } else {
                        DecodeOutcome::Invalid
                    },
                    None => DecodeOutcome::Invalid,
                }
            } else if t == spec_tt_token() {
                match f.key {
                    Some(k) => if k.len() == 32 {
                        DecodeOutcome::Msg(MessageV::Token { key: k })
                    } else {
                        DecodeOutcome::Invalid
                    },
                    None => DecodeOutcome::Invalid,
                }
            } else if t == spec_kw_key() {
                match f.key {
                    Some(k) => if k.len() == 32 {
                        DecodeOutcome::Msg(MessageV::Key { key: k })
                    } else {
                        DecodeOutcome::Invalid
                    },
                    None => DecodeOutcome::Invalid,
                }
            } else {
                DecodeOutcome::Malformed
            }
        },
    }
}

/// What a byte sequence decodes to: a fixmap whose entries are collected
/// and assembled; trailing bytes are malformed.
pub open spec fn spec_decode(s: Seq<u8>) -> DecodeOutcome {
    match sp_map_header(s) {
        None => DecodeOutcome::Malformed,
        Some((n, r)) => match sp_fields(r, n as nat, sp_fields_empty()) {
            None => DecodeOutcome::Malformed,
            Some((f, rest)) => if rest.len() == 0 {
                spec_assemble(f)
            } else {
                DecodeOutcome::Malformed
            },
        },
    }
}

/// The collected fields, as executable values.
struct FieldsAcc {
    msg_type: Option<Vec<u8>>,
    key: Option<Vec<u8>>,
    your_cookie: Option<Vec<u8>>,
    subprotocols: Option<Vec<Vec<u8>>>,
    ping_interval: Option<u32>,
    your_key: Option<Vec<u8>>,
    signed_keys: Option<Vec<u8>>,
    responders: Option<Vec<u8>>,
    initiator_connected: Option<bool>,
    id: Option<u32>,
    reason: Option<u32>,
}

impl View for FieldsAcc {
    type V = FieldsV;

    closed spec fn view(&self) -> FieldsV {
        FieldsV {
            msg_type: match &self.msg_type {
                Some(v) => Some(v@),
                None => None,
            },
            key: match &self.key {
                Some(v) => Some(v@),
                None => None,
            },
            your_cookie: match &self.your_cookie {
                Some(v) => Some(v@),
                None => None,
            },
            subprotocols: match &self.subprotocols {
                Some(v) => Some(v.deep_view()),
                None => None,
            },
            ping_interval: self.ping_interval,
            your_key: match &self.your_key {
                Some(v) => Some(v@),
                None => None,
            },
            signed_keys: match &self.signed_keys {
                Some(v) => Some(v@),
                None => None,
            },
            responders: match &self.responders {
                Some(v) => Some(v@),
                None => None,
            },
            initiator_connected: self.initiator_connected,
            id: self.id,
            reason: self.reason,
        }
    }
}

/// Parse `n` strings in a row.
#[verifier::loop_isolation(false)]
fn p_str_list(bytes: &Vec<u8>, pos: usize, n: u32) -> (r: Option<(Vec<Vec<u8>>, usize)>)
    requires
        pos <= bytes@.len(),
    ensures
        match r {
            Some((xs, p)) => pos <= p <= bytes@.len() && sp_str_list(
                bytes@.skip(pos as int),
                n as nat,
            ) == Some((xs.deep_view(), bytes@.skip(p as int))),
            None => sp_str_list(bytes@.skip(pos as int), n as nat) is None,
        },
{
    let mut acc: Vec<Vec<u8>> = Vec::new();
    let mut cur: usize = pos;
    let mut i: u32 = 0;
    while i < n
        invariant
            0 <= i <= n,
            pos <= cur <= bytes@.len(),
            ({
                let full = sp_str_list(bytes@.skip(pos as int), n as nat);
                let part = sp_str_list(bytes@.skip(cur as int), (n - i) as nat);
                match part {
                    None => full is None,
                    Some((xs, rest)) => full == Some((acc.deep_view() + xs, rest)),
                }
            }),
        decreases n - i,
    {
        match p_str(bytes, cur) {
            None => {
                return None;
            },
            Some((v, p2)) => {
                let ghost old_acc = acc.deep_view();
                acc.push(v);
                proof {
                    assert(acc.deep_view() =~= old_acc + seq![v@]) by {
                        assert(v.deep_view() =~= v@);
                        assert(forall|j: int|
                            0 <= j < old_acc.len() ==> acc.deep_view()[j] == old_acc[j]);
                    }
                    let part2 = sp_str_list(bytes@.skip(p2 as int), (n - i - 1) as nat);
                    match part2 {
                        None => {},
                        Some((xs2, rest2)) => {
                            assert(old_acc + (seq![v@] + xs2) =~= (old_acc + seq![v@]) + xs2);
                        },
                    }
                }
                cur = p2;
            },
        }
        i += 1;
    }
    proof {
        assert(acc.deep_view() + Seq::<Seq<u8>>::empty() =~= acc.deep_view());
    }
    Some((acc, cur))
}

/// Parse `n` byte-sized unsigned integers in a row.
#[verifier::loop_isolation(false)]
fn p_u8_list(bytes: &Vec<u8>, pos: usize, n: u32) -> (r: Option<(Vec<u8>, usize)>)
    requires
        pos <= bytes@.len(),
    ensures
        match r {
            Some((xs, p)) => pos <= p <= bytes@.len() && sp_u8_list(
                bytes@.skip(pos as int),
                n as nat,
            ) == Some((xs@, bytes@.skip(p as int))),
            None => sp_u8_list(bytes@.skip(pos as int), n as nat) is None,
        },
{
    let mut acc: Vec<u8> = Vec::new();
    let mut cur: usize = pos;
    let mut i: u32 = 0;
    while i < n
        invariant
            0 <= i <= n,
            pos <= cur <= bytes@.len(),
            ({
                let full = sp_u8_list(bytes@.skip(pos as int), n as nat);
                let part = sp_u8_list(bytes@.skip(cur as int), (n - i) as nat);
                match part {
                    None => full is None,
                    Some((xs, rest)) => full == Some((acc@ + xs, rest)),
                }
            }),
        decreases n - i,
    {
        match p_uint(bytes, cur) {
            None => {
                return None;
            },
            Some((v, p2)) => {
                if v > 0xff {
                    return None;
                }
                let ghost old_acc = acc@;
                acc.push(v as u8);
                proof {
                    let part2 = sp_u8_list(bytes@.skip(p2 as int), (n - i - 1) as nat);
                    match part2 {
                        None => {},
                        Some((xs2, rest2)) => {
                            assert(old_acc + (seq![v as u8] + xs2) =~= (old_acc + seq![v as u8])
                                + xs2);
                        },
                    }
                }
                cur = p2;
            },
        }
        i += 1;
    }
    proof {
        assert(acc@ + Seq::<u8>::empty() =~= acc@);
    }
    Some((acc, cur))
}

/// Collect `n` map entries.
#[verifier::loop_isolation(false)]
#[verifier::rlimit(100)]
fn p_fields(bytes: &Vec<u8>, pos: usize, n: u32) -> (r: Option<(FieldsAcc, usize)>)
    requires
        pos <= bytes@.len(),
    ensures
        match r {
            Some((f, p)) => pos <= p <= bytes@.len() && sp_fields(
                bytes@.skip(pos as int),
                n as nat,
                sp_fields_empty(),
            ) == Some((f@, bytes@.skip(p as int))),
            None => sp_fields(bytes@.skip(pos as int), n as nat, sp_fields_empty()) is None,
        },
{
    let mut acc = FieldsAcc {
        msg_type: None,
        key: None,
        your_cookie: None,
        subprotocols: None,
        ping_interval: None,
        your_key: None,
        signed_keys: None,
        responders: None,
        initiator_connected: None,
        id: None,
        reason: None,
    };
    let mut cur: usize = pos;
    let mut i: u32 = 0;
    while i < n
        invariant
            0 <= i <= n,
            pos <= cur <= bytes@.len(),
            sp_fields(bytes@.skip(pos as int), n as nat, sp_fields_empty()) == sp_fields(
                bytes@.skip(cur as int),
                (n - i) as nat,
                acc@,
            ),
        decreases n - i,
    {
        let (k, p1) = match p_str(bytes, cur) {
            None => {
                return None;
            },
            Some(x) => x,
        };
        if vec_eq(&k, &kw_type()) {
            match p_str(bytes, p1) {
                None => {
                    return None;
                },
                Some((v, p2)) => {
                    acc.msg_type = Some(v);
                    cur = p2;
                },
            }
        } else if vec_eq(&k, &kw_key()) {
            match p_bin(bytes, p1) {
                None => {
                    return None;
                },
                Some((v, p2)) => {
                    acc.key = Some(v);
                    cur = p2;
                },
            }
        } else if vec_eq(&k, &kw_your_cookie()) {
            match p_bin(bytes, p1) {
                None => {
                    return None;
                },
                Some((v, p2)) => {
                    acc.your_cookie = Some(v);
                    cur = p2;
                },
            }
        } else if vec_eq(&k, &kw_subprotocols()) {
            match p_array_header(bytes, p1) {
                None => {
                    return None;
                },
                Some((m, p2)) => match p_str_list(bytes, p2, m) {
                    None => {
                        return None;
                    },
                    Some((xs, p3)) => {
                        acc.subprotocols = Some(xs);
                        cur = p3;
                    },
                },
            }
        } else if vec_eq(&k, &kw_ping_interval()) {
            match p_uint(bytes, p1) {
                None => {
                    return None;
                },
                Some((v, p2)) => {
                    acc.ping_interval = Some(v);
                    cur = p2;
                },
            }
        } else if vec_eq(&k, &kw_your_key()) {
            match p_bin(bytes, p1) {
                None => {
                    return None;
                },
                Some((v, p2)) => {
                    acc.your_key = Some(v);
                    cur = p2;
                },
            }
        } else if vec_eq(&k, &kw_signed_keys()) {
            match p_bin(bytes, p1) {
                None => {
                    return None;
                },
                Some((v, p2)) => {
                    acc.signed_keys = Some(v);
                    cur = p2;
                },
            }
        } else if vec_eq(&k, &kw_responders()) {
            match p_array_header(bytes, p1) {
                None => {
                    return None;
                },
                Some((m, p2)) => match p_u8_list(bytes, p2, m) {
                    None => {
                        return None;
                    },
                    Some((xs, p3)) => {
                        acc.responders = Some(xs);
                        cur = p3;
                    },
                },
            }
        } else if vec_eq(&k, &kw_initiator_connected()) {
            match p_bool(bytes, p1) {
                None => {
                    return None;
                },
                Some((v, p2)) => {
                    acc.initiator_connected = Some(v);
                    cur = p2;
                },
            }
        } else if vec_eq(&k, &kw_id()) {
            match p_uint(bytes, p1) {
                None => {
                    return None;
                },
                Some((v, p2)) => {
                    acc.id = Some(v);
                    cur = p2;
                },
            }
        } else if vec_eq(&k, &kw_reason()) {
            match p_uint(bytes, p1) {
                None => {
                    return None;
                },
                Some((v, p2)) => {
                    acc.reason = Some(v);
                    cur = p2;
                },
            }
        } else {
            match p_skip(bytes, p1) {
                None => {
                    return None;
                },
                Some(p2) => {
                    cur = p2;
                },
            }
        }
        i += 1;
    }
    Some((acc, cur))
}

/// The address values of a byte vector.
fn addrs_of_bytes(v: &Vec<u8>) -> (r: Vec<Address>)
    ensures
        r@.map_values(|a: Address| a.0) == v@,
{
    let mut r: Vec<Address> = Vec::new();
    let mut i: usize = 0;
    while i < v.len()
        invariant
            0 <= i <= v@.len(),
            r@.map_values(|a: Address| a.0) == v@.subrange(0, i as int),
        decreases v@.len() - i,
    {
        let ghost old_r = r@;
        r.push(Address(v[i]));
        proof {
            assert(r@.map_values(|a: Address| a.0) =~= old_r.map_values(|a: Address| a.0)
                + seq![v@[i as int]]);
            assert(v@.subrange(0, i as int) + seq![v@[i as int]] =~= v@.subrange(0, i + 1));
        }
        i += 1;
    }
    proof {
        assert(v@.subrange(0, v@.len() as int) =~= v@);
    }
    r
}

impl Message {
    /// Decode a message from its wire bytes. Succeeds exactly on the byte
    /// sequences that decode to a message; malformed bytes and an unknown
    /// `type` fail with `Decode`, a well-formed map whose fields do not
    /// make a message fails with `InvalidMessage`.
    #[verifier::rlimit(100)]
    pub fn from_msgpack(bytes: &Vec<u8>) -> (r: SignalingResult<Message>)
        ensures
            match r {
                Ok(m) => spec_decode(bytes@) == DecodeOutcome::Msg(m@),
                Err(e) => match spec_decode(bytes@) {
                    DecodeOutcome::Msg(_) => false,
                    DecodeOutcome::Malformed => e matches SignalingError::Decode(_),
                    DecodeOutcome::Invalid => e matches SignalingError::InvalidMessage(_),
                },
            },
    {
        let (n, p0) = match p_map_header(bytes, 0) {
            None => {
                proof {
                    assert(bytes@.skip(0) =~= bytes@);
                }
                return Err(
                    SignalingError::Decode(String::from_str("cannot decode message payload")),
                );
            },
            Some(x) => x,
        };
        proof {
            assert(bytes@.skip(0) =~= bytes@);
        }
        let (f, p1) = match p_fields(bytes, p0, n) {
            None => {
                return Err(
                    SignalingError::Decode(String::from_str("cannot decode message payload")),
                );
            },
            Some(x) => x,
        };
        if p1 != bytes.len() {
            proof {
                assert(bytes@.skip(p1 as int).len() != 0);
            }
            return Err(SignalingError::Decode(String::from_str("cannot decode message payload")));
        }
        proof {
            assert(bytes@.skip(p1 as int).len() == 0);
        }
        let t = match &f.msg_type {
            None => {
                return Err(
                    SignalingError::InvalidMessage(
                        String::from_str("`type` field in message is missing"),
                    ),
                );
            },
            Some(t) => t,
        };
        if vec_eq(t, &tt_server_hello()) {
            match &f.key {
                Some(k) if k.len() == 32 => {
                    let pk = PublicKey::new(array_from_vec::<32>(k, 0));
                    proof {
                        assert(pk@ =~= k@);
                    }
                    Ok(Message::ServerHello(ServerHello { key: pk }))
                },
                _ => Err(
                    SignalingError::InvalidMessage(
                        String::from_str("server-hello message needs a 32-byte `key`"),
                    ),
                ),
            }
        } else if vec_eq(t, &tt_client_hello()) {
            match &f.key {
                Some(k) if k.len() == 32 => {
                    let pk = PublicKey::new(array_from_vec::<32>(k, 0));
                    proof {
                        assert(pk@ =~= k@);
                    }
                    Ok(Message::ClientHello(ClientHello { key: pk }))
                },
                _ => Err(
                    SignalingError::InvalidMessage(
                        String::from_str("client-hello message needs a 32-byte `key`"),
                    ),
                ),
            }
        } else if vec_eq(t, &tt_client_auth()) {
            let c = match &f.your_cookie {
                Some(c) if c.len() == 16 => c,
                _ => {
                    return Err(
                        SignalingError::InvalidMessage(
                            String::from_str("client-auth message needs a 16-byte `your_cookie`"),
                        ),
                    );
                },
            };
            let subs = match f.subprotocols {
                Some(s) => s,
                None => {
                    return Err(
                        SignalingError::InvalidMessage(
                            String::from_str("client-auth message needs `subprotocols`"),
                        ),
                    );
                },
            };
            let p = match f.ping_interval {
                Some(p) => p,
                None => {
                    return Err(
                        SignalingError::InvalidMessage(
                            String::from_str("client-auth message needs `ping_interval`"),
                        ),
                    );
                },
            };
            let yk = match &f.your_key {
                Some(k) if k.len() == 32 => {
                    let pk = PublicKey::new(array_from_vec::<32>(k, 0));
                    proof {
                        assert(pk@ =~= k@);
                    }
                    Some(pk)
                },
                Some(_) => {
                    return Err(
                        SignalingError::InvalidMessage(
                            String::from_str("client-auth `your_key` must hold 32 bytes"),
                        ),
                    );
                },
                None => None,
            };
            let cookie = Cookie::new(array_from_vec::<16>(c, 0));
            proof {
                assert(cookie@ =~= c@);
            }
            Ok(
                Message::ClientAuth(
                    ClientAuth {
                        your_cookie: cookie,
                        subprotocols: subs,
                        ping_interval: p,
                        your_key: yk,
                    },
                ),
            )
        } else if vec_eq(t, &tt_server_auth()) {
            let c = match &f.your_cookie {
                Some(c) if c.len() == 16 => c,
                _ => {
                    return Err(
                        SignalingError::InvalidMessage(
                            String::from_str("server-auth message needs a 16-byte `your_cookie`"),
                        ),
                    );
                },
            };
            let cookie = Cookie::new(array_from_vec::<16>(c, 0));
            proof {
                assert(cookie@ =~= c@);
            }
            let responders = match &f.responders {
                Some(rs) => Some(addrs_of_bytes(rs)),
                None => None,
            };
            Ok(
                Message::ServerAuth(
                    ServerAuth {
                        your_cookie: cookie,
                        signed_keys: f.signed_keys,
                        responders,
                        initiator_connected: f.initiator_connected,
                    },
                ),
            )
        } else if vec_eq(t, &tt_new_responder()) {
            match f.id {
                Some(v) if v <= 0xff => Ok(
                    Message::NewResponder(NewResponder { id: Address(v as u8) }),
                ),
                _ => Err(
                    SignalingError::InvalidMessage(
                        String::from_str("new-responder message needs a one-byte `id`"),
                    ),
                ),
            }
        } else if vec_eq(t, &tt_drop_responder()) {
            match f.id {
                Some(v) if v <= 0xff => Ok(
                    Message::DropResponder(
                        DropResponder { id: Address(v as u8), reason: f.reason },
                    ),
                ),
                _ => Err(
                    SignalingError::InvalidMessage(
                        String::from_str("drop-responder message needs a one-byte `id`"),
                    ),
                ),
            }
        } else if vec_eq(t, &tt_send_error()) {
            match f.id {
                Some(v) if v <= 0xff => Ok(Message::SendError(SendError { id: Address(v as u8) })),
                _ => Err(
                    SignalingError::InvalidMessage(
                        String::from_str("send-error message needs a one-byte `id`"),
                    ),
                ),
            }
        } else if vec_eq(t, &tt_token()) {
            match &f.key {
                Some(k) if k.len() == 32 => {
                    let pk = PublicKey::new(array_from_vec::<32>(k, 0));
                    proof {
                        assert(pk@ =~= k@);
                    }
                    Ok(Message::Token(Token { key: pk }))
                },
                _ => Err(
                    SignalingError::InvalidMessage(
                        String::from_str("token message needs a 32-byte `key`"),
                    ),
                ),
            }
        } else if vec_eq(t, &kw_key()) {
            match &f.key {
                Some(k) if k.len() == 32 => {
                    let pk = PublicKey::new(array_from_vec::<32>(k, 0));
                    proof {
                        assert(pk@ =~= k@);
                    }
                    Ok(Message::Key(Key { key: pk }))
                },
                _ => Err(
                    SignalingError::InvalidMessage(
                        String::from_str("key message needs a 32-byte `key`"),
                    ),
                ),
            }
        } else {
            Err(SignalingError::Decode(String::from_str("unknown message type")))
        }
    }
}

// ---------------------------------------------------------------------------
// The round-trip law: decoding undoes encoding for every well-formed
// message.
// ---------------------------------------------------------------------------
/// A two-entry message (`type` and one binary `key` field) round-trips.
#[verifier::rlimit(100)]
proof fn lemma_rt_keyed(tt: Seq<u8>, key: Seq<u8>, mv: MessageV)
    requires
        key.len() == 32,
        tt.len() <= 255,
        tt != spec_kw_type(),
        spec_field_count(mv) == 2,
        spec_encode(mv) == sp_enc_map_header(2) + (sp_entry_str(spec_kw_type(), tt) + sp_entry_bin(
            spec_kw_key(),
            key,
        )),
        spec_assemble(
            FieldsV {
                msg_type: Some(tt),
                key: Some(key),
                ..sp_fields_empty()
            },
        ) == DecodeOutcome::Msg(mv),
    ensures
        spec_decode(spec_encode(mv)) == DecodeOutcome::Msg(mv),
{
    let e2 = sp_entry_bin(spec_kw_key(), key);
    let body = sp_entry_str(spec_kw_type(), tt) + e2;
    lemma_inv_map_header(2, body);
    assert(body =~= sp_enc_str(spec_kw_type()) + (sp_enc_str(tt) + e2));
    lemma_inv_str(spec_kw_type(), sp_enc_str(tt) + e2);
    lemma_inv_str(tt, e2);
    let f0 = sp_fields_empty();
    let f1 = FieldsV { msg_type: Some(tt), ..f0 };
    assert(sp_fields(body, 2, f0) == sp_fields(e2, 1, f1));
    let empty = Seq::<u8>::empty();
    assert(e2 =~= sp_enc_str(spec_kw_key()) + (sp_enc_bin(key) + empty));
    lemma_inv_str(spec_kw_key(), sp_enc_bin(key) + empty);
    lemma_inv_bin(key, empty);
    assert(sp_enc_bin(key) + empty =~= sp_enc_bin(key));
    let f2 = FieldsV { key: Some(key), ..f1 };
    assert(sp_fields(e2, 1, f1) == sp_fields(empty, 0, f2));
    assert(sp_fields(empty, 0, f2) == Some((f2, empty)));
    assert(spec_decode(spec_encode(mv)) == spec_assemble(f2));
}

/// A two-entry message (`type` and one integer `id` field) round-trips.
#[verifier::rlimit(100)]
proof fn lemma_rt_addressed(tt: Seq<u8>, id: u8, mv: MessageV)
    requires
        tt.len() <= 255,
        tt != spec_kw_type(),
        spec_field_count(mv) == 2,
        spec_encode(mv) == sp_enc_map_header(2) + (sp_entry_str(spec_kw_type(), tt) + sp_entry_uint(
            spec_kw_id(),
            id as u32,
        )),
        spec_assemble(
            FieldsV {
                msg_type: Some(tt),
                id: Some(id as u32),
                ..sp_fields_empty()
            },
        ) == DecodeOutcome::Msg(mv),
    ensures
        spec_decode(spec_encode(mv)) == DecodeOutcome::Msg(mv),
{
    let e2 = sp_entry_uint(spec_kw_id(), id as u32);
    let body = sp_entry_str(spec_kw_type(), tt) + e2;
    lemma_inv_map_header(2, body);
    assert(body =~= sp_enc_str(spec_kw_type()) + (sp_enc_str(tt) + e2));
    lemma_inv_str(spec_kw_type(), sp_enc_str(tt) + e2);
    lemma_inv_str(tt, e2);
    let f0 = sp_fields_empty();
    let f1 = FieldsV { msg_type: Some(tt), ..f0 };
    assert(sp_fields(body, 2, f0) == sp_fields(e2, 1, f1));
    let empty = Seq::<u8>::empty();
    assert(e2 =~= sp_enc_str(spec_kw_id()) + (sp_enc_uint(id as u32) + empty));
    lemma_inv_str(spec_kw_id(), sp_enc_uint(id as u32) + empty);
    lemma_inv_uint(id as u32, empty);
    assert(sp_enc_uint(id as u32) + empty =~= sp_enc_uint(id as u32));
    let f2 = FieldsV { id: Some(id as u32), ..f1 };
    assert(sp_fields(e2, 1, f1) == sp_fields(empty, 0, f2));
    assert(sp_fields(empty, 0, f2) == Some((f2, empty)));
    assert(spec_decode(spec_encode(mv)) == spec_assemble(f2));
}

/// The optional tail entry of a `client-auth` message.
pub open spec fn ca_t4(your_key: Option<Seq<u8>>) -> Seq<u8> {
    match your_key {
        Some(k) => sp_entry_bin(spec_kw_your_key(), k),
        None => Seq::empty(),
    }
}

/// How many entries an option contributes.
pub open spec fn opt1<A>(x: Option<A>) -> int {
    if x is Some {
        1
    } else {
        0
    }
}

/// Fields holding only a `type` discriminator.
pub open spec fn fv_type(t: Seq<u8>) -> FieldsV {
    FieldsV { msg_type: Some(t), ..sp_fields_empty() }
}

/// A step lemma: consuming one string-keyed binary entry.
#[verifier::rlimit(100)]
proof fn lemma_step_your_cookie(c: Seq<u8>, x: Seq<u8>, m: nat, f: FieldsV)
    requires
        c.len() <= 255,
    ensures
        sp_fields(sp_entry_bin(spec_kw_your_cookie(), c) + x, m + 1, f) == sp_fields(
            x,
            m,
            FieldsV { your_cookie: Some(c), ..f },
        ),
{
    let t = sp_entry_bin(spec_kw_your_cookie(), c) + x;
    assert(t =~= sp_enc_str(spec_kw_your_cookie()) + (sp_enc_bin(c) + x));
    lemma_inv_str(spec_kw_your_cookie(), sp_enc_bin(c) + x);
    lemma_inv_bin(c, x);
}

/// A step lemma: consuming the `type` entry.
#[verifier::rlimit(100)]
proof fn lemma_step_type(tt: Seq<u8>, x: Seq<u8>, m: nat, f: FieldsV)
    requires
        tt.len() <= 255,
    ensures
        sp_fields(sp_entry_str(spec_kw_type(), tt) + x, m + 1, f) == sp_fields(
            x,
            m,
            FieldsV { msg_type: Some(tt), ..f },
        ),
{
    let t = sp_entry_str(spec_kw_type(), tt) + x;
    assert(t =~= sp_enc_str(spec_kw_type()) + (sp_enc_str(tt) + x));
    lemma_inv_str(spec_kw_type(), sp_enc_str(tt) + x);
    lemma_inv_str(tt, x);
}

/// A step lemma: consuming the `subprotocols` entry.
#[verifier::rlimit(100)]
proof fn lemma_step_subprotocols(subs: Seq<Seq<u8>>, x: Seq<u8>, m: nat, f: FieldsV)
    requires
        subs.len() <= 0xffff,
        forall|j: int| 0 <= j < subs.len() ==> #[trigger] subs[j].len() <= 255,
    ensures
        sp_fields((sp_enc_str(spec_kw_subprotocols()) + sp_enc_str_array(subs)) + x, m + 1, f)
            == sp_fields(x, m, FieldsV { subprotocols: Some(subs), ..f }),
{
    let t = (sp_enc_str(spec_kw_subprotocols()) + sp_enc_str_array(subs)) + x;
    let arr = sp_enc_array_header(subs.len() as int) + sp_enc_strs_from(subs, 0);
    assert(t =~= sp_enc_str(spec_kw_subprotocols()) + (arr + x));
    lemma_inv_str(spec_kw_subprotocols(), arr + x);
    assert(arr + x =~= sp_enc_array_header(subs.len() as int) + (sp_enc_strs_from(subs, 0) + x));
    lemma_inv_array_header(subs.len() as int, sp_enc_strs_from(subs, 0) + x);
    lemma_inv_str_list(subs, 0, x);
    assert(subs.skip(0) =~= subs);
}

/// A step lemma: consuming the `ping_interval` entry.
#[verifier::rlimit(100)]
proof fn lemma_step_ping_interval(p: u32, x: Seq<u8>, m: nat, f: FieldsV)
    ensures
        sp_fields(sp_entry_uint(spec_kw_ping_interval(), p) + x, m + 1, f) == sp_fields(
            x,
            m,
            FieldsV { ping_interval: Some(p), ..f },
        ),
{
    let t = sp_entry_uint(spec_kw_ping_interval(), p) + x;
    assert(t =~= sp_enc_str(spec_kw_ping_interval()) + (sp_enc_uint(p) + x));
    lemma_inv_str(spec_kw_ping_interval(), sp_enc_uint(p) + x);
    lemma_inv_uint(p, x);
}

/// A step lemma: consuming the optional `your_key` entry and finishing.
#[verifier::rlimit(100)]
proof fn lemma_step_your_key_last(yk: Option<Seq<u8>>, f: FieldsV)
    requires
        f.your_key is None,
        yk matches Some(k) ==> k.len() <= 255,
    ensures
        sp_fields(ca_t4(yk), opt1(yk) as nat, f) == Some(
            (FieldsV { your_key: yk, ..f }, Seq::<u8>::empty()),
        ),
{
    let empty = Seq::<u8>::empty();
    match yk {
        None => {
            assert(ca_t4(yk) =~= empty);
            assert(FieldsV { your_key: yk, ..f } == f);
        },
        Some(k) => {
            assert(ca_t4(yk) =~= sp_enc_str(spec_kw_your_key()) + (sp_enc_bin(k) + empty));
            lemma_inv_str(spec_kw_your_key(), sp_enc_bin(k) + empty);
            lemma_inv_bin(k, empty);
            assert(sp_enc_bin(k) + empty =~= sp_enc_bin(k));
            let f2 = FieldsV { your_key: yk, ..f };
            assert(sp_fields(ca_t4(yk), 1, f) == sp_fields(empty, 0, f2));
        },
    }
}

/// A `client-auth` message round-trips.
#[verifier::rlimit(100)]
proof fn lemma_rt_client_auth(your_cookie: Seq<u8>, subprotocols: Seq<Seq<u8>>,
    ping_interval: u32, your_key: Option<Seq<u8>>)
    requires
        wf_msg(
            MessageV::ClientAuth { your_cookie, subprotocols, ping_interval, your_key },
        ),
    ensures
        spec_decode(
            spec_encode(MessageV::ClientAuth { your_cookie, subprotocols, ping_interval, your_key }),
        ) == DecodeOutcome::Msg(
            MessageV::ClientAuth { your_cookie, subprotocols, ping_interval, your_key },
        ),
{
    let mv = MessageV::ClientAuth { your_cookie, subprotocols, ping_interval, your_key };
    let n = spec_field_count(mv);
    let et = sp_entry_str(spec_kw_type(), spec_tt_client_auth());
    let ec = sp_entry_bin(spec_kw_your_cookie(), your_cookie);
    let es = sp_enc_str(spec_kw_subprotocols()) + sp_enc_str_array(subprotocols);
    let ep = sp_entry_uint(spec_kw_ping_interval(), ping_interval);
    let ek = ca_t4(your_key);
    let body = et + ec + es + ep + ek;
    assert(spec_encode(mv) == sp_enc_map_header(n) + body);
    lemma_inv_map_header(n, body);
    let f0 = sp_fields_empty();
    let t1 = ec + (es + (ep + ek));
    assert(body =~= et + t1);
    lemma_step_type(spec_tt_client_auth(), t1, (n - 1) as nat, f0);
    let f1 = FieldsV { msg_type: Some(spec_tt_client_auth()), ..f0 };
    let t2 = es + (ep + ek);
    assert(t1 =~= ec + t2);
    lemma_step_your_cookie(your_cookie, t2, (n - 2) as nat, f1);
    let f2 = FieldsV { your_cookie: Some(your_cookie), ..f1 };
    let t3 = ep + ek;
    assert(t2 =~= es + t3);
    lemma_step_subprotocols(subprotocols, t3, (n - 3) as nat, f2);
    let f3 = FieldsV { subprotocols: Some(subprotocols), ..f2 };
    assert(t3 =~= ep + ek);
    lemma_step_ping_interval(ping_interval, ek, (n - 4) as nat, f3);
    let f4 = FieldsV { ping_interval: Some(ping_interval), ..f3 };
    lemma_step_your_key_last(your_key, f4);
    let f5 = FieldsV { your_key, ..f4 };
    assert(sp_fields(body, n as nat, f0) == Some((f5, Seq::<u8>::empty())));
    assert(spec_assemble(f5) == DecodeOutcome::Msg(mv));
    assert(spec_decode(spec_encode(mv)) == spec_assemble(f5));
}

/// The optional `signed_keys` segment of a `server-auth` message.
pub open spec fn sa_e3(signed_keys: Option<Seq<u8>>) -> Seq<u8> {
    match signed_keys {
        Some(s) => sp_entry_bin(spec_kw_signed_keys(), s),
        None => Seq::empty(),
    }
}

/// The optional `responders` segment of a `server-auth` message.
pub open spec fn sa_e4(responders: Option<Seq<u8>>) -> Seq<u8> {
    match responders {
        Some(rs) => sp_enc_str(spec_kw_responders()) + sp_enc_u8_array(rs),
        None => Seq::empty(),
    }
}

/// The optional `initiator_connected` segment of a `server-auth` message.
pub open spec fn sa_e5(initiator_connected: Option<bool>) -> Seq<u8> {
    match initiator_connected {
        Some(c) => sp_entry_bool(spec_kw_initiator_connected(), c),
        None => Seq::empty(),
    }
}

/// A step lemma: consuming the optional `signed_keys` entry.
#[verifier::rlimit(100)]
proof fn lemma_step_signed_keys(sk: Option<Seq<u8>>, x: Seq<u8>, m: nat, f: FieldsV)
    requires
        f.signed_keys is None,
        sk matches Some(s) ==> s.len() <= 255,
    ensures
        sp_fields(sa_e3(sk) + x, (m + opt1(sk)) as nat, f) == sp_fields(
            x,
            m,
            FieldsV { signed_keys: sk, ..f },
        ),
{
    match sk {
        None => {
            assert(sa_e3(sk) + x =~= x);
            assert(FieldsV { signed_keys: sk, ..f } == f);
        },
        Some(s) => {
            assert(sa_e3(sk) + x =~= sp_enc_str(spec_kw_signed_keys()) + (sp_enc_bin(s) + x));
            lemma_inv_str(spec_kw_signed_keys(), sp_enc_bin(s) + x);
            lemma_inv_bin(s, x);
            assert(spec_kw_signed_keys()[0] == 0x73 && spec_kw_your_cookie()[0] == 0x79);
            assert(spec_kw_signed_keys() != spec_kw_your_cookie());
        },
    }
}

/// A step lemma: consuming the optional `responders` entry.
#[verifier::rlimit(100)]
proof fn lemma_step_responders(rs: Option<Seq<u8>>, x: Seq<u8>, m: nat, f: FieldsV)
    requires
        f.responders is None,
        rs matches Some(r) ==> r.len() <= 0xffff,
    ensures
        sp_fields(sa_e4(rs) + x, (m + opt1(rs)) as nat, f) == sp_fields(
            x,
            m,
            FieldsV { responders: rs, ..f },
        ),
{
    match rs {
        None => {
            assert(sa_e4(rs) + x =~= x);
            assert(FieldsV { responders: rs, ..f } == f);
        },
        Some(r) => {
            let arr = sp_enc_array_header(r.len() as int) + sp_enc_uints_from(r, 0);
            assert(sa_e4(rs) + x =~= sp_enc_str(spec_kw_responders()) + (arr + x));
            lemma_inv_str(spec_kw_responders(), arr + x);
            assert(arr + x =~= sp_enc_array_header(r.len() as int) + (sp_enc_uints_from(r, 0) + x));
            lemma_inv_array_header(r.len() as int, sp_enc_uints_from(r, 0) + x);
            lemma_inv_u8_list(r, 0, x);
            assert(r.skip(0) =~= r);
        },
    }
}

/// A step lemma: consuming the optional `initiator_connected` entry and
/// finishing.
#[verifier::rlimit(100)]
proof fn lemma_step_initiator_connected_last(ic: Option<bool>, f: FieldsV)
    requires
        f.initiator_connected is None,
    ensures
        sp_fields(sa_e5(ic), opt1(ic) as nat, f) == Some(
            (FieldsV { initiator_connected: ic, ..f }, Seq::<u8>::empty()),
        ),
{
    let empty = Seq::<u8>::empty();
    match ic {
        None => {
            assert(sa_e5(ic) =~= empty);
            assert(FieldsV { initiator_connected: ic, ..f } == f);
        },
        Some(c) => {
            assert(sa_e5(ic) =~= sp_enc_str(spec_kw_initiator_connected()) + (sp_enc_bool(c)
                + empty));
            lemma_inv_str(spec_kw_initiator_connected(), sp_enc_bool(c) + empty);
            lemma_inv_bool(c, empty);
            assert(sp_enc_bool(c) + empty =~= sp_enc_bool(c));
            let f2 = FieldsV { initiator_connected: ic, ..f };
            assert(sp_fields(sa_e5(ic), 1, f) == sp_fields(empty, 0, f2));
        },
    }
}

/// A `server-auth` message round-trips.
#[verifier::rlimit(100)]
proof fn lemma_rt_server_auth(your_cookie: Seq<u8>, signed_keys: Option<Seq<u8>>,
    responders: Option<Seq<u8>>, initiator_connected: Option<bool>)
    requires
        wf_msg(
            MessageV::ServerAuth { your_cookie, signed_keys, responders, initiator_connected },
        ),
    ensures
        spec_decode(
            spec_encode(
                MessageV::ServerAuth { your_cookie, signed_keys, responders, initiator_connected },
            ),
        ) == DecodeOutcome::Msg(
            MessageV::ServerAuth { your_cookie, signed_keys, responders, initiator_connected },
        ),
{
    let mv = MessageV::ServerAuth { your_cookie, signed_keys, responders, initiator_connected };
    let empty = Seq::<u8>::empty();
    let n = spec_field_count(mv);
    let et = sp_entry_str(spec_kw_type(), spec_tt_server_auth());
    let ec = sp_entry_bin(spec_kw_your_cookie(), your_cookie);
    let ek = sa_e3(signed_keys);
    let er = sa_e4(responders);
    let ei = sa_e5(initiator_connected);
    let body = et + ec + ek + er + ei;
    assert(spec_encode(mv) == sp_enc_map_header(n) + body);
    lemma_inv_map_header(n, body);
    let f0 = sp_fields_empty();
    let t1 = ec + (ek + (er + ei));
    assert(body =~= et + t1);
    lemma_step_type(spec_tt_server_auth(), t1, (n - 1) as nat, f0);
    let f1 = FieldsV { msg_type: Some(spec_tt_server_auth()), ..f0 };
    let t2 = ek + (er + ei);
    assert(t1 =~= ec + t2);
    lemma_step_your_cookie(your_cookie, t2, (n - 2) as nat, f1);
    let f2 = FieldsV { your_cookie: Some(your_cookie), ..f1 };
    let t3 = er + ei;
    assert(t2 =~= ek + t3);
    let m3: nat = (opt1(responders) + opt1(initiator_connected)) as nat;
    lemma_step_signed_keys(signed_keys, t3, m3, f2);
    let f3 = FieldsV { signed_keys, ..f2 };
    assert(t3 =~= er + ei);
    lemma_step_responders(responders, ei, opt1(initiator_connected) as nat, f3);
    let f4 = FieldsV { responders, ..f3 };
    lemma_step_initiator_connected_last(initiator_connected, f4);
    let f5 = FieldsV { initiator_connected, ..f4 };
    assert(sp_fields(body, n as nat, f0) == Some((f5, empty)));
    assert(spec_tt_server_auth()[0] == 0x73 && spec_tt_client_auth()[0] == 0x63);
    assert(spec_tt_server_auth() != spec_tt_client_auth());
    assert(spec_assemble(f5) == DecodeOutcome::Msg(mv));
    assert(spec_decode(spec_encode(mv)) == spec_assemble(f5));
}

/// A step lemma: consuming the `id` entry.
#[verifier::rlimit(100)]
proof fn lemma_step_id(id: u8, x: Seq<u8>, m: nat, f: FieldsV)
    ensures
        sp_fields(sp_entry_uint(spec_kw_id(), id as u32) + x, m + 1, f) == sp_fields(
            x,
            m,
            FieldsV { id: Some(id as u32), ..f },
        ),
{
    let t = sp_entry_uint(spec_kw_id(), id as u32) + x;
    assert(t =~= sp_enc_str(spec_kw_id()) + (sp_enc_uint(id as u32) + x));
    lemma_inv_str(spec_kw_id(), sp_enc_uint(id as u32) + x);
    lemma_inv_uint(id as u32, x);
}

/// The optional `reason` segment of a `drop-responder` message.
pub open spec fn dr_e3(reason: Option<u32>) -> Seq<u8> {
    match reason {
        Some(c) => sp_entry_uint(spec_kw_reason(), c),
        None => Seq::empty(),
    }
}

/// A step lemma: consuming the optional `reason` entry and finishing.
#[verifier::rlimit(100)]
proof fn lemma_step_reason_last(reason: Option<u32>, f: FieldsV)
    requires
        f.reason is None,
    ensures
        sp_fields(dr_e3(reason), opt1(reason) as nat, f) == Some(
            (FieldsV { reason, ..f }, Seq::<u8>::empty()),
        ),
{
    let empty = Seq::<u8>::empty();
    match reason {
        None => {
            assert(dr_e3(reason) =~= empty);
            assert(FieldsV { reason, ..f } == f);
        },
        Some(c) => {
            assert(dr_e3(reason) =~= sp_enc_str(spec_kw_reason()) + (sp_enc_uint(c) + empty));
            lemma_inv_str(spec_kw_reason(), sp_enc_uint(c) + empty);
            lemma_inv_uint(c, empty);
            assert(sp_enc_uint(c) + empty =~= sp_enc_uint(c));
            let f2 = FieldsV { reason, ..f };
            assert(sp_fields(dr_e3(reason), 1, f) == sp_fields(empty, 0, f2));
        },
    }
}

/// A `drop-responder` message round-trips.
#[verifier::rlimit(100)]
proof fn lemma_rt_drop_responder(id: u8, reason: Option<u32>)
    ensures
        spec_decode(spec_encode(MessageV::DropResponder { id, reason })) == DecodeOutcome::Msg(
            MessageV::DropResponder { id, reason },
        ),
{
    let mv = MessageV::DropResponder { id, reason };
    let empty = Seq::<u8>::empty();
    let n = spec_field_count(mv);
    let et = sp_entry_str(spec_kw_type(), spec_tt_drop_responder());
    let ei = sp_entry_uint(spec_kw_id(), id as u32);
    let er = dr_e3(reason);
    let body = et + ei + er;
    assert(spec_encode(mv) == sp_enc_map_header(n) + body);
    lemma_inv_map_header(n, body);
    let f0 = sp_fields_empty();
    let t1 = ei + er;
    assert(body =~= et + t1);
    lemma_step_type(spec_tt_drop_responder(), t1, (n - 1) as nat, f0);
    let f1 = FieldsV { msg_type: Some(spec_tt_drop_responder()), ..f0 };
    assert(t1 =~= ei + er);
    lemma_step_id(id, er, (n - 2) as nat, f1);
    let f2 = FieldsV { id: Some(id as u32), ..f1 };
    lemma_step_reason_last(reason, f2);
    let f3 = FieldsV { reason, ..f2 };
    assert(sp_fields(body, n as nat, f0) == Some((f3, empty)));
    assert(spec_assemble(f3) == DecodeOutcome::Msg(mv));
    assert(spec_decode(spec_encode(mv)) == spec_assemble(f3));
}

/// Decoding undoes encoding: every well-formed message comes back from its
/// own wire bytes unchanged.
pub proof fn lemma_codec_roundtrip(mv: MessageV)
    requires
        wf_msg(mv),
    ensures
        spec_decode(spec_encode(mv)) == DecodeOutcome::Msg(mv),
{
    match mv {
        MessageV::ServerHello { key } => {
            lemma_rt_keyed(spec_tt_server_hello(), key, mv);
        },
        MessageV::ClientHello { key } => {
            assert(spec_tt_client_hello()[0] == 0x63 && spec_tt_server_hello()[0] == 0x73);
            lemma_rt_keyed(spec_tt_client_hello(), key, mv);
        },
        MessageV::ClientAuth { your_cookie, subprotocols, ping_interval, your_key } => {
            lemma_rt_client_auth(your_cookie, subprotocols, ping_interval, your_key);
        },
        MessageV::ServerAuth { your_cookie, signed_keys, responders, initiator_connected } => {
            lemma_rt_server_auth(your_cookie, signed_keys, responders, initiator_connected);
        },
        MessageV::NewResponder { id } => {
            lemma_rt_addressed(spec_tt_new_responder(), id, mv);
        },
        MessageV::DropResponder { id, reason } => {
            lemma_rt_drop_responder(id, reason);
        },
        MessageV::SendError { id } => {
            lemma_rt_addressed(spec_tt_send_error(), id, mv);
        },
        MessageV::Token { key } => {
            lemma_rt_keyed(spec_tt_token(), key, mv);
        },
        MessageV::Key { key } => {
            lemma_rt_keyed(spec_kw_key(), key, mv);
        },
    }
}

/// The bytes of a public key, as a fresh vector.
fn key_bytes_vec(k: &PublicKey) -> (r: Vec<u8>)
    ensures
        r@ == k@,
{
    let mut v: Vec<u8> = Vec::new();
    push_array::<32>(&mut v, k.as_bytes());
    proof {
        assert(v@ =~= k@);
    }
    v
}

/// The bytes of a cookie, as a fresh vector.
fn cookie_bytes_vec(c: &Cookie) -> (r: Vec<u8>)
    ensures
        r@ == c@,
{
    let mut v: Vec<u8> = Vec::new();
    push_array::<16>(&mut v, c.as_bytes());
    proof {
        assert(v@ =~= c@);
    }
    v
}

} // verus!
