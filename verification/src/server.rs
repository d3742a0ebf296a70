//! The node: a store, a mirror of the connected peers, and the decisions of the
//! consume loop, of dispatch and of publishing.

use vstd::prelude::*;
use vstd::string::*;
use vstd::utf8::*;
use crate::store::{takes_keys, pure_transform, Store, StoreError, StoreModel, StoreOpts, KEY_LEN_LIMIT};
use crate::transport::encoding::{frame, lemma_frame_round_trip, unframe, FrameError};
use crate::transport::message::{Message, PeerAddr};
use crate::transport::queue::Consumed;
use crate::transport::registry::PeerRegistry;
use crate::wire::{
    decode_message_data, decode_payload, encode_message_data, encode_payload,
    lemma_message_data_round_trip, lemma_payload_round_trip, DecodeError, MessageData,
    MessageDataView, MessageType, Payload, PayloadView,
};

verus! {

/// How a node is set up.
pub struct FileServerOpts<F> {
    /// The store's root directory and transform.
    pub store_opts: StoreOpts<F>,
    /// The address on which the node's transport listens.
    pub listen_addr: String,
    /// The peers to dial at start.
    pub bootstrap_node: Vec<PeerAddr>,
}

/// Why a message was dropped.
#[derive(Clone, Copy, Debug, PartialEq, Eq, Structural)]
pub enum DropReason {
    /// The payload is no envelope.
    Envelope(DecodeError),
    /// The envelope's body is no store request.
    Body(DecodeError),
    /// The key is longer than a store takes.
    KeyTooLong,
}

/// What became of a message.
#[derive(Debug)]
pub enum Dispatch {
    /// Its blob was written to the store under `key`.
    Stored { key: String },
    /// It was dropped; the store is as it was.
    Dropped(DropReason),
}

/// `outcome` is what handling a message with `payload` reports.
pub open spec fn reports(payload: Seq<u8>, outcome: Dispatch) -> bool {
    match outcome {
        Dispatch::Stored { key } => request_in(payload) is Ok && request_in(payload)->Ok_0.key
            == key@,
        Dispatch::Dropped(reason) => request_in(payload) == Err::<MessageDataView, DropReason>(
            reason,
        ),
    }
}

/// Whether the consume loop goes on.
#[derive(Clone, Copy, Debug, PartialEq, Eq, Structural)]
pub enum RunStep {
    Continue,
    Exit,
}

/// The node. `F` is the store's transform, `P` the handle of a peer.
pub struct FileServer<F, P> {
    store: Store<F>,
    listen_addr: String,
    bootstrap_node: Vec<PeerAddr>,
    peers: PeerRegistry<P>,
    shutdown: bool,
}

/// The store request that a payload carries, or why the payload is dropped.
pub open spec fn request_in(payload: Seq<u8>) -> Result<MessageDataView, DropReason> {
    match decode_payload(payload) {
        Err(e) => Err(DropReason::Envelope(e)),
        Ok(envelope) => match envelope.msg_type {
            MessageType::Store => match decode_message_data(envelope.msg) {
                Err(e) => Err(DropReason::Body(e)),
                Ok(request) => if encode_utf8(request.key).len() > KEY_LEN_LIMIT {
                    Err(DropReason::KeyTooLong)
                } else {
                    Ok(request)
                },
            },
        },
    }
}

/// The bytes that a node listening on `from` broadcasts to publish `data` under `key`.
pub open spec fn published(from: Seq<char>, key: Seq<char>, data: Seq<u8>) -> Seq<u8> {
    encode_payload(
        PayloadView {
            from,
            msg_type: MessageType::Store,
            msg: encode_message_data(MessageDataView { key, data }),
        },
    )
}

impl<F: Fn(String) -> String, P> FileServer<F, P> {
    /// The node is valid: its store and its mirror are, and the transform takes every key.
    pub closed spec fn wf(&self) -> bool {
        &&& self.store.wf()
        &&& self.peers.wf()
        &&& forall|k: String|
            encode_utf8(k@).len() <= KEY_LEN_LIMIT ==> #[trigger] self.store.accepts(k)
    }

    /// What the store holds.
    pub closed spec fn blobs(&self) -> StoreModel {
        self.store@
    }

    /// The relative path at which the store keeps `key`.
    pub closed spec fn path_of(&self, key: Seq<char>) -> Seq<char> {
        self.store.path_of(key)
    }

    /// The mirror of the connected peers.
    pub closed spec fn mirror(&self) -> Map<PeerAddr, P> {
        self.peers@
    }

    /// The address on which the node listens.
    pub closed spec fn listen_addr(&self) -> Seq<char> {
        self.listen_addr@
    }

    /// The peers to dial at start.
    pub closed spec fn bootstrap(&self) -> Seq<PeerAddr> {
        self.bootstrap_node@
    }

    /// Whether shutdown was asked for.
    pub closed spec fn stopping(&self) -> bool {
        self.shutdown
    }

    /// The store's root directory.
    pub closed spec fn root_dir(&self) -> Seq<char> {
        self.store.root_dir()
    }

    /// The node is set up as `other` is: same listen address, bootstrap peers, root
    /// directory and paths of keys.
    pub open spec fn same_setup(&self, other: &Self) -> bool {
        &&& self.listen_addr() == other.listen_addr()
        &&& self.bootstrap() == other.bootstrap()
        &&& self.root_dir() == other.root_dir()
        &&& forall|k: Seq<char>| #[trigger] self.path_of(k) == other.path_of(k)
    }

    /// A node with an empty store, no peers, and no shutdown asked for.
    pub fn new(opts: FileServerOpts<F>) -> (server: FileServer<F, P>)
        requires
            pure_transform(opts.store_opts.filename_transform),
            takes_keys(opts.store_opts.filename_transform),
        ensures
            server.wf(),
            server.blobs() == StoreModel::fresh(),
            server.mirror() == Map::<PeerAddr, P>::empty(),
            server.listen_addr() == opts.listen_addr@,
            server.bootstrap() == opts.bootstrap_node@,
            server.root_dir() == opts.store_opts.root_dir@,
            !server.stopping(),
            forall|key: Seq<char>| #[trigger]
                server.path_of(key) == crate::store::transformed(
                    opts.store_opts.filename_transform,
                    key,
                ),
    {
        let store = Store::new(opts.store_opts);
        FileServer {
            store,
            listen_addr: opts.listen_addr,
            bootstrap_node: opts.bootstrap_node,
            peers: PeerRegistry::new(),
            shutdown: false,
        }
    }

    /// The store.
    pub fn store(&self) -> (store: &Store<F>)
        requires
            self.wf(),
        ensures
            store.wf(),
            store@ == self.blobs(),
            store.root_dir() == self.root_dir(),
            forall|k: Seq<char>| #[trigger] store.path_of(k) == self.path_of(k),
            forall|k: String|
                encode_utf8(k@).len() <= KEY_LEN_LIMIT ==> #[trigger] store.accepts(k),
    {
        &self.store
    }

    /// The mirror of the connected peers, for a broadcast to walk.
    pub fn peers(&self) -> (peers: &PeerRegistry<P>)
        requires
            self.wf(),
        ensures
            peers.wf(),
            peers@ == self.mirror(),
    {
        &self.peers
    }

    /// The peers to dial at start, each on its own; a dial that fails holds nothing up.
    pub fn bootstrap_network(&self) -> (nodes: &Vec<PeerAddr>)
        ensures
            nodes@ == self.bootstrap(),
    {
        &self.bootstrap_node
    }

    /// The admission callback: takes note of a peer that the transport has connected and
    /// admits it. A peer noted under the same address before is replaced.
    pub fn on_peer(&mut self, addr: PeerAddr, peer: P) -> (admitted: bool)
        requires
            old(self).wf(),
        ensures
            admitted,
            final(self).wf(),
            final(self).mirror() == old(self).mirror().insert(addr, peer),
            final(self).blobs() == old(self).blobs(),
            final(self).stopping() == old(self).stopping(),
            final(self).same_setup(old(self)),
    {
        let _ = self.peers.insert(addr, peer);
        true
    }

    /// Forgets the peer at `addr`, whose reader has ended, and hands its handle back.
    pub fn on_peer_gone(&mut self, addr: PeerAddr) -> (gone: Option<P>)
        requires
            old(self).wf(),
        ensures
            final(self).wf(),
            final(self).mirror() == old(self).mirror().remove(addr),
            gone == (if old(self).mirror().contains_key(addr) {
                Some(old(self).mirror()[addr])
            } else {
                None
            }),
            final(self).blobs() == old(self).blobs(),
            final(self).stopping() == old(self).stopping(),
            final(self).same_setup(old(self)),
    {
        self.peers.remove(addr)
    }

    /// Asks the consume loop to end. Asking again changes nothing.
    pub fn shutdown(&mut self)
        ensures
            final(self).stopping(),
            final(self).wf() == old(self).wf(),
            final(self).blobs() == old(self).blobs(),
            final(self).mirror() == old(self).mirror(),
            final(self).same_setup(old(self)),
    {
        self.shutdown = true;
    }

    /// Whether the consume loop ends before its next wait: it does once shutdown was
    /// asked for, and the transport is then closed.
    pub fn should_stop(&self) -> (stop: bool)
        ensures
            stop == self.stopping(),
    {
        self.shutdown
    }

    /// One turn of the consume loop, on what the queue gave: a message is dispatched and
    /// the loop goes on, a timeout lets it go on, a closed queue ends it.
    pub fn run(&mut self, consumed: Consumed) -> (turn: (RunStep, Option<Dispatch>))
        requires
            old(self).wf(),
        ensures
            final(self).wf(),
            final(self).mirror() == old(self).mirror(),
            final(self).stopping() == old(self).stopping(),
            final(self).same_setup(old(self)),
            match consumed {
                Consumed::Message(msg) => {
                    &&& turn.0 == RunStep::Continue
                    &&& turn.1 is Some
                    &&& reports(msg@.payload, turn.1->Some_0)
                    &&& final(self).blobs() == old(self).after_message(msg@.payload)
                },
                Consumed::Timeout => {
                    &&& turn.0 == RunStep::Continue
                    &&& turn.1 is None
                    &&& final(self).blobs() == old(self).blobs()
                },
                Consumed::Closed => {
                    &&& turn.0 == RunStep::Exit
                    &&& turn.1 is None
                    &&& final(self).blobs() == old(self).blobs()
                },
            },
    {
        match consumed {
            Consumed::Message(msg) => {
                let outcome = self.handle_message(&msg);
                (RunStep::Continue, Some(outcome))
            },
            Consumed::Timeout => (RunStep::Continue, None),
            Consumed::Closed => (RunStep::Exit, None),
        }
    }

    /// What the store holds once a message with `payload` was handled.
    pub open spec fn after_message(&self, payload: Seq<u8>) -> StoreModel {
        match request_in(payload) {
            Ok(request) => self.blobs().write(self.path_of(request.key), request.data),
            Err(_) => self.blobs(),
        }
    }

    /// Dispatches one message: a store request is written to the store under its key;
    /// anything else is dropped, with the reason.
    pub fn handle_message(&mut self, msg: &Message) -> (outcome: Dispatch)
        requires
            old(self).wf(),
        ensures
            final(self).wf(),
            final(self).blobs() == old(self).after_message(msg@.payload),
            reports(msg@.payload, outcome),
            final(self).mirror() == old(self).mirror(),
            final(self).stopping() == old(self).stopping(),
            final(self).same_setup(old(self)),
    {
        let payload = vstd::slice::slice_to_vec(msg.payload.as_slice());
        let envelope = match Payload::from_buffer(payload) {
            Ok(p) => p,
            Err(e) => {
                return Dispatch::Dropped(DropReason::Envelope(e));
            },
        };
        match envelope.msg_type {
            MessageType::Store => {
                let request = match MessageData::from_buffer(envelope.msg) {
                    Ok(d) => d,
                    Err(e) => {
                        return Dispatch::Dropped(DropReason::Body(e));
                    },
                };
                if request.key.as_str().as_bytes().len() as u64 > KEY_LEN_LIMIT {
                    return Dispatch::Dropped(DropReason::KeyTooLong);
                }
                let key = request.key.clone();
                let _ = self.store.write(request.key, request.data.as_slice());
                Dispatch::Stored { key }
            },
        }
    }

    /// Publishes a blob: writes it to the store under `key` and hands back the envelope to
    /// send to every peer of the mirror. The envelope names this node's listen address
    /// as its origin.
    pub fn store_data(&mut self, key: String, data: &[u8]) -> (r: Result<Vec<u8>, StoreError>)
        requires
            old(self).wf(),
            encode_utf8(key@).len() <= KEY_LEN_LIMIT,
        ensures
            final(self).wf(),
            final(self).blobs() == old(self).blobs().write(old(self).path_of(key@), data@),
            r is Ok,
            r->Ok_0@ == published(old(self).listen_addr(), key@, data@),
            final(self).mirror() == old(self).mirror(),
            final(self).stopping() == old(self).stopping(),
            final(self).same_setup(old(self)),
    {
        let blob = vstd::slice::slice_to_vec(data);
        match self.store.write(key.clone(), data) {
            Ok(_) => {
                let body = MessageData { key, data: blob };
                let payload = Payload {
                    from: self.listen_addr.clone(),
                    msg_type: MessageType::Store,
                    msg: body.to_buffer(),
                };
                Ok(payload.to_buffer())
            },
            Err(e) => Err(e),
        }
    }
}

/// What one node publishes, another stores: a node that handles the envelope of a
/// publication writes the published blob under the published key.
pub proof fn lemma_publication_is_stored(from: Seq<char>, key: Seq<char>, data: Seq<u8>)
    requires
        encode_utf8(from).len() <= u64::MAX,
        encode_utf8(key).len() <= KEY_LEN_LIMIT,
        data.len() <= u64::MAX,
        encode_message_data(MessageDataView { key, data }).len() <= u64::MAX,
    ensures
        request_in(published(from, key, data)) == Ok::<MessageDataView, DropReason>(
            MessageDataView { key, data },
        ),
{
    let request = MessageDataView { key, data };
    let envelope = PayloadView {
        from,
        msg_type: MessageType::Store,
        msg: encode_message_data(request),
    };
    lemma_payload_round_trip(envelope, Seq::empty());
    assert(encode_payload(envelope) + Seq::<u8>::empty() =~= encode_payload(envelope));
    lemma_message_data_round_trip(request, Seq::empty());
    assert(encode_message_data(request) + Seq::<u8>::empty() =~= encode_message_data(request));
}

/// An envelope survives the wire: framed, unframed and decoded, every envelope whose
/// bytes fit the frame bound comes out as it went in.
pub proof fn lemma_envelope_survives_wire(envelope: PayloadView, max_frame_len: u32)
    requires
        encode_payload(envelope).len() <= max_frame_len,
    ensures
        unframe(frame(encode_payload(envelope)), max_frame_len) == Ok::<
            (Seq<u8>, int),
            FrameError,
        >((encode_payload(envelope), 4 + encode_payload(envelope).len() as int)),
        decode_payload(encode_payload(envelope)) == Ok::<PayloadView, DecodeError>(envelope),
{
    let bytes = encode_payload(envelope);
    lemma_frame_round_trip(bytes, Seq::empty(), max_frame_len);
    assert(frame(bytes) + Seq::<u8>::empty() =~= frame(bytes));
    lemma_payload_round_trip(envelope, Seq::empty());
    assert(bytes + Seq::<u8>::empty() =~= bytes);
}

} // verus!
