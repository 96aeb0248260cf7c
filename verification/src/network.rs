//! The node: a ledger and a peer directory behind one address, and what the
//! node does with each request that reaches it. Sockets are not its
//! business: it takes a decoded request and says what to reply, and it
//! hands back the messages that are to be sent to peers.

use crate::block::Block;
use crate::block::BlockView;
use crate::blockchain::lemma_accepted_block_keeps_chain_valid;
use crate::blockchain::Blockchain;
use crate::blockchain::LedgerView;
use crate::blockchain::DIFFICULTY;
use crate::peers::with_peer;
use crate::peers::with_peers;
use crate::peers::PeerDirectory;
use crate::protocol::add_peer_message;
use crate::protocol::add_peer_prefix;
use crate::protocol::listed_peers;
use crate::protocol::new_transaction_message;
use crate::protocol::new_transaction_prefix;
use crate::protocol::parse_peer_list;
use crate::protocol::Command;
use crate::protocol::CommandView;
use crate::protocol::Response;
use crate::protocol::ResponseView;
use crate::text::string_views;
use crate::transaction::Transaction;
use crate::transaction::TransactionView;
use vstd::prelude::*;

verus! {

/// A request to a node, its payload decoded.
pub enum Request {
    NewTransaction(Transaction),
    GetBlockToMine,
    MinedBlock(Block),
    AddPeer(String),
    GetPeers,
    Unknown,
    /// A known command whose payload could not be decoded.
    Malformed,
}

/// What a request says, as mathematical values.
pub enum RequestView {
    NewTransaction(TransactionView),
    GetBlockToMine,
    MinedBlock(BlockView),
    AddPeer(Seq<char>),
    GetPeers,
    Unknown,
    Malformed,
}

impl View for Request {
    type V = RequestView;

    open spec fn view(&self) -> RequestView {
        match self {
            Request::NewTransaction(transaction) => RequestView::NewTransaction(transaction@),
            Request::GetBlockToMine => RequestView::GetBlockToMine,
            Request::MinedBlock(block) => RequestView::MinedBlock(block@),
            Request::AddPeer(address) => RequestView::AddPeer(address@),
            Request::GetPeers => RequestView::GetPeers,
            Request::Unknown => RequestView::Unknown,
            Request::Malformed => RequestView::Malformed,
        }
    }
}

/// The request that a command makes once its payload was decoded. A
/// transaction or a block whose payload did not decode is given as `None`,
/// and the request is then a malformed one; for the other commands the two
/// decoded values play no part.
pub fn to_request(
    command: Command,
    transaction: Option<Transaction>,
    block: Option<Block>,
) -> (request: Request)
    ensures
        request@ == match command@ {
            CommandView::NewTransaction(_) => match transaction {
                Some(decoded) => RequestView::NewTransaction(decoded@),
                None => RequestView::Malformed,
            },
            CommandView::MinedBlock(_) => match block {
                Some(decoded) => RequestView::MinedBlock(decoded@),
                None => RequestView::Malformed,
            },
            CommandView::GetBlockToMine => RequestView::GetBlockToMine,
            CommandView::AddPeer(address) => RequestView::AddPeer(address),
            CommandView::GetPeers => RequestView::GetPeers,
            CommandView::Unknown => RequestView::Unknown,
        },
{
    match command {
        Command::NewTransaction(_) => match transaction {
            Some(decoded) => Request::NewTransaction(decoded),
            None => Request::Malformed,
        },
        Command::MinedBlock(_) => match block {
            Some(decoded) => Request::MinedBlock(decoded),
            None => Request::Malformed,
        },
        Command::GetBlockToMine => Request::GetBlockToMine,
        Command::AddPeer(address) => Request::AddPeer(address),
        Command::GetPeers => Request::GetPeers,
        Command::Unknown => Request::Unknown,
    }
}

/// A message that is to be sent to a peer.
pub struct Outgoing {
    pub peer: String,
    pub message: String,
}

/// A message and where it goes, as mathematical values.
pub struct OutgoingView {
    pub peer: Seq<char>,
    pub message: Seq<char>,
}

impl View for Outgoing {
    type V = OutgoingView;

    open spec fn view(&self) -> OutgoingView {
        OutgoingView { peer: self.peer@, message: self.message@ }
    }
}

/// The views of a sequence of messages, in order.
pub open spec fn outgoing_views(messages: Seq<Outgoing>) -> Seq<OutgoingView> {
    Seq::new(messages.len(), |i: int| messages[i]@)
}

/// A node.
pub struct Node {
    blockchain: Blockchain,
    peers: PeerDirectory,
    address: String,
}

/// What a node holds, as mathematical values.
pub struct NodeView {
    pub ledger: LedgerView,
    pub peers: Seq<Seq<char>>,
    pub address: Seq<char>,
}

impl View for Node {
    type V = NodeView;

    closed spec fn view(&self) -> NodeView {
        NodeView { ledger: self.blockchain@, peers: self.peers@, address: self.address@ }
    }
}

/// What a node does with a request: the state it is in afterwards and the
/// reply it gives.
pub open spec fn handled(
    before: NodeView,
    request: RequestView,
    after: NodeView,
    response: ResponseView,
) -> bool {
    match request {
        RequestView::NewTransaction(transaction) => {
            &&& after == (NodeView {
                ledger: LedgerView {
                    pending: before.ledger.pending.push(transaction),
                    ..before.ledger
                },
                ..before
            })
            &&& response == ResponseView::TransactionAdded
        },
        RequestView::GetBlockToMine => {
            &&& after == before
            &&& if before.ledger.pending.len() == 0 {
                response == ResponseView::NoBlockAvailable
            } else {
                &&& response matches ResponseView::Template(block)
                &&& block == BlockView::template(
                    block.timestamp,
                    before.ledger.tip().hash,
                    before.ledger.pending,
                )
            }
        },
        RequestView::MinedBlock(block) => {
            &&& response == ResponseView::MinedBlockReceived {
                accepted: before.ledger.accepts(block),
            }
            &&& after == (NodeView {
                ledger: if before.ledger.accepts(block) {
                    before.ledger.extended(block)
                } else {
                    before.ledger
                },
                ..before
            })
        },
        RequestView::AddPeer(address) => {
            &&& after == (NodeView { peers: with_peer(before.peers, address), ..before })
            &&& response == ResponseView::PeerAdded(address)
        },
        RequestView::GetPeers => {
            &&& after == before
            &&& response == ResponseView::PeerList(before.peers)
        },
        RequestView::Unknown => after == before && response == ResponseView::UnknownCommand,
        RequestView::Malformed => after == before && response == ResponseView::MalformedPayload,
    }
}

/// Whatever a node is asked, a valid chain stays valid and no block is
/// lost, provided that every solved block that reaches it carries the
/// digest its fields hash to.
pub proof fn lemma_requests_keep_chain_valid(
    before: NodeView,
    request: RequestView,
    after: NodeView,
    response: ResponseView,
)
    requires
        handled(before, request, after, response),
        before.ledger.is_valid(),
        request matches RequestView::MinedBlock(block) ==> block.is_sealed(),
    ensures
        after.ledger.is_valid(),
        before.ledger.blocks.is_prefix_of(after.ledger.blocks),
{
    match request {
        RequestView::MinedBlock(block) => {
            if before.ledger.accepts(block) {
                lemma_accepted_block_keeps_chain_valid(before.ledger, block);
                assert(before.ledger.blocks.is_prefix_of(before.ledger.blocks.push(block)));
            } else {
                assert(before.ledger.blocks.is_prefix_of(before.ledger.blocks));
            }
        },
        _ => {
            assert(before.ledger.blocks.is_prefix_of(before.ledger.blocks));
        },
    }
}

/// The addresses among `addresses` that are not `own`, in order.
pub open spec fn other_than(addresses: Seq<Seq<char>>, own: Seq<char>) -> Seq<Seq<char>>
    decreases addresses.len(),
{
    if addresses.len() == 0 {
        Seq::empty()
    } else if addresses.last() == own {
        other_than(addresses.drop_last(), own)
    } else {
        other_than(addresses.drop_last(), own).push(addresses.last())
    }
}

/// One copy of `message` for each of `peers`, in order.
pub open spec fn to_each(peers: Seq<Seq<char>>, message: Seq<char>) -> Seq<OutgoingView> {
    Seq::new(peers.len(), |i: int| OutgoingView { peer: peers[i], message })
}

impl Node {
    /// A node at `address` with a fresh ledger and no peers.
    pub fn new(address: String) -> (node: Self)
        ensures
            node@.address == address@,
            node@.peers.len() == 0,
            node@.ledger.blocks.len() == 1,
            node@.ledger.blocks[0].is_genesis(),
            node@.ledger.pending.len() == 0,
            node@.ledger.difficulty == DIFFICULTY,
            node@.ledger.is_valid(),
    {
        Node { blockchain: Blockchain::new(), peers: PeerDirectory::new(), address }
    }

    /// The node's ledger.
    pub fn blockchain(&self) -> (ledger: &Blockchain)
        ensures
            ledger@ == self@.ledger,
    {
        &self.blockchain
    }

    /// The peers that the node knows, in the order in which it learned of
    /// them, each once.
    pub fn peers(&self) -> (peers: &Vec<String>)
        ensures
            string_views(peers@) == self@.peers,
            self@.peers.no_duplicates(),
    {
        self.peers.addresses()
    }

    /// The node's own address.
    pub fn address(&self) -> (address: &String)
        ensures
            address@ == self@.address,
    {
        &self.address
    }

    /// Does what a request asks and says what to reply.
    pub fn handle_request(&mut self, request: Request) -> (response: Response)
        ensures
            handled(old(self)@, request@, final(self)@, response@),
            final(self)@.peers.no_duplicates(),
    {
        proof {
            use_type_invariant(&self.peers);
            self.peers.lemma_distinct();
        }
        match request {
            Request::NewTransaction(transaction) => {
                self.blockchain.add_transaction(transaction);
                Response::TransactionAdded
            },
            Request::GetBlockToMine => {
                match self.blockchain.get_block_to_mine() {
                    Some(block) => Response::Template(block),
                    None => Response::NoBlockAvailable,
                }
            },
            Request::MinedBlock(block) => {
                let accepted = self.blockchain.add_mined_block(block);
                Response::MinedBlockReceived { accepted }
            },
            Request::AddPeer(address) => {
                let known = address.clone();
                self.peers.insert(address);
                Response::PeerAdded(known)
            },
            Request::GetPeers => {
                let peers = clone_strings(self.peers.addresses());
                Response::PeerList(peers)
            },
            Request::Unknown => Response::UnknownCommand,
            Request::Malformed => Response::MalformedPayload,
        }
    }

    /// The messages that carry a transaction, given as JSON, to every known
    /// peer: one for each, in order.
    pub fn broadcast_transaction(&self, transaction_json: &str) -> (messages: Vec<Outgoing>)
        ensures
            messages@.len() == self@.peers.len(),
            outgoing_views(messages@) == to_each(
                self@.peers,
                new_transaction_prefix() + transaction_json@,
            ),
    {
        let peers = self.peers.addresses();
        let mut messages: Vec<Outgoing> = Vec::new();
        let mut i: usize = 0;
        while i < peers.len()
            invariant
                i <= peers.len(),
                string_views(peers@) == self@.peers,
                messages@.len() == i,
                forall|j: int|
                    0 <= j < i ==> (#[trigger] messages@[j])@ == (OutgoingView {
                        peer: self@.peers[j],
                        message: new_transaction_prefix() + transaction_json@,
                    }),
            decreases peers.len() - i,
        {
            messages.push(
                Outgoing {
                    peer: peers[i].clone(),
                    message: new_transaction_message(transaction_json),
                },
            );
            i += 1;
        }
        assert(outgoing_views(messages@) =~= to_each(
            self@.peers,
            new_transaction_prefix() + transaction_json@,
        ));
        messages
    }

    /// Learns the peer at `address` and returns the message that tells that
    /// peer of this node.
    pub fn add_peer(&mut self, address: String) -> (notice: Outgoing)
        ensures
            final(self)@ == (NodeView {
                peers: with_peer(old(self)@.peers, address@),
                ..old(self)@
            }),
            notice@ == (OutgoingView {
                peer: address@,
                message: add_peer_prefix() + old(self)@.address,
            }),
            final(self)@.peers.no_duplicates(),
    {
        let peer = address.clone();
        self.peers.insert(address);
        Outgoing { peer, message: add_peer_message(self.address.as_str()) }
    }

    /// Takes a bootstrap node's reply to `GET_PEERS`, learns every address
    /// that it lists other than the node's own, and returns the messages
    /// that tell each of those peers of this node.
    pub fn discover_peers(&mut self, response: &str) -> (notices: Vec<Outgoing>)
        ensures
            final(self)@ == (NodeView {
                peers: with_peers(
                    old(self)@.peers,
                    other_than(listed_peers(response@), old(self)@.address),
                ),
                ..old(self)@
            }),
            notices@.len() == other_than(listed_peers(response@), old(self)@.address).len(),
            outgoing_views(notices@) == to_each(
                other_than(listed_peers(response@), old(self)@.address),
                add_peer_prefix() + old(self)@.address,
            ),
            final(self)@.peers.no_duplicates(),
    {
        proof {
            use_type_invariant(&self.peers);
            self.peers.lemma_distinct();
        }
        let listed = parse_peer_list(response);
        let ghost all = listed_peers(response@);
        let ghost own = self@.address;
        let mut notices: Vec<Outgoing> = Vec::new();
        let mut i: usize = 0;
        assert(all.take(0) =~= Seq::empty());
        assert(outgoing_views(notices@) =~= to_each(
            other_than(all.take(0), own),
            add_peer_prefix() + own,
        ));
        while i < listed.len()
            invariant
                i <= listed.len(),
                all == string_views(listed@),
                own == old(self)@.address,
                self@.peers.no_duplicates(),
                self@ == (NodeView {
                    peers: with_peers(old(self)@.peers, other_than(all.take(i as int), own)),
                    ..old(self)@
                }),
                outgoing_views(notices@) == to_each(
                    other_than(all.take(i as int), own),
                    add_peer_prefix() + own,
                ),
            decreases listed.len() - i,
        {
            let ghost earlier = other_than(all.take(i as int), own);
            proof {
                let next = all.take(i + 1);
                assert(next.drop_last() =~= all.take(i as int));
                assert(next.last() == listed[i as int]@);
            }
            if listed[i] != self.address {
                let ghost sent = outgoing_views(notices@);
                let ghost earlier_notices = notices@;
                assert(sent.len() == to_each(earlier, add_peer_prefix() + own).len());
                assert(earlier_notices.len() == earlier.len());
                let notice = self.add_peer(listed[i].clone());
                notices.push(notice);
                proof {
                    let now = earlier.push(listed[i as int]@);
                    let message = add_peer_prefix() + own;
                    assert(now.drop_last() =~= earlier);
                    assert forall|j: int| 0 <= j < now.len() implies outgoing_views(notices@)[j]
                        == to_each(now, message)[j] by {
                        if j < earlier.len() {
                            assert(notices@[j] == earlier_notices[j]);
                            assert(outgoing_views(notices@)[j] == sent[j]);
                            assert(sent[j] == to_each(earlier, message)[j]);
                        }
                    }
                    assert(outgoing_views(notices@) =~= to_each(now, message));
                }
            }
            i += 1;
        }
        assert(all.take(i as int) =~= all);
        notices
    }
}

/// Copies of the strings, in order.
fn clone_strings(strings: &Vec<String>) -> (copies: Vec<String>)
    ensures
        string_views(copies@) == string_views(strings@),
{
    let mut copies: Vec<String> = Vec::new();
    let mut i: usize = 0;
    while i < strings.len()
        invariant
            i <= strings.len(),
            copies@.len() == i,
            forall|j: int| 0 <= j < i ==> (#[trigger] copies@[j])@ == strings@[j]@,
        decreases strings.len() - i,
    {
        copies.push(strings[i].clone());
        i += 1;
    }
    assert(string_views(copies@) =~= string_views(strings@));
    copies
}

} // verus!
