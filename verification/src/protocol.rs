//! The text protocol of a node: the commands it reads, the replies it
//! writes, and the messages that a node, a wallet or a miner sends. A
//! command is recognised by the words it begins with; what follows them is
//! its payload.

use crate::block::Block;
use crate::block::BlockView;
use crate::text::join;
use crate::text::join_text;
use crate::text::lemma_split_of_join;
use crate::text::skip_chars;
use crate::text::split;
use crate::text::split_text;
use crate::text::starts_with;
use crate::text::string_views;
use vstd::prelude::*;

verus! {

/// The words that open a command carrying a transaction.
pub open spec fn new_transaction_prefix() -> Seq<char> {
    "NEW_TRANSACTION:"@
}

/// The words by which a miner asks for a block to solve.
pub open spec fn get_block_to_mine_word() -> Seq<char> {
    "GET_BLOCK_TO_MINE"@
}

/// The words that open a command carrying a solved block.
pub open spec fn mined_block_prefix() -> Seq<char> {
    "MINED_BLOCK:"@
}

/// The words that open a command announcing a peer.
pub open spec fn add_peer_prefix() -> Seq<char> {
    "ADD_PEER:"@
}

/// The words by which a node asks another for the peers it knows.
pub open spec fn get_peers_word() -> Seq<char> {
    "GET_PEERS"@
}

/// The words that open a list of peers.
pub open spec fn peer_list_prefix() -> Seq<char> {
    "PEER_LIST:"@
}

/// The words by which a node says that it has nothing to mine.
pub open spec fn no_block_word() -> Seq<char> {
    "NO_BLOCK_AVAILABLE"@
}

/// A command as it was read, its payload not yet decoded.
pub enum Command {
    /// A transaction, as JSON.
    NewTransaction(String),
    GetBlockToMine,
    /// A solved block, as JSON.
    MinedBlock(String),
    /// The address of a peer.
    AddPeer(String),
    GetPeers,
    Unknown,
}

/// What a command says, as mathematical values.
pub enum CommandView {
    NewTransaction(Seq<char>),
    GetBlockToMine,
    MinedBlock(Seq<char>),
    AddPeer(Seq<char>),
    GetPeers,
    Unknown,
}

impl View for Command {
    type V = CommandView;

    open spec fn view(&self) -> CommandView {
        match self {
            Command::NewTransaction(json) => CommandView::NewTransaction(json@),
            Command::GetBlockToMine => CommandView::GetBlockToMine,
            Command::MinedBlock(json) => CommandView::MinedBlock(json@),
            Command::AddPeer(address) => CommandView::AddPeer(address@),
            Command::GetPeers => CommandView::GetPeers,
            Command::Unknown => CommandView::Unknown,
        }
    }
}

/// The command that a message stands for: the first of the known openings
/// that the message begins with decides, and the payload is all that
/// follows it.
pub open spec fn parse_text(message: Seq<char>) -> CommandView {
    if new_transaction_prefix().is_prefix_of(message) {
        CommandView::NewTransaction(message.skip(new_transaction_prefix().len() as int))
    } else if get_block_to_mine_word().is_prefix_of(message) {
        CommandView::GetBlockToMine
    } else if mined_block_prefix().is_prefix_of(message) {
        CommandView::MinedBlock(message.skip(mined_block_prefix().len() as int))
    } else if add_peer_prefix().is_prefix_of(message) {
        CommandView::AddPeer(message.skip(add_peer_prefix().len() as int))
    } else if get_peers_word().is_prefix_of(message) {
        CommandView::GetPeers
    } else {
        CommandView::Unknown
    }
}

/// Reads a command from a message.
pub fn parse_command(message: &str) -> (command: Command)
    ensures
        command@ == parse_text(message@),
{
    if starts_with(message, "NEW_TRANSACTION:") {
        Command::NewTransaction(skip_chars(message, "NEW_TRANSACTION:".unicode_len()))
    } else if starts_with(message, "GET_BLOCK_TO_MINE") {
        Command::GetBlockToMine
    } else if starts_with(message, "MINED_BLOCK:") {
        Command::MinedBlock(skip_chars(message, "MINED_BLOCK:".unicode_len()))
    } else if starts_with(message, "ADD_PEER:") {
        Command::AddPeer(skip_chars(message, "ADD_PEER:".unicode_len()))
    } else if starts_with(message, "GET_PEERS") {
        Command::GetPeers
    } else {
        Command::Unknown
    }
}

/// The message that submits a transaction, given as JSON. A node reads it
/// back as that command with that payload.
pub fn new_transaction_message(json: &str) -> (message: String)
    ensures
        message@ == new_transaction_prefix() + json@,
        parse_text(message@) == CommandView::NewTransaction(json@),
{
    let mut message = String::from_str("NEW_TRANSACTION:");
    message.append(json);
    proof {
        let prefix = new_transaction_prefix();
        assert(message@.subrange(0, prefix.len() as int) =~= prefix);
        assert(message@.skip(prefix.len() as int) =~= json@);
    }
    message
}

/// The message that submits a solved block, given as JSON. A node reads it
/// back as that command with that payload.
pub fn mined_block_message(json: &str) -> (message: String)
    ensures
        message@ == mined_block_prefix() + json@,
        parse_text(message@) == CommandView::MinedBlock(json@),
{
    let mut message = String::from_str("MINED_BLOCK:");
    message.append(json);
    proof {
        reveal_strlit("NEW_TRANSACTION:");
        reveal_strlit("GET_BLOCK_TO_MINE");
        reveal_strlit("MINED_BLOCK:");
        let prefix = mined_block_prefix();
        assert(message@.subrange(0, prefix.len() as int) =~= prefix);
        assert(message@.skip(prefix.len() as int) =~= json@);
        assert(message@[0] == 'M');
        assert(new_transaction_prefix()[0] == 'N');
        assert(get_block_to_mine_word()[0] == 'G');
        if new_transaction_prefix().is_prefix_of(message@) {
            assert(message@.subrange(0, new_transaction_prefix().len() as int)[0] == 'N');
        }
        if get_block_to_mine_word().is_prefix_of(message@) {
            assert(message@.subrange(0, get_block_to_mine_word().len() as int)[0] == 'G');
        }
    }
    message
}

/// The message that announces the peer at `address`. A node reads it back
/// as that command with that address.
pub fn add_peer_message(address: &str) -> (message: String)
    ensures
        message@ == add_peer_prefix() + address@,
        parse_text(message@) == CommandView::AddPeer(address@),
{
    let mut message = String::from_str("ADD_PEER:");
    message.append(address);
    proof {
        reveal_strlit("NEW_TRANSACTION:");
        reveal_strlit("GET_BLOCK_TO_MINE");
        reveal_strlit("MINED_BLOCK:");
        reveal_strlit("ADD_PEER:");
        let prefix = add_peer_prefix();
        assert(message@.subrange(0, prefix.len() as int) =~= prefix);
        assert(message@.skip(prefix.len() as int) =~= address@);
        assert(message@[0] == 'A');
        if new_transaction_prefix().is_prefix_of(message@) {
            assert(message@.subrange(0, new_transaction_prefix().len() as int)[0] == 'N');
        }
        if get_block_to_mine_word().is_prefix_of(message@) {
            assert(message@.subrange(0, get_block_to_mine_word().len() as int)[0] == 'G');
        }
        if mined_block_prefix().is_prefix_of(message@) {
            assert(message@.subrange(0, mined_block_prefix().len() as int)[0] == 'M');
        }
    }
    message
}

/// The message that asks a node for a block to solve.
pub fn get_block_to_mine_message() -> (message: String)
    ensures
        message@ == get_block_to_mine_word(),
        parse_text(message@) == CommandView::GetBlockToMine,
{
    let message = String::from_str("GET_BLOCK_TO_MINE");
    proof {
        reveal_strlit("NEW_TRANSACTION:");
        reveal_strlit("GET_BLOCK_TO_MINE");
        let word = get_block_to_mine_word();
        assert(message@.subrange(0, word.len() as int) =~= word);
        if new_transaction_prefix().is_prefix_of(message@) {
            assert(message@.subrange(0, new_transaction_prefix().len() as int)[0] == 'N');
        }
    }
    message
}

/// The message that asks a node for the peers it knows.
pub fn get_peers_message() -> (message: String)
    ensures
        message@ == get_peers_word(),
        parse_text(message@) == CommandView::GetPeers,
{
    let message = String::from_str("GET_PEERS");
    proof {
        reveal_strlit("NEW_TRANSACTION:");
        reveal_strlit("GET_BLOCK_TO_MINE");
        reveal_strlit("MINED_BLOCK:");
        reveal_strlit("ADD_PEER:");
        reveal_strlit("GET_PEERS");
        let word = get_peers_word();
        assert(message@.subrange(0, word.len() as int) =~= word);
        assert(message@.len() == 9);
        assert(message@[0] == 'G');
        if new_transaction_prefix().is_prefix_of(message@) {
            assert(new_transaction_prefix().len() == 16);
        }
        if get_block_to_mine_word().is_prefix_of(message@) {
            assert(get_block_to_mine_word().len() == 17);
        }
        if mined_block_prefix().is_prefix_of(message@) {
            assert(mined_block_prefix().len() == 12);
        }
        if add_peer_prefix().is_prefix_of(message@) {
            assert(message@.subrange(0, add_peer_prefix().len() as int)[0] == 'A');
        }
    }
    message
}

/// A reply of a node.
pub enum Response {
    TransactionAdded,
    /// A block for the miner to solve; it goes out as JSON.
    Template(Block),
    NoBlockAvailable,
    /// The acknowledgement of a solved block. Its text is the same whether
    /// the block was taken in or not.
    MinedBlockReceived { accepted: bool },
    PeerAdded(String),
    PeerList(Vec<String>),
    UnknownCommand,
    /// The payload of the command could not be decoded.
    MalformedPayload,
}

/// What a reply says, as mathematical values.
pub enum ResponseView {
    TransactionAdded,
    Template(BlockView),
    NoBlockAvailable,
    MinedBlockReceived { accepted: bool },
    PeerAdded(Seq<char>),
    PeerList(Seq<Seq<char>>),
    UnknownCommand,
    MalformedPayload,
}

impl View for Response {
    type V = ResponseView;

    open spec fn view(&self) -> ResponseView {
        match self {
            Response::TransactionAdded => ResponseView::TransactionAdded,
            Response::Template(block) => ResponseView::Template(block@),
            Response::NoBlockAvailable => ResponseView::NoBlockAvailable,
            Response::MinedBlockReceived { accepted } => ResponseView::MinedBlockReceived {
                accepted: *accepted,
            },
            Response::PeerAdded(address) => ResponseView::PeerAdded(address@),
            Response::PeerList(peers) => ResponseView::PeerList(string_views(peers@)),
            Response::UnknownCommand => ResponseView::UnknownCommand,
            Response::MalformedPayload => ResponseView::MalformedPayload,
        }
    }
}

/// The text of a reply. A block to solve has none here: it is written as
/// JSON.
pub open spec fn response_text(response: ResponseView) -> Option<Seq<char>> {
    match response {
        ResponseView::TransactionAdded => Some("Transaction added"@),
        ResponseView::Template(_) => None,
        ResponseView::NoBlockAvailable => Some(no_block_word()),
        ResponseView::MinedBlockReceived { .. } => Some("Mined block added to blockchain"@),
        ResponseView::PeerAdded(address) => Some("Peer "@ + address + " added"@),
        ResponseView::PeerList(peers) => Some(peer_list_prefix() + join_text(peers, ","@)),
        ResponseView::UnknownCommand => Some("Unknown command"@),
        ResponseView::MalformedPayload => Some("Malformed payload"@),
    }
}

impl Response {
    /// The text to write back, or `None` for a block to solve.
    pub fn text(&self) -> (text: Option<String>)
        ensures
            match response_text(self@) {
                Some(expected) => text matches Some(written) && written@ == expected,
                None => text is None,
            },
    {
        match self {
            Response::TransactionAdded => Some(String::from_str("Transaction added")),
            Response::Template(_) => None,
            Response::NoBlockAvailable => Some(String::from_str("NO_BLOCK_AVAILABLE")),
            Response::MinedBlockReceived { .. } => Some(
                String::from_str("Mined block added to blockchain"),
            ),
            Response::PeerAdded(address) => {
                let mut text = String::from_str("Peer ");
                text.append(address.as_str());
                text.append(" added");
                Some(text)
            },
            Response::PeerList(peers) => {
                let mut text = String::from_str("PEER_LIST:");
                let list = join(peers, ",");
                text.append(list.as_str());
                Some(text)
            },
            Response::UnknownCommand => Some(String::from_str("Unknown command")),
            Response::MalformedPayload => Some(String::from_str("Malformed payload")),
        }
    }
}

/// The addresses that a reply to `GET_PEERS` lists: the fields between the
/// commas after the opening words. A reply that ends with the opening
/// words lists no address, and so does any reply that does not begin with
/// them.
pub open spec fn listed_peers(response: Seq<char>) -> Seq<Seq<char>> {
    if peer_list_prefix().is_prefix_of(response) && response.len() > peer_list_prefix().len() {
        split_text(response.skip(peer_list_prefix().len() as int), ',')
    } else {
        Seq::empty()
    }
}

/// What one node lists, another reads: from the text of a list of peers,
/// none of them with an empty address or a comma in it, the same peers are
/// read back in the same order.
pub proof fn lemma_peer_list_reads_back(peers: Seq<Seq<char>>)
    requires
        forall|i: int|
            0 <= i < peers.len() ==> (#[trigger] peers[i]).len() > 0 && !peers[i].contains(','),
    ensures
        response_text(ResponseView::PeerList(peers)) matches Some(text) && listed_peers(text)
            == peers,
{
    let list = join_text(peers, ","@);
    let text = peer_list_prefix() + list;
    reveal_strlit(",");
    assert(","@ =~= seq![',']);
    assert(text.subrange(0, peer_list_prefix().len() as int) =~= peer_list_prefix());
    assert(text.skip(peer_list_prefix().len() as int) =~= list);
    if peers.len() == 0 {
        assert(listed_peers(text) =~= peers);
    } else {
        assert(list.len() >= peers.last().len());
        lemma_split_of_join(peers, ',');
    }
}

/// Reads the addresses from a reply to `GET_PEERS`.
pub fn parse_peer_list(response: &str) -> (peers: Vec<String>)
    ensures
        string_views(peers@) == listed_peers(response@),
{
    let opening = "PEER_LIST:".unicode_len();
    if starts_with(response, "PEER_LIST:") && response.unicode_len() > opening {
        let list = skip_chars(response, opening);
        split(list.as_str(), ',')
    } else {
        let peers: Vec<String> = Vec::new();
        assert(string_views(peers@) =~= Seq::<Seq<char>>::empty());
        peers
    }
}

/// What a node answered to a miner that asked for a block.
pub enum TemplateReply {
    NoBlock,
    /// A block to solve, as JSON.
    Template(String),
}

/// What such an answer says, as mathematical values.
pub enum TemplateReplyView {
    NoBlock,
    Template(Seq<char>),
}

impl View for TemplateReply {
    type V = TemplateReplyView;

    open spec fn view(&self) -> TemplateReplyView {
        match self {
            TemplateReply::NoBlock => TemplateReplyView::NoBlock,
            TemplateReply::Template(json) => TemplateReplyView::Template(json@),
        }
    }
}

/// The answer that a reply stands for: nothing to mine if it begins with
/// the words for that, else the whole reply as a block in JSON.
pub open spec fn template_reply_text(response: Seq<char>) -> TemplateReplyView {
    if no_block_word().is_prefix_of(response) {
        TemplateReplyView::NoBlock
    } else {
        TemplateReplyView::Template(response)
    }
}

/// Reads a node's answer to `GET_BLOCK_TO_MINE`.
pub fn parse_template_reply(response: &str) -> (reply: TemplateReply)
    ensures
        reply@ == template_reply_text(response@),
{
    if starts_with(response, "NO_BLOCK_AVAILABLE") {
        TemplateReply::NoBlock
    } else {
        TemplateReply::Template(String::from_str(response))
    }
}

} // verus!
