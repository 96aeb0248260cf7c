use fluerion::block::Block;
use fluerion::protocol::add_peer_message;
use fluerion::protocol::get_block_to_mine_message;
use fluerion::protocol::get_peers_message;
use fluerion::protocol::mined_block_message;
use fluerion::protocol::new_transaction_message;
use fluerion::protocol::parse_command;
use fluerion::protocol::parse_peer_list;
use fluerion::protocol::parse_template_reply;
use fluerion::protocol::Command;
use fluerion::protocol::Response;
use fluerion::protocol::TemplateReply;

#[test]
fn commands_are_known_by_their_opening_words() {
    assert!(matches!(
        parse_command("NEW_TRANSACTION:{\"a\":1}"),
        Command::NewTransaction(json) if json == "{\"a\":1}"
    ));
    assert!(matches!(parse_command("GET_BLOCK_TO_MINE"), Command::GetBlockToMine));
    assert!(matches!(
        parse_command("MINED_BLOCK:{}"),
        Command::MinedBlock(json) if json == "{}"
    ));
    assert!(matches!(
        parse_command("ADD_PEER:127.0.0.1:9001"),
        Command::AddPeer(address) if address == "127.0.0.1:9001"
    ));
    assert!(matches!(parse_command("GET_PEERS"), Command::GetPeers));
}

#[test]
fn anything_else_is_unknown() {
    assert!(matches!(parse_command(""), Command::Unknown));
    assert!(matches!(parse_command("HELLO"), Command::Unknown));
    assert!(matches!(parse_command("GET_BALANCE:Alice"), Command::Unknown));
    assert!(matches!(parse_command("get_peers"), Command::Unknown));
    assert!(matches!(parse_command(" GET_PEERS"), Command::Unknown));
    assert!(matches!(parse_command("NEW_TRANSACTION"), Command::Unknown));
    assert!(matches!(parse_command("ADD_PEER"), Command::Unknown));
}

#[test]
fn words_after_a_command_without_payload_are_ignored() {
    assert!(matches!(parse_command("GET_PEERS\n"), Command::GetPeers));
    assert!(matches!(parse_command("GET_BLOCK_TO_MINE please"), Command::GetBlockToMine));
}

#[test]
fn payload_may_be_empty() {
    assert!(matches!(
        parse_command("NEW_TRANSACTION:"),
        Command::NewTransaction(json) if json.is_empty()
    ));
    assert!(matches!(
        parse_command("ADD_PEER:"),
        Command::AddPeer(address) if address.is_empty()
    ));
}

#[test]
fn framed_messages_read_back_as_their_commands() {
    let json = "{\"sender\":\"Alice\"}";
    assert_eq!(new_transaction_message(json), "NEW_TRANSACTION:{\"sender\":\"Alice\"}");
    assert!(matches!(
        parse_command(&new_transaction_message(json)),
        Command::NewTransaction(payload) if payload == json
    ));
    assert_eq!(mined_block_message("{}"), "MINED_BLOCK:{}");
    assert!(matches!(
        parse_command(&mined_block_message("{}")),
        Command::MinedBlock(payload) if payload == "{}"
    ));
    assert_eq!(add_peer_message("127.0.0.1:9001"), "ADD_PEER:127.0.0.1:9001");
    assert!(matches!(
        parse_command(&add_peer_message("host:1")),
        Command::AddPeer(address) if address == "host:1"
    ));
    assert_eq!(get_peers_message(), "GET_PEERS");
    assert!(matches!(parse_command(&get_peers_message()), Command::GetPeers));
    assert_eq!(get_block_to_mine_message(), "GET_BLOCK_TO_MINE");
    assert!(matches!(
        parse_command(&get_block_to_mine_message()),
        Command::GetBlockToMine
    ));
}

#[test]
fn replies_have_their_fixed_texts() {
    assert_eq!(Response::TransactionAdded.text().unwrap(), "Transaction added");
    assert_eq!(Response::NoBlockAvailable.text().unwrap(), "NO_BLOCK_AVAILABLE");
    assert_eq!(
        Response::MinedBlockReceived { accepted: true }.text().unwrap(),
        "Mined block added to blockchain"
    );
    assert_eq!(
        Response::MinedBlockReceived { accepted: false }.text().unwrap(),
        "Mined block added to blockchain"
    );
    assert_eq!(
        Response::PeerAdded("127.0.0.1:9001".to_string()).text().unwrap(),
        "Peer 127.0.0.1:9001 added"
    );
    assert_eq!(Response::UnknownCommand.text().unwrap(), "Unknown command");
    assert_eq!(Response::MalformedPayload.text().unwrap(), "Malformed payload");
}

#[test]
fn peer_list_reply_joins_the_addresses_with_commas() {
    assert_eq!(Response::PeerList(Vec::new()).text().unwrap(), "PEER_LIST:");
    assert_eq!(
        Response::PeerList(vec!["127.0.0.1:9001".to_string()]).text().unwrap(),
        "PEER_LIST:127.0.0.1:9001"
    );
    assert_eq!(
        Response::PeerList(vec!["a:1".to_string(), "b:2".to_string()]).text().unwrap(),
        "PEER_LIST:a:1,b:2"
    );
}

#[test]
fn template_reply_has_no_text_of_its_own() {
    let block = Block::with_timestamp(1, Vec::new(), [0u8; 32]);
    assert!(Response::Template(block).text().is_none());
}

#[test]
fn peer_list_is_read_field_by_field() {
    assert_eq!(parse_peer_list("PEER_LIST:a:1,b:2"), vec!["a:1".to_string(), "b:2".to_string()]);
    assert_eq!(parse_peer_list("PEER_LIST:a:1"), vec!["a:1".to_string()]);
    assert!(parse_peer_list("PEER_LIST:").is_empty());
    assert_eq!(parse_peer_list("PEER_LIST:,"), vec![String::new(), String::new()]);
    assert_eq!(parse_peer_list("PEER_LIST:a:1,"), vec!["a:1".to_string(), String::new()]);
    assert!(parse_peer_list("Unknown command").is_empty());
    assert!(parse_peer_list("").is_empty());
}

#[test]
fn peer_list_survives_the_round_trip() {
    let peers = vec!["a:1".to_string(), "b:2".to_string(), "c:3".to_string()];
    let text = Response::PeerList(peers.clone()).text().unwrap();
    assert_eq!(parse_peer_list(&text), peers);
    let none = Response::PeerList(Vec::new()).text().unwrap();
    assert!(parse_peer_list(&none).is_empty());
}

#[test]
fn miner_tells_no_block_from_a_template() {
    assert!(matches!(parse_template_reply("NO_BLOCK_AVAILABLE"), TemplateReply::NoBlock));
    assert!(matches!(
        parse_template_reply("{\"timestamp\":1}"),
        TemplateReply::Template(json) if json == "{\"timestamp\":1}"
    ));
    assert!(matches!(
        parse_template_reply(""),
        TemplateReply::Template(json) if json.is_empty()
    ));
}
