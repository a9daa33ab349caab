use serde_json::{Number, Value};
use xblock::{Block, Chain, Data, Genesis, Script, Transfer, DIFFICULTY_PREFIX};

fn bytes_to_value(bytes: &[u8]) -> Value {
    Value::Array(bytes.iter().map(|b| Value::Number(Number::from(*b))).collect())
}

fn object(entries: Vec<(&str, Value)>) -> Value {
    let mut map = serde_json::Map::new();
    for (key, value) in entries {
        map.insert(key.to_string(), value);
    }
    Value::Object(map)
}

fn data_to_value(data: &Data) -> Value {
    match data {
        Data::Genesis(g) => object(vec![("Genesis", object(vec![("amt", Value::from(g.amt))]))]),
        Data::Script(Script::Transfer(t)) => object(vec![(
            "Script",
            object(vec![(
                "Transfer",
                object(vec![("from", Value::from(t.from)), ("to", Value::from(t.to))]),
            )]),
        )]),
    }
}

fn block_to_value(block: &Block<Data>) -> Value {
    object(vec![
        ("id", Value::from(block.id)),
        ("hash", bytes_to_value(&block.hash)),
        ("previous_hash", bytes_to_value(&block.previous_hash)),
        ("timestamp", Value::from(block.timestamp)),
        ("data", data_to_value(&block.data)),
        ("nonce", Value::from(block.nonce)),
    ])
}

fn value_to_bytes(value: &Value) -> Option<Vec<u8>> {
    let mut bytes = vec![];
    for item in value.as_array()? {
        let byte = item.as_u64()?;
        if byte > 255 {
            return None;
        }
        bytes.push(byte as u8);
    }
    Some(bytes)
}

fn value_to_data(value: &Value) -> Option<Data> {
    if let Some(g) = value.get("Genesis") {
        return Some(Data::Genesis(Genesis { amt: g.get("amt")?.as_u64()? }));
    }
    let t = value.get("Script")?.get("Transfer")?;
    Some(Data::Script(Script::Transfer(Transfer {
        from: t.get("from")?.as_u64()?,
        to: t.get("to")?.as_u64()?,
    })))
}

fn value_to_block(value: &Value) -> Option<Block<Data>> {
    Some(Block {
        id: value.get("id")?.as_u64()?,
        hash: value_to_bytes(value.get("hash")?)?,
        previous_hash: value_to_bytes(value.get("previous_hash")?)?,
        timestamp: value.get("timestamp")?.as_u64()?,
        data: value_to_data(value.get("data")?)?,
        nonce: value.get("nonce")?.as_u64()?,
    })
}

fn through_the_wire(block: &Block<Data>) -> Block<Data> {
    let sent = serde_json::to_vec(&block_to_value(block)).unwrap();
    let received: Value = serde_json::from_slice(&sent).unwrap();
    value_to_block(&received).unwrap()
}

#[test]
fn genesis_block_survives_the_wire() {
    let block = Block::genesis_at(Data::Genesis(Genesis { amt: 1_000_000 }), 1_700_000_000);
    let back = through_the_wire(&block);
    assert_eq!(back, block);
    assert!(back.verify());
}

#[test]
fn mined_block_survives_the_wire() {
    let genesis = Block::genesis_at(Data::Genesis(Genesis { amt: 1_000_000 }), 1_700_000_000);
    let data = Data::Script(Script::Transfer(Transfer { from: u64::MAX, to: 2 }));
    let block = genesis.mine_at(data, 1_700_000_017, &[0]).unwrap();
    let back = through_the_wire(&block);
    assert_eq!(back, block);
    assert!(back.verify());
}

#[test]
fn chain_survives_the_wire() {
    let chain: Chain<Data> = Chain::starting_at(1_700_000_000);
    let transfer = Data::Script(Script::Transfer(Transfer { from: 1, to: 2 }));
    let chain = chain.mine_at(transfer, 1_700_000_017).unwrap();
    let mut blocks: Vec<Block<Data>> = chain.blocks().iter().map(through_the_wire).collect();
    let head = blocks.pop().unwrap();
    let back = Chain::from_parts(blocks, head);
    assert_eq!(back, chain);
    assert!(back.is_valid());
    assert_eq!(&back.last().hash[..2], &DIFFICULTY_PREFIX[..]);
}
