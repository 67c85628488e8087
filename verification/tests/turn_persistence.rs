use carter_client::protocol::CarterOutput;
use carter_client::protocol::ChatResponse;
use carter_client::protocol::OpenerResponse;
use carter_client::turns::apply_opener;
use carter_client::turns::apply_turn;
use carter_client::turns::plan_turn;
use carter_client::turns::MessageWrite;
use carter_client::turns::plan_opener;

fn exchange(text: Option<&str>) -> ChatResponse {
    ChatResponse {
        output: text.map(|t| CarterOutput { text: t.to_string(), audio: None }),
        input: None,
        forced_behaviours: None,
        agent: None,
    }
}

#[test]
fn turn_without_output_persists_nothing_and_fails() {
    let mut store: Vec<MessageWrite> = Vec::new();
    let plan = plan_turn("conv-1", "hello", &exchange(None));
    assert!(plan.is_none());
    assert_eq!(store.len(), 0);
}

#[test]
fn successful_turn_persists_user_then_agent() {
    let mut store: Vec<MessageWrite> = Vec::new();
    let plan = plan_turn("conv-1", "hello", &exchange(Some("hi!"))).expect("output present");
    apply_turn(&mut store, plan);
    assert_eq!(store.len(), 2);
    assert_eq!(store[0].conversation_id, "conv-1");
    assert_eq!(store[0].text, "hello");
    assert!(!store[0].is_from_agent);
    assert_eq!(store[1].conversation_id, "conv-1");
    assert_eq!(store[1].text, "hi!");
    assert!(store[1].is_from_agent);
}

#[test]
fn refused_batch_leaves_no_half_turn() {
    // A store that refuses a batch refuses it whole: the plan is one value,
    // and a commit that does not happen leaves zero rows, never one.
    let mut store: Vec<MessageWrite> = Vec::new();
    let plan = plan_turn("conv-1", "hello", &exchange(Some("hi!"))).expect("output present");
    let store_accepts_batch = false;
    if store_accepts_batch {
        apply_turn(&mut store, plan);
    }
    assert_eq!(store.len(), 0);
}

#[test]
fn opener_without_output_persists_nothing() {
    let reply = OpenerResponse { output: None };
    assert!(plan_opener("conv-1", &reply).is_none());
}

#[test]
fn successful_opener_persists_one_agent_message() {
    let mut store: Vec<MessageWrite> = Vec::new();
    let reply = OpenerResponse {
        output: Some(CarterOutput { text: "welcome!".to_string(), audio: None }),
    };
    let message = plan_opener("conv-1", &reply).expect("output present");
    apply_opener(&mut store, message);
    assert_eq!(store.len(), 1);
    assert_eq!(store[0].conversation_id, "conv-1");
    assert_eq!(store[0].text, "welcome!");
    assert!(store[0].is_from_agent);
}

#[test]
fn identical_turns_are_not_deduplicated() {
    let mut store: Vec<MessageWrite> = Vec::new();
    let first = plan_turn("conv-1", "hello", &exchange(Some("hi!"))).expect("output present");
    let second = plan_turn("conv-1", "hello", &exchange(Some("hi!"))).expect("output present");
    apply_turn(&mut store, first);
    apply_turn(&mut store, second);
    assert_eq!(store.len(), 4);
    assert_eq!(store[0].text, "hello");
    assert_eq!(store[1].text, "hi!");
    assert_eq!(store[2].text, "hello");
    assert_eq!(store[3].text, "hi!");
    assert!(!store[2].is_from_agent);
    assert!(store[3].is_from_agent);
}
