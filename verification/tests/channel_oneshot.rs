use slot_authorship::channel::{ChannelState, ResultChannel};
use slot_authorship::seal::{CreatedBlock, ImportedAux};
use slot_authorship::Error;

#[test]
fn send_then_recv_delivers_the_outcome_once() {
    let mut ch = ResultChannel::new();
    let outcome = Ok(CreatedBlock { hash: 42, aux: ImportedAux { is_new_best: true } });
    ch.send(outcome);
    assert_eq!(ch.recv(), Some(outcome));
    // one-shot: the outcome is consumed
    assert_eq!(ch.recv(), None);
    assert_eq!(ch.state, ChannelState::Consumed);
}

#[test]
fn recv_before_any_send_yields_nothing() {
    let mut ch = ResultChannel::new();
    assert_eq!(ch.recv(), None);
    assert_eq!(ch.state, ChannelState::Pending);
}

#[test]
fn send_to_an_abandoned_channel_is_a_no_op() {
    let mut ch = ResultChannel::new();
    ch.abandon();
    ch.send(Err(Error::EmptyTransactionPool));
    assert_eq!(ch.state, ChannelState::Abandoned);
    assert_eq!(ch.recv(), None);
}
