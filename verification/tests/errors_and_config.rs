use actix_send::ActixSendError;
use actix_send::Builder;
use actix_send::Config;
use actix_send::ErasedResult;
use actix_send::MapResult;
use actix_send::builder::arbiter_index;
use actix_send::error::recv_outcome;
use actix_send::error::timed_enqueue_outcome;

#[test]
fn config_defaults() {
    let c = Config::default();
    assert_eq!(c.num, 1);
    assert!(!c.restart_on_err);
    assert!(!c.handle_delayed_on_shutdown);
    assert_eq!(c.timeout_ms, 10_000);
}

#[test]
fn builder_collects_options() {
    let b = Builder::new().num(4).restart_on_err().handle_delayed_on_shutdown().timeout(250);
    assert_eq!(b.config.num, 4);
    assert!(b.config.restart_on_err);
    assert!(b.config.handle_delayed_on_shutdown);
    assert_eq!(b.config.timeout_ms, 250);
}

#[test]
fn check_num_requires_more_than_target() {
    assert!(Builder::check_num(1, 0));
    assert!(Builder::check_num(8, 0));
    assert!(!Builder::check_num(0, 0));
    assert!(!Builder::check_num(3, 3));
}

#[test]
fn arbiter_assignment_spreads_evenly() {
    assert_eq!(arbiter_index(0, 3), 0);
    assert_eq!(arbiter_index(1, 3), 1);
    assert_eq!(arbiter_index(2, 3), 2);
    assert_eq!(arbiter_index(3, 3), 0);
    assert_eq!(arbiter_index(7, 2), 1);
}

#[test]
fn error_kind_names() {
    assert_eq!(ActixSendError::Canceled.as_str(), "canceled");
    assert_eq!(ActixSendError::Closed.as_str(), "closed");
    assert_eq!(ActixSendError::Blocking.as_str(), "blocking");
    assert_eq!(ActixSendError::TypeCast.as_str(), "type cast");
}

#[test]
fn dropped_reply_channel_is_canceled() {
    let (tx, mut rx) = futures_channel::oneshot::channel::<u32>();
    drop(tx);
    let err = rx.try_recv().unwrap_err();
    assert_eq!(ActixSendError::from(err), ActixSendError::Canceled);
}

#[test]
fn recv_outcome_maps_both_ways() {
    let (tx, mut rx) = futures_channel::oneshot::channel::<u32>();
    tx.send(9).unwrap();
    let got = rx.try_recv().unwrap();
    assert_eq!(recv_outcome(Ok(got.unwrap())), Ok(9));

    let (tx2, mut rx2) = futures_channel::oneshot::channel::<u32>();
    drop(tx2);
    let err = rx2.try_recv().unwrap_err();
    assert_eq!(recv_outcome::<u32>(Err(err)), Err(ActixSendError::Canceled));
}

#[test]
fn closed_queue_send_error_is_closed() {
    let (tx, rx) = async_channel::bounded::<u32>(1);
    drop(rx);
    let err = futures::executor::block_on(tx.send(5)).unwrap_err();
    assert_eq!(ActixSendError::from(err), ActixSendError::Closed);
}

#[test]
fn timed_enqueue_outcome_maps_all_cases() {
    assert_eq!(
        timed_enqueue_outcome::<u32>(None),
        Err(ActixSendError::Blocking)
    );
    assert_eq!(timed_enqueue_outcome::<u32>(Some(Ok(()))), Ok(()));
    let (tx, rx) = async_channel::bounded::<u32>(1);
    drop(rx);
    let err = futures::executor::block_on(tx.send(5)).unwrap_err();
    assert_eq!(
        timed_enqueue_outcome::<u32>(Some(Err(err))),
        Err(ActixSendError::Closed)
    );
}

#[test]
fn erased_round_trip_and_mismatch() {
    let packed = ErasedResult::pack(11, String::from("out"));
    assert_eq!(packed.unpack(11), Some(String::from("out")));

    let packed = ErasedResult::pack(11, String::from("out"));
    assert_eq!(packed.unpack(12), None);

    let packed = ErasedResult::pack(3, 77u64);
    assert_eq!(packed.recover(3), Ok(77));

    let packed = ErasedResult::pack(3, 77u64);
    assert_eq!(packed.recover(4), Err(ActixSendError::TypeCast));
}

#[derive(Debug, PartialEq, Eq)]
pub enum EchoRes {
    Text(String),
    Number(u64),
}

pub struct TextMsg;

pub struct NumberMsg;

impl MapResult<EchoRes> for TextMsg {
    type Output = String;

    fn map(msg: EchoRes) -> Result<String, ActixSendError> {
        match msg {
            EchoRes::Text(s) => Ok(s),
            _ => Err(ActixSendError::TypeCast),
        }
    }
}

impl MapResult<EchoRes> for NumberMsg {
    type Output = u64;

    fn map(msg: EchoRes) -> Result<u64, ActixSendError> {
        match msg {
            EchoRes::Number(n) => Ok(n),
            _ => Err(ActixSendError::TypeCast),
        }
    }
}

#[test]
fn map_result_recovers_matching_variant_only() {
    assert_eq!(TextMsg::map(EchoRes::Text(String::from("hi"))), Ok(String::from("hi")));
    assert_eq!(TextMsg::map(EchoRes::Number(4)), Err(ActixSendError::TypeCast));
    assert_eq!(NumberMsg::map(EchoRes::Number(4)), Ok(4));
    assert_eq!(NumberMsg::map(EchoRes::Text(String::from("hi"))), Err(ActixSendError::TypeCast));
}
