use kira_r2kad::domain::GroupingError;
use kira_r2kad::use_cases::inject_messages::errors::InjectMessageError;
use kira_r2kad::domain::ProtocolMessageKind;
use kira_r2kad::use_cases::inject_messages::{InjectAction, InjectMessages, InjectMessagesConfig, InjectionResult};

#[test]
fn default_grouping_is_one_bit() {
    assert_eq!(InjectMessagesConfig::default().shared_prefix_grouping, 1);
}

#[test]
fn inject_grouping_must_fit_a_node_id() {
    let r = InjectMessages::new(InjectMessagesConfig { shared_prefix_grouping: 200 });
    assert_eq!(r.err(), Some(GroupingError::Invalid { group_size: 200 }));
}

#[test]
fn isolated_node_cannot_inject() {
    let mut im = InjectMessages::new(InjectMessagesConfig::default()).unwrap();
    let (actions, res) = im.inject_find_node(1, Some(5), 9, None, 0);
    assert_eq!(res, Err(InjectMessageError::Isolated));
    assert!(matches!(actions[..], [InjectAction::SendResult(InjectionResult::Isolated)]));
}

#[test]
fn injected_find_node_is_answered_once() {
    let mut im = InjectMessages::new(InjectMessagesConfig::default()).unwrap();
    let path = vec![2, 3];
    let (actions, res) = im.inject_find_node(1, None, 9, Some(&path), 100);
    assert!(res.is_ok());
    let nonce = match &actions[0] {
        InjectAction::SendFindNodeReq { route, nonce, target: 9 } => {
            assert_eq!(route, &vec![1, 2, 3]);
            *nonce
        }
        other => panic!("{other:?}"),
    };
    let actions = im.handle_message(Some(nonce), ProtocolMessageKind::FindNodeRsp, 7, &vec![], &vec![vec![2, 7]]);
    match &actions[..] {
        [InjectAction::SendResult(InjectionResult::Answered(answer))] => {
            assert_eq!(answer.kind, ProtocolMessageKind::FindNodeRsp);
            assert_eq!(answer.source, 7);
            assert_eq!(answer.contact_paths, vec![vec![2, 7]]);
            assert!(answer.values.is_empty());
        },
        other => panic!("unexpected actions {:?}", other),
    }
    assert!(im.handle_message(Some(nonce), ProtocolMessageKind::FindNodeRsp, 7, &vec![], &vec![]).is_empty());
    assert!(im.handle_message(None, ProtocolMessageKind::FindNodeRsp, 7, &vec![], &vec![]).is_empty());
}

#[test]
fn inject_error_messages() {
    assert_eq!(InjectMessageError::Isolated.message(), "Node is isolated");
    assert_eq!(InjectMessageError::SendResultFailed.message(), "Sending injection result failed");
}

#[test]
fn failed_delivery_of_the_result_is_reported() {
    let im = InjectMessages::new(InjectMessagesConfig::default()).unwrap();
    assert_eq!(im.after_result_sent(&InjectionResult::Isolated, true), Err(InjectMessageError::Isolated));
    assert_eq!(im.after_result_sent(&InjectionResult::Isolated, false), Err(InjectMessageError::SendResultFailed));
    assert_eq!(im.after_result_sent(&InjectionResult::Timeout, true), Ok(()));
    assert_eq!(im.after_result_sent(&InjectionResult::Timeout, false), Err(InjectMessageError::SendResultFailed));
}
