use std::sync::Arc;

use kv::{Broadcaster, CommandResponse, Kvpair, Subscription, SubscriptionIds, Value, ValueData};

fn ids(mut v: Vec<u32>) -> Vec<u32> {
    v.sort();
    v
}

fn assert_res_ok(res: &CommandResponse, values: &[Value], pairs: &[Kvpair]) {
    assert_eq!(res.status, 200);
    assert_eq!(res.message, "");
    assert_eq!(res.values, values);
    assert_eq!(res.pairs, pairs);
}

#[test]
fn subscription_ids_count_up_from_one() {
    let mut source = SubscriptionIds::new();
    let drawn: Vec<u32> = (0..5).map(|_| source.get_next_subscription_id()).collect();
    assert_eq!(drawn, vec![1, 2, 3, 4, 5]);
}

#[test]
fn ids_are_distinct_across_broadcasters() {
    let mut source = SubscriptionIds::new();
    let mut a = Broadcaster::new();
    let mut b = Broadcaster::new();
    let sa = a.subscribe_with_id("lobby".to_string(), source.get_next_subscription_id());
    let sb = b.subscribe_with_id("lobby".to_string(), source.get_next_subscription_id());
    assert_ne!(sa.greeting.id, sb.greeting.id);
}

#[test]
fn subscriptions_get_their_ids_and_greetings() {
    let mut b = Broadcaster::default();
    let s1 = b.subscribe_with_id("lobby".to_string(), 7);
    let s2 = b.subscribe_with_id("lobby".to_string(), 8);
    assert_eq!(s1.greeting.id, 7);
    assert_eq!(s2.greeting.id, 8);
    assert_eq!(s1.message, CommandResponse::from_value(Value::from(7i64)));
    assert_eq!(s2.message.values, vec![Value::from(8i64)]);
}

#[test]
fn publish_reaches_every_subscriber_of_the_topic() {
    let mut b = Broadcaster::new();
    let _s1 = b.subscribe_with_id("lobby".to_string(), 1);
    let _s2 = b.subscribe_with_id("lobby".to_string(), 2);
    let _s3 = b.subscribe_with_id("other".to_string(), 3);
    let d = b.publish(&"lobby".to_string());
    assert_eq!(ids(d.iter().map(|x| x.id).collect()), vec![1, 2]);
    assert!(b.publish(&"nobody".to_string()).is_empty());
}

#[test]
fn unsubscribed_is_not_reached_and_second_unsubscribe_fails() {
    let mut b = Broadcaster::new();
    let _s1 = b.subscribe_with_id("lobby".to_string(), 1);
    let _s2 = b.subscribe_with_id("lobby".to_string(), 2);
    assert_eq!(b.unsubscribe("lobby".to_string(), 1).unwrap(), 1);
    let d = b.publish(&"lobby".to_string());
    assert_eq!(ids(d.iter().map(|x| x.id).collect()), vec![2]);
    let e = b.unsubscribe("lobby".to_string(), 1).unwrap_err();
    assert_eq!(e.message(), "Not found: subscription 1");
    assert_eq!(e.status(), 404);
}

#[test]
fn removing_last_subscriber_drops_the_topic() {
    let mut b = Broadcaster::new();
    let _s1 = b.subscribe_with_id("lobby".to_string(), 1);
    assert_eq!(b.remove_subscription("lobby".to_string(), 1), Some(1));
    assert!(b.publish(&"lobby".to_string()).is_empty());
    assert_eq!(b.remove_subscription("lobby".to_string(), 1), None);
}

#[test]
fn dropping_unreachable_subscribers() {
    let mut b = Broadcaster::new();
    let _s1 = b.subscribe_with_id("lobby".to_string(), 1);
    let _s2 = b.subscribe_with_id("lobby".to_string(), 2);
    let _s3 = b.subscribe_with_id("lobby".to_string(), 3);
    b.drop_unreachable(&"lobby".to_string(), vec![1, 3]);
    let d = b.publish(&"lobby".to_string());
    assert_eq!(ids(d.iter().map(|x| x.id).collect()), vec![2]);
}

#[test]
fn pub_sub_should_work() {
    let rt = tokio::runtime::Runtime::new().unwrap();
    rt.block_on(async {
        let mut source = SubscriptionIds::new();
        let mut b = Broadcaster::default();
        let lobby = "lobby".to_string();

        // subscribe; each greeting is sent once and its sender let go
        let Subscription { receiver: mut stream1, greeting, message } =
            b.subscribe_with_id(lobby.clone(), source.get_next_subscription_id());
        greeting.sender.send(Arc::new(message)).await.unwrap();
        drop(greeting);
        let Subscription { receiver: mut stream2, greeting, message } =
            b.subscribe_with_id(lobby.clone(), source.get_next_subscription_id());
        greeting.sender.send(Arc::new(message)).await.unwrap();
        drop(greeting);

        // publish
        let v: Value = "hello".to_string().into();
        let msg = Arc::new(CommandResponse::from_value(v.clone()));
        for d in b.publish(&lobby) {
            d.sender.send(msg.clone()).await.unwrap();
        }

        // subscribers get their ids first, then what was published
        let as_i64 = |r: Arc<CommandResponse>| match r.values[0].value {
            Some(ValueData::Integer(i)) => i,
            _ => panic!("expected an integer id"),
        };
        let id1: i64 = as_i64(stream1.recv().await.unwrap());
        let id2: i64 = as_i64(stream2.recv().await.unwrap());

        assert!(id1 != id2);

        let res1 = stream1.recv().await.unwrap();
        let res2 = stream2.recv().await.unwrap();

        assert_eq!(res1, res2);
        assert_res_ok(&res1, &[v.clone()], &[]);

        // after unsubscribing, nothing more arrives
        let res = b.unsubscribe(lobby.clone(), id1 as _).unwrap();
        assert_eq!(res, id1 as u32);

        // publish
        let v: Value = "world".to_string().into();
        let msg = Arc::new(CommandResponse::from_value(v.clone()));
        for d in b.publish(&lobby) {
            d.sender.send(msg.clone()).await.unwrap();
        }

        assert!(stream1.recv().await.is_none());
        let res2 = stream2.recv().await.unwrap();
        assert_res_ok(&res2, &[v.clone()], &[]);
    });
}
