use not_redis::client::Client;
use std::sync::{Arc, Mutex};

#[test]
fn concurrent_sadd_contention_scenario() {
    let runtime = tokio::runtime::Builder::new_multi_thread().worker_threads(4).build().unwrap();
    let client = Arc::new(Mutex::new(Client::new()));
    let added: i64 = runtime.block_on(async {
        let mut tasks = Vec::new();
        for _ in 0..100 {
            let client = Arc::clone(&client);
            tasks.push(tokio::spawn(async move {
                let mut store = client.lock().unwrap();
                store.sadd("s", "m").unwrap()
            }));
        }
        let mut added = 0;
        for task in tasks {
            added += task.await.unwrap();
        }
        added
    });
    assert_eq!(added, 1);
    let mut store = client.lock().unwrap();
    assert_eq!(store.smembers::<_, Vec<String>>("s"), Ok(vec!["m".to_string()]));
    let count = not_redis::sets::scard(store.engine_mut(), b"s");
    assert_eq!(count, Ok(not_redis::value::Value::Int(1)));
}

#[test]
fn concurrent_writers_and_readers_see_only_written_values() {
    let runtime = tokio::runtime::Builder::new_multi_thread().worker_threads(4).build().unwrap();
    let client = Arc::new(Mutex::new(Client::new()));
    let seen: Vec<Option<i64>> = runtime.block_on(async {
        let mut tasks = Vec::new();
        for n in 0..50i64 {
            let writer = Arc::clone(&client);
            tasks.push(tokio::spawn(async move {
                writer.lock().unwrap().set("k", n).unwrap();
                None
            }));
            let reader = Arc::clone(&client);
            tasks.push(tokio::spawn(async move {
                reader.lock().unwrap().get::<_, Option<i64>>("k").unwrap()
            }));
        }
        let mut seen = Vec::new();
        for task in tasks {
            seen.push(task.await.unwrap());
        }
        seen
    });
    for value in seen.into_iter().flatten() {
        assert!((0..50).contains(&value));
    }
}
