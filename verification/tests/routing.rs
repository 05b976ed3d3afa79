use server::opensea::asset_path;
use server::security::User;
use server::users::{upsert_step, UpsertStep};
use server::watcher::worker_for_channel;

#[test]
fn asset_paths() {
    assert_eq!(asset_path("0xabc", "17"), "asset/0xabc/17");
}

#[test]
fn workers_by_channel() {
    let channels = vec!["nfts_change".to_string(), "users_change".to_string(), "blocks".to_string()];
    assert_eq!(worker_for_channel(&channels, "nfts_change"), Some(0));
    assert_eq!(worker_for_channel(&channels, "users_change"), Some(1));
    assert_eq!(worker_for_channel(&channels, "blocks"), Some(2));
    assert_eq!(worker_for_channel(&channels, "other"), None);
    assert_eq!(worker_for_channel(&vec![], "nfts_change"), None);
}

#[test]
fn upsert_steps() {
    let user = User { id: 1, address: "0xa".to_string(), is_admin: false };
    match upsert_step(Some(user), "0xa".to_string()) {
        UpsertStep::Existing(u) => assert_eq!(u.id, 1),
        other => panic!("unexpected {:?}", other),
    }
    match upsert_step(None, "0xb".to_string()) {
        UpsertStep::Insert(a) => assert_eq!(a, "0xb"),
        other => panic!("unexpected {:?}", other),
    }
}

