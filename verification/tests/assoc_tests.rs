use imessage_database::assoc::{build_reaction_cache, group_reactions, group_replies, PartMap, ReactionCache};
use imessage_database::messages::Message;

fn blank() -> Message {
    Message {
        rowid: i32::default(),
        guid: String::default(),
        text: None,
        service: Some("iMessage".to_string()),
        handle_id: i32::default(),
        subject: None,
        date: i64::default(),
        date_read: i64::default(),
        date_delivered: i64::default(),
        is_from_me: false,
        is_read: false,
        group_title: None,
        associated_message_guid: None,
        associated_message_type: i32::default(),
        balloon_bundle_id: None,
        expressive_send_style_id: None,
        thread_originator_guid: None,
        thread_originator_part: None,
        chat_id: None,
        num_attachments: 0,
        num_replies: 0,
    }
}

fn reaction(guid: &str, code: i32, target: &str) -> Message {
    let mut m = blank();
    m.guid = guid.to_string();
    m.associated_message_type = code;
    m.associated_message_guid = Some(target.to_string());
    m
}

#[test]
fn cache_groups_reactions_by_target_in_scan_order() {
    let rows = vec![
        reaction("r1", 2000, "p:0/A"),
        blank(),
        reaction("r2", 2003, "p:1/A"),
        reaction("r3", 2001, "bp:B"),
        reaction("not-a-reaction", 0, "p:0/A"),
    ];
    let cache = build_reaction_cache(&rows);
    let for_a = cache.get("A").expect("A has reactions");
    assert_eq!(for_a.as_slice(), &["r1".to_string(), "r2".to_string()]);
    let for_b = cache.get("B").expect("B has reactions");
    assert_eq!(for_b.as_slice(), &["r3".to_string()]);
    assert!(cache.get("C").is_none());
}

#[test]
fn cache_counts_sticker_with_guid_as_reaction() {
    let rows = vec![reaction("s1", 1000, "bp:T")];
    let cache = build_reaction_cache(&rows);
    let for_t = cache.get("T").expect("sticker reacts");
    assert_eq!(for_t.as_slice(), &["s1".to_string()]);
}

#[test]
fn reactions_group_by_sub_part_index() {
    let rows = vec![
        reaction("r1", 2000, "p:0/A"),
        reaction("r2", 2005, "p:2/A"),
        reaction("r3", 3001, "p:0/A"),
        reaction("ignored", 0, "p:0/A"),
    ];
    let map = group_reactions(rows);
    let part0 = map.get(0).expect("part 0 has reactions");
    assert_eq!(part0.len(), 2);
    assert_eq!(part0[0].guid, "r1");
    assert_eq!(part0[1].guid, "r3");
    let part2 = map.get(2).expect("part 2 has a reaction");
    assert_eq!(part2.len(), 1);
    assert_eq!(part2[0].guid, "r2");
    assert!(map.get(1).is_none());
}

#[test]
fn replies_group_by_originator_part_prefix() {
    let mut a = blank();
    a.guid = "a".to_string();
    a.thread_originator_part = Some("0:0:1".to_string());
    let mut b = blank();
    b.guid = "b".to_string();
    b.thread_originator_part = Some("1:0:2".to_string());
    let mut c = blank();
    c.guid = "c".to_string();
    c.thread_originator_part = None;
    let map = group_replies(vec![a, b, c]);
    let part0 = map.get(0).expect("part 0 has replies");
    assert_eq!(part0.len(), 2);
    assert_eq!(part0[0].guid, "a");
    assert_eq!(part0[1].guid, "c");
    let part1 = map.get(1).expect("part 1 has a reply");
    assert_eq!(part1[0].guid, "b");
}

#[test]
fn empty_maps_hold_nothing() {
    let cache = ReactionCache::new();
    assert!(cache.get("anything").is_none());
    let map = PartMap::new();
    assert!(map.get(0).is_none());
    let built = build_reaction_cache(&Vec::new());
    assert!(built.get("").is_none());
}
