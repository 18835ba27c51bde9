use imessage_database::dates::get_offset;
use imessage_database::expressives;
use imessage_database::messages::{BubbleType, Message};
use imessage_database::variants::{CustomBalloon, Reaction, Variant};

fn blank() -> Message {
    Message {
        rowid: i32::default(),
        guid: String::default(),
        text: None,
        service: Some("iMessage".to_string()),
        handle_id: i32::default(),
        subject: None,
        date: i64::default(),
        date_read: i64::default(),
        date_delivered: i64::default(),
        is_from_me: false,
        is_read: false,
        group_title: None,
        associated_message_guid: None,
        associated_message_type: i32::default(),
        balloon_bundle_id: None,
        expressive_send_style_id: None,
        thread_originator_guid: None,
        thread_originator_part: None,
        chat_id: None,
        num_attachments: 0,
        num_replies: 0,
    }
}

#[test]
fn can_gen_message() {
    blank();
}

#[test]
fn can_get_message_body_single_emoji() {
    let mut m = blank();
    m.text = Some("🙈".to_string());
    assert_eq!(m.body(), vec![BubbleType::Text("🙈")]);
}

#[test]
fn can_get_message_body_multiple_emoji() {
    let mut m = blank();
    m.text = Some("🙈🙈🙈".to_string());
    assert_eq!(m.body(), vec![BubbleType::Text("🙈🙈🙈")]);
}

#[test]
fn can_get_message_body_text_only() {
    let mut m = blank();
    m.text = Some("Hello world".to_string());
    assert_eq!(m.body(), vec![BubbleType::Text("Hello world")]);
}

#[test]
fn can_get_message_body_attachment_text() {
    let mut m = blank();
    m.text = Some("\u{FFFC}Hello world".to_string());
    assert_eq!(
        m.body(),
        vec![BubbleType::Attachment, BubbleType::Text("Hello world")]
    );
}

#[test]
fn can_get_message_body_app_text() {
    let mut m = blank();
    m.text = Some("\u{FFFD}Hello world".to_string());
    assert_eq!(
        m.body(),
        vec![BubbleType::App, BubbleType::Text("Hello world")]
    );
}

#[test]
fn can_get_message_body_app_attachment_text_mixed_start_text() {
    let mut m = blank();
    m.text = Some("One\u{FFFD}\u{FFFC}Two\u{FFFC}Three\u{FFFC}four".to_string());
    assert_eq!(
        m.body(),
        vec![
            BubbleType::Text("One"),
            BubbleType::App,
            BubbleType::Attachment,
            BubbleType::Text("Two"),
            BubbleType::Attachment,
            BubbleType::Text("Three"),
            BubbleType::Attachment,
            BubbleType::Text("four")
        ]
    );
}

#[test]
fn can_get_message_body_app_attachment_text_mixed_start_app() {
    let mut m = blank();
    m.text = Some("\u{FFFD}\u{FFFC}Two\u{FFFC}Three\u{FFFC}".to_string());
    assert_eq!(
        m.body(),
        vec![
            BubbleType::App,
            BubbleType::Attachment,
            BubbleType::Text("Two"),
            BubbleType::Attachment,
            BubbleType::Text("Three"),
            BubbleType::Attachment
        ]
    );
}

#[test]
fn can_get_time_date_read_after_date() {
    // Get offset
    let offset = get_offset();

    // Create message
    let mut message = blank();
    // May 17, 2022  8:29:42 PM
    message.date = 674526582885055488;
    // May 17, 2022  8:29:42 PM
    message.date_delivered = 674526582885055488;
    // May 17, 2022  9:30:31 PM
    message.date_read = 674530231992568192;

    assert_eq!(
        message.time_until_read(&offset),
        Some("1 hour, 49 seconds".to_string())
    )
}

#[test]
fn can_get_time_date_read_before_date() {
    // Get offset
    let offset = get_offset();

    // Create message
    let mut message = blank();
    // May 17, 2022  9:30:31 PM
    message.date = 674530231992568192;
    // May 17, 2022  9:30:31 PM
    message.date_delivered = 674530231992568192;
    // May 17, 2022  8:29:42 PM
    message.date_read = 674526582885055488;

    assert_eq!(message.time_until_read(&offset), None)
}

#[test]
fn can_get_message_expression_none() {
    let m = blank();
    assert_eq!(m.get_expressive(), expressives::Expressive::Normal);
}

#[test]
fn can_get_message_expression_bubble() {
    let mut m = blank();
    m.expressive_send_style_id = Some("com.apple.MobileSMS.expressivesend.gentle".to_string());
    assert_eq!(
        m.get_expressive(),
        expressives::Expressive::Bubble(expressives::BubbleEffect::Gentle)
    );
}

#[test]
fn can_get_message_expression_screen() {
    let mut m = blank();
    m.expressive_send_style_id =
        Some("com.apple.messages.effect.CKHappyBirthdayEffect".to_string());
    assert_eq!(
        m.get_expressive(),
        expressives::Expressive::Screen(expressives::ScreenEffect::Balloons)
    );
}

#[test]
fn can_get_no_balloon_bundle_id() {
    let m = blank();
    assert_eq!(m.parse_balloon_bundle_id(), None)
}

#[test]
fn can_get_balloon_bundle_id_os() {
    let mut m = blank();
    m.balloon_bundle_id = Some("com.apple.Handwriting.HandwritingProvider".to_owned());
    assert_eq!(
        m.parse_balloon_bundle_id(),
        Some("com.apple.Handwriting.HandwritingProvider")
    )
}

#[test]
fn can_get_balloon_bundle_id_url() {
    let mut m = blank();
    m.balloon_bundle_id = Some("com.apple.messages.URLBalloonProvider".to_owned());
    assert_eq!(
        m.parse_balloon_bundle_id(),
        Some("com.apple.messages.URLBalloonProvider")
    )
}

#[test]
fn can_get_balloon_bundle_id_apple() {
    let mut m = blank();
    m.balloon_bundle_id = Some("com.apple.messages.MSMessageExtensionBalloonPlugin:0000000000:com.apple.PassbookUIService.PeerPaymentMessagesExtension".to_owned());
    assert_eq!(
        m.parse_balloon_bundle_id(),
        Some("com.apple.PassbookUIService.PeerPaymentMessagesExtension")
    )
}

#[test]
fn can_get_balloon_bundle_id_third_party() {
    let mut m = blank();
    m.balloon_bundle_id = Some("com.apple.messages.MSMessageExtensionBalloonPlugin:QPU8QS3E62:com.contextoptional.OpenTable.Messages".to_owned());
    assert_eq!(
        m.parse_balloon_bundle_id(),
        Some("com.contextoptional.OpenTable.Messages")
    );
    assert!(matches!(
        m.variant(),
        Variant::App(CustomBalloon::Application(
            "com.contextoptional.OpenTable.Messages"
        ))
    ));
}

#[test]
fn segments_plain_text_is_single_trimmed_run() {
    let mut m = blank();
    m.text = Some("  padded out  ".to_string());
    assert_eq!(m.body(), vec![BubbleType::Text("padded out")]);
}

#[test]
fn segments_never_hold_empty_text() {
    let mut m = blank();
    m.text = Some(" \u{FFFC} ".to_string());
    assert_eq!(m.body(), vec![BubbleType::Attachment]);
}

#[test]
fn segments_bundle_id_short_circuits_text() {
    let mut m = blank();
    m.balloon_bundle_id = Some("com.apple.messages.URLBalloonProvider".to_owned());
    m.text = Some("One\u{FFFC}Two".to_string());
    assert_eq!(m.body(), vec![BubbleType::App]);
}

#[test]
fn classify_sticker_with_balloon_guid() {
    let mut m = blank();
    m.associated_message_type = 1000;
    m.associated_message_guid = Some("bp:XYZ".to_string());
    assert!(matches!(m.variant(), Variant::Sticker(0)));
}

#[test]
fn classify_reaction_added_disliked() {
    let mut m = blank();
    m.associated_message_type = 2002;
    m.associated_message_guid = Some("p:1/ABCD-EFGH".to_string());
    assert!(matches!(
        m.variant(),
        Variant::Reaction(1, true, Reaction::Disliked)
    ));
}

#[test]
fn classify_reaction_removed_emphasized() {
    let mut m = blank();
    m.associated_message_type = 3004;
    m.associated_message_guid = Some("bp:ABCD-EFGH".to_string());
    assert!(matches!(
        m.variant(),
        Variant::Reaction(0, false, Reaction::Emphasized)
    ));
}

#[test]
fn classify_unknown_code() {
    let mut m = blank();
    m.associated_message_type = 9999;
    assert!(matches!(m.variant(), Variant::Unknown(9999)));
}

#[test]
fn decode_associated_guid_indexed() {
    let mut m = blank();
    m.associated_message_guid = Some("p:2/ABCD".to_string());
    assert_eq!(m.clean_associated_guid(), Some((2, "ABCD")));
}

#[test]
fn decode_associated_guid_balloon() {
    let mut m = blank();
    m.associated_message_guid = Some("bp:XYZ".to_string());
    assert_eq!(m.clean_associated_guid(), Some((0, "XYZ")));
}

#[test]
fn decode_associated_guid_bare() {
    let mut m = blank();
    m.associated_message_guid = Some("PLAINGUID".to_string());
    assert_eq!(m.clean_associated_guid(), Some((0, "PLAINGUID")));
}

#[test]
fn decode_associated_guid_unparseable_index_defaults_to_zero() {
    let mut m = blank();
    m.associated_message_guid = Some("p:x/TARGET".to_string());
    assert_eq!(m.clean_associated_guid(), Some((0, "TARGET")));
}

#[test]
fn classify_peer_payment_extension() {
    let mut m = blank();
    m.balloon_bundle_id = Some("com.apple.messages.MSMessageExtensionBalloonPlugin:0000000000:com.apple.PassbookUIService.PeerPaymentMessagesExtension".to_owned());
    assert!(matches!(m.variant(), Variant::App(CustomBalloon::ApplePay)));
}

#[test]
fn classify_music_url_text() {
    let mut m = blank();
    m.balloon_bundle_id = Some("com.apple.messages.URLBalloonProvider".to_owned());
    m.text = Some("https://music.apple.com/something".to_string());
    assert!(matches!(m.variant(), Variant::App(CustomBalloon::Music)));
    assert!(m.is_url());
}

#[test]
fn expression_unknown_style_is_kept_verbatim() {
    let mut m = blank();
    m.expressive_send_style_id = Some("com.example.mystery".to_string());
    assert_eq!(
        m.get_expressive(),
        expressives::Expressive::Unknown("com.example.mystery")
    );
}

#[test]
fn reply_index_parses_prefix_before_colon() {
    let mut m = blank();
    m.thread_originator_part = Some("3:0:0".to_string());
    assert_eq!(m.get_reply_index(), 3);
    let mut bare = blank();
    bare.thread_originator_part = None;
    assert_eq!(bare.get_reply_index(), 0);
    let mut junk = blank();
    junk.thread_originator_part = Some("junk".to_string());
    assert_eq!(junk.get_reply_index(), 0);
}

#[test]
fn sticker_with_guid_counts_as_reaction() {
    let mut m = blank();
    m.associated_message_type = 1000;
    m.associated_message_guid = Some("bp:XYZ".to_string());
    assert!(m.is_sticker());
    assert!(m.is_reaction());
    let mut bare = blank();
    bare.associated_message_type = 1000;
    assert!(bare.is_sticker());
    assert!(!bare.is_reaction());
}

#[test]
fn decode_associated_guid_target_stops_at_next_slash() {
    let mut m = blank();
    m.associated_message_guid = Some("p:1/AB/CD".to_string());
    assert_eq!(m.clean_associated_guid(), Some((1, "AB")));
}
