//! The decoded message record and the logic that derives presentation data
//! from it: content segmentation around the two sentinel code points,
//! variant classification, association-identifier decoding, and the
//! read-delay computation.

use vstd::prelude::*;

verus! {

use vstd::string::StrSliceExecFns;
use crate::dates::{
    spec_db_seconds, spec_duration_string, to_local_time, readable_diff, LocalTimestamp,
};
use crate::expressives::{spec_expressive, BubbleEffect, Expressive, ScreenEffect};
use crate::strutil::{
    find_char, lemma_spec_find, parse_usize_range, spec_find, spec_parse_index, spec_starts_with,
    spec_trim, str_eq, str_starts_with, trim_bounds,
};
use crate::variants::{BalloonView, CustomBalloon, Reaction, Variant, VariantView};

/// Sentinel code point marking the position of an attachment.
pub const ATTACHMENT_CHAR: char = '\u{FFFC}';

/// Sentinel code point marking the position of an embedded app payload.
pub const APP_CHAR: char = '\u{FFFD}';

/// Broad category of a message: standalone, thread originator, or reply.
#[derive(Debug)]
pub enum MessageType<'a> {
    /// A normal message not associated with any others
    Normal(Variant<'a>, Expressive<'a>),
    /// A message that has replies
    Thread(Variant<'a>, Expressive<'a>),
    /// A message that is a reply to another message
    Reply(Variant<'a>, Expressive<'a>),
}

/// One ordered piece of a message's visible content.
#[derive(Debug, PartialEq, Eq)]
pub enum BubbleType<'a> {
    /// A run of ordinary text
    Text(&'a str),
    /// An attachment placeholder
    Attachment,
    /// An app-payload placeholder
    App,
}

/// The service a message was sent from.
#[derive(Debug)]
pub enum Service<'a> {
    /// An iMessage
    #[allow(non_camel_case_types)]
    iMessage,
    /// A message sent as SMS
    SMS,
    /// Any other type of message
    Other(&'a str),
    /// Used when the service field is not set
    Unknown,
}

/// Mathematical image of `BubbleType`, with text runs as character
/// sequences.
pub enum Segment {
    Text(Seq<char>),
    Attachment,
    App,
}

/// Mathematical image of `Service`.
pub enum ServiceView {
    #[allow(non_camel_case_types)]
    iMessageService,
    Sms,
    Other(Seq<char>),
    Unknown,
}

impl<'a> View for BubbleType<'a> {
    type V = Segment;

    open spec fn view(&self) -> Segment {
        match self {
            BubbleType::Text(s) => Segment::Text(s@),
            BubbleType::Attachment => Segment::Attachment,
            BubbleType::App => Segment::App,
        }
    }
}

impl<'a> View for Service<'a> {
    type V = ServiceView;

    open spec fn view(&self) -> ServiceView {
        match self {
            Service::iMessage => ServiceView::iMessageService,
            Service::SMS => ServiceView::Sms,
            Service::Other(s) => ServiceView::Other(s@),
            Service::Unknown => ServiceView::Unknown,
        }
    }
}

/// One decoded row of the message table.
#[derive(Debug)]
pub struct Message {
    pub rowid: i32,
    pub guid: String,
    pub text: Option<String>,
    pub service: Option<String>,
    pub handle_id: i32,
    pub subject: Option<String>,
    pub date: i64,
    pub date_read: i64,
    pub date_delivered: i64,
    pub is_from_me: bool,
    pub is_read: bool,
    pub group_title: Option<String>,
    pub associated_message_guid: Option<String>,
    pub associated_message_type: i32,
    pub balloon_bundle_id: Option<String>,
    pub expressive_send_style_id: Option<String>,
    pub thread_originator_guid: Option<String>,
    pub thread_originator_part: Option<String>,
    pub chat_id: Option<i32>,
    pub num_attachments: i32,
    pub num_replies: i32,
}

/// The character sequence an optional string holds.
pub open spec fn view_opt(o: Option<String>) -> Option<Seq<char>> {
    match o {
        Some(s) => Some(s@),
        None => None,
    }
}

impl Message {
    /// Get a vector of the message's ordered content segments. Attachments
    /// stand as one sentinel each, app payloads as another; a message with
    /// an extension-bundle identifier is a single app-payload segment
    /// regardless of its text.
    pub fn body<'a>(&'a self) -> (r: Vec<BubbleType<'a>>)
        ensures
            self.balloon_bundle_id is Some ==> segs_view(r@) == seq![Segment::App],
            self.balloon_bundle_id is None && self.text is None ==> r@.len() == 0,
            self.balloon_bundle_id is None ==> (self.text matches Some(t) ==> segs_view(r@)
                == spec_segments(t@)),
    {
        if self.balloon_bundle_id.is_some() {
            let mut out: Vec<BubbleType<'a>> = Vec::new();
            out.push(BubbleType::App);
            proof {
                assert(segs_view(out@) =~= seq![Segment::App]);
            }
            return out;
        }
        match &self.text {
            Some(text) => segment_text(text.as_str()),
            None => Vec::new(),
        }
    }

    /// `true` if the message is a response to a thread, else `false`
    pub fn is_reply(&self) -> (r: bool)
        ensures
            r == (self.thread_originator_guid is Some),
    {
        self.thread_originator_guid.is_some()
    }

    /// `true` if the message renames a thread, else `false`
    pub fn is_annoucement(&self) -> (r: bool)
        ensures
            r == (self.group_title is Some),
    {
        self.group_title.is_some()
    }

    /// `true` if the message has an expressive presentation, else `false`
    pub fn is_expressive(&self) -> (r: bool)
        ensures
            r == (self.expressive_send_style_id is Some),
    {
        self.expressive_send_style_id.is_some()
    }

    /// `true` if the message has attachments, else `false`
    pub fn has_attachments(&self) -> (r: bool)
        ensures
            r == (self.num_attachments > 0),
    {
        self.num_attachments > 0
    }

    /// `true` if the message begins a thread, else `false`
    pub fn has_replies(&self) -> (r: bool)
        ensures
            r == (self.num_replies > 0),
    {
        self.num_replies > 0
    }

    /// Well-formedness of the raw association identifier, if any.
    pub open spec fn assoc_wf(&self) -> bool {
        match self.associated_message_guid {
            Some(g) => wf_assoc(g@),
            None => true,
        }
    }

    /// The variant this message's fields classify to.
    pub open spec fn spec_variant_of(&self) -> VariantView {
        spec_variant(
            self.associated_message_type as int,
            view_opt(self.balloon_bundle_id),
            view_opt(self.text),
            view_opt(self.associated_message_guid),
        )
    }

    /// A message reacts to another when its variant is a reaction, or it
    /// is a sticker that carries an association identifier.
    pub open spec fn spec_is_reaction(&self) -> bool {
        (self.spec_variant_of() matches VariantView::Reaction(_, _, _)) || ((
        self.spec_variant_of() matches VariantView::Sticker(_))
            && self.associated_message_guid is Some)
    }

    /// Parse the app's effective bundle identifier out of the balloon's
    /// raw bundle identifier.
    pub fn parse_balloon_bundle_id<'a>(&'a self) -> (r: Option<&'a str>)
        ensures
            opt_str_view(r) == spec_parse_balloon(view_opt(self.balloon_bundle_id)),
    {
        match &self.balloon_bundle_id {
            Some(bundle) => {
                let s = bundle.as_str();
                let n = s.unicode_len();
                proof {
                    lemma_spec_find(s@, 0, ':');
                }
                let k1 = find_char(s, 0, ':');
                if k1 == n {
                    return Some(s);
                }
                proof {
                    lemma_spec_find(s@, k1 + 1, ':');
                }
                let k2 = find_char(s, k1 + 1, ':');
                if k2 == n {
                    return None;
                }
                proof {
                    lemma_spec_find(s@, k2 + 1, ':');
                }
                let k3 = find_char(s, k2 + 1, ':');
                Some(s.substring_char(k2 + 1, k3))
            },
            None => None,
        }
    }

    /// Decode the association identifier into the sub-part index and the
    /// target message's guid.
    pub fn clean_associated_guid<'a>(&'a self) -> (r: Option<(usize, &'a str)>)
        requires
            self.assoc_wf(),
        ensures
            r is Some <==> self.associated_message_guid is Some,
            self.associated_message_guid matches Some(g) ==> (r matches Some(p) && p.0 as int
                == spec_decode_assoc(g@).0 && p.1@ == spec_decode_assoc(g@).1),
    {
        match &self.associated_message_guid {
            Some(guid) => {
                let s = guid.as_str();
                let n = s.unicode_len();
                if str_starts_with(s, "p:") {
                    proof {
                        reveal_strlit("p:");
                        lemma_spec_find(s@, 0, '/');
                        assert(s@.subrange(0, 2)[0] == s@[0]);
                        assert(s@.subrange(0, 2)[1] == s@[1]);
                        assert(s@[0] == 'p' && s@[1] == ':');
                    }
                    let k = find_char(s, 0, '/');
                    let idx: usize = match parse_usize_range(s, 2, k) {
                        Some(v) => v,
                        None => 0,
                    };
                    proof {
                        lemma_spec_find(s@, k + 1, '/');
                    }
                    let k2 = find_char(s, k + 1, '/');
                    Some((idx, s.substring_char(k + 1, k2)))
                } else if str_starts_with(s, "bp:") {
                    proof {
                        reveal_strlit("bp:");
                    }
                    Some((0, s.substring_char(3, n)))
                } else {
                    Some((0, s))
                }
            },
            None => None,
        }
    }

    /// Parse the index of a reaction from its associated GUID field.
    pub fn reaction_index(&self) -> (r: usize)
        requires
            self.assoc_wf(),
        ensures
            r as int == spec_reaction_index(view_opt(self.associated_message_guid)),
    {
        match self.clean_associated_guid() {
            Some((x, _)) => x,
            None => 0,
        }
    }

    /// Get the index of the part of a message a reply is pointing to.
    pub fn get_reply_index(&self) -> (r: usize)
        ensures
            r as int == spec_reply_index(view_opt(self.thread_originator_part)),
    {
        match &self.thread_originator_part {
            Some(parts) => {
                let s = parts.as_str();
                proof {
                    lemma_spec_find(s@, 0, ':');
                }
                let k = find_char(s, 0, ':');
                match parse_usize_range(s, 0, k) {
                    Some(v) => v,
                    None => 0,
                }
            },
            None => 0,
        }
    }

    /// Get the variant of a message: its semantic classification.
    pub fn variant<'a>(&'a self) -> (r: Variant<'a>)
        requires
            self.assoc_wf(),
        ensures
            r@ == self.spec_variant_of(),
    {
        let code = self.associated_message_type;
        if code == 0 || code == 2 || code == 3 {
            match self.parse_balloon_bundle_id() {
                Some(bundle_id) => {
                    if str_eq(bundle_id, "com.apple.messages.URLBalloonProvider") {
                        match &self.text {
                            Some(text) => {
                                if str_starts_with(text.as_str(), "https://music.apple") {
                                    Variant::App(CustomBalloon::Music)
                                } else {
                                    Variant::App(CustomBalloon::URL)
                                }
                            },
                            None => Variant::App(CustomBalloon::URL),
                        }
                    } else if str_eq(bundle_id, "com.apple.Handwriting.HandwritingProvider") {
                        Variant::App(CustomBalloon::Handwriting)
                    } else if str_eq(
                        bundle_id,
                        "com.apple.PassbookUIService.PeerPaymentMessagesExtension",
                    ) {
                        Variant::App(CustomBalloon::ApplePay)
                    } else if str_eq(bundle_id, "com.apple.ActivityMessagesApp.MessagesExtension") {
                        Variant::App(CustomBalloon::Fitness)
                    } else if str_eq(bundle_id, "com.apple.mobileslideshow.PhotosMessagesApp") {
                        Variant::App(CustomBalloon::Slideshow)
                    } else {
                        Variant::App(CustomBalloon::Application(bundle_id))
                    }
                },
                None => Variant::Normal,
            }
        } else if code == 1000 {
            Variant::Sticker(self.reaction_index())
        } else if code == 2000 {
            Variant::Reaction(self.reaction_index(), true, Reaction::Loved)
        } else if code == 2001 {
            Variant::Reaction(self.reaction_index(), true, Reaction::Liked)
        } else if code == 2002 {
            Variant::Reaction(self.reaction_index(), true, Reaction::Disliked)
        } else if code == 2003 {
            Variant::Reaction(self.reaction_index(), true, Reaction::Laughed)
        } else if code == 2004 {
            Variant::Reaction(self.reaction_index(), true, Reaction::Emphasized)
        } else if code == 2005 {
            Variant::Reaction(self.reaction_index(), true, Reaction::Questioned)
        } else if code == 3000 {
            Variant::Reaction(self.reaction_index(), false, Reaction::Loved)
        } else if code == 3001 {
            Variant::Reaction(self.reaction_index(), false, Reaction::Liked)
        } else if code == 3002 {
            Variant::Reaction(self.reaction_index(), false, Reaction::Disliked)
        } else if code == 3003 {
            Variant::Reaction(self.reaction_index(), false, Reaction::Laughed)
        } else if code == 3004 {
            Variant::Reaction(self.reaction_index(), false, Reaction::Emphasized)
        } else if code == 3005 {
            Variant::Reaction(self.reaction_index(), false, Reaction::Questioned)
        } else {
            Variant::Unknown(code)
        }
    }

    /// `true` if the message is a reaction to another message, else `false`
    pub fn is_reaction(&self) -> (r: bool)
        requires
            self.assoc_wf(),
        ensures
            r == self.spec_is_reaction(),
    {
        let is_reaction_variant = matches!(self.variant(), Variant::Reaction(..));
        is_reaction_variant || (self.is_sticker() && self.associated_message_guid.is_some())
    }

    /// `true` if the message is a sticker, else `false`
    pub fn is_sticker(&self) -> (r: bool)
        requires
            self.assoc_wf(),
        ensures
            r == (self.spec_variant_of() matches VariantView::Sticker(_)),
    {
        matches!(self.variant(), Variant::Sticker(_))
    }

    /// `true` if the message has a URL preview, else `false`
    pub fn is_url(&self) -> (r: bool)
        requires
            self.assoc_wf(),
        ensures
            r == ((self.spec_variant_of() matches VariantView::App(BalloonView::URL)) || (
            self.spec_variant_of() matches VariantView::App(BalloonView::Music))),
    {
        matches!(
            self.variant(),
            Variant::App(CustomBalloon::URL) | Variant::App(CustomBalloon::Music)
        )
    }

    /// Calculates the date a message was written to the database, as a
    /// local calendar instant.
    pub fn date(&self, offset: &i64) -> (r: Option<LocalTimestamp>)
        requires
            i64::MIN <= spec_db_seconds(self.date, *offset) <= i64::MAX,
        ensures
            r matches Some(t) ==> t.seconds == spec_db_seconds(self.date, *offset),
    {
        to_local_time(self.date, *offset)
    }

    /// Calculates the date a message was marked as delivered.
    pub fn date_delivered(&self, offset: &i64) -> (r: Option<LocalTimestamp>)
        requires
            i64::MIN <= spec_db_seconds(self.date_delivered, *offset) <= i64::MAX,
        ensures
            r matches Some(t) ==> t.seconds == spec_db_seconds(self.date_delivered, *offset),
    {
        to_local_time(self.date_delivered, *offset)
    }

    /// Calculates the date a message was marked as read.
    pub fn date_read(&self, offset: &i64) -> (r: Option<LocalTimestamp>)
        requires
            i64::MIN <= spec_db_seconds(self.date_read, *offset) <= i64::MAX,
        ensures
            r matches Some(t) ==> t.seconds == spec_db_seconds(self.date_read, *offset),
    {
        to_local_time(self.date_read, *offset)
    }

    /// Gets the time from authoring until the message was read (for a
    /// received message) or delivered (for a sent one); absent when the
    /// needed timestamps are unset or a calendar conversion fails.
    pub fn time_until_read(&self, offset: &i64) -> (r: Option<String>)
        requires
            i64::MIN <= spec_db_seconds(self.date, *offset) <= i64::MAX,
            i64::MIN <= spec_db_seconds(self.date_read, *offset) <= i64::MAX,
            i64::MIN <= spec_db_seconds(self.date_delivered, *offset) <= i64::MAX,
        ensures
            !self.is_from_me && self.date_read != 0 && self.date != 0 ==> (r matches Some(s)
                ==> spec_db_seconds(self.date_read, *offset) >= spec_db_seconds(self.date, *offset)
                && s@ == spec_duration_string(
                spec_db_seconds(self.date_read, *offset) - spec_db_seconds(self.date, *offset),
            )),
            self.is_from_me && self.date_delivered != 0 && self.date != 0 ==> (r matches Some(s)
                ==> spec_db_seconds(self.date_delivered, *offset) >= spec_db_seconds(
                self.date,
                *offset,
            ) && s@ == spec_duration_string(
                spec_db_seconds(self.date_delivered, *offset) - spec_db_seconds(
                    self.date,
                    *offset,
                ),
            )),
            !(!self.is_from_me && self.date_read != 0 && self.date != 0) && !(self.is_from_me
                && self.date_delivered != 0 && self.date != 0) ==> r is None,
    {
        if !self.is_from_me && self.date_read != 0 && self.date != 0 {
            match (self.date(offset), self.date_read(offset)) {
                (Some(start), Some(end)) => readable_diff(start, end),
                _ => None,
            }
        } else if self.is_from_me && self.date_delivered != 0 && self.date != 0 {
            match (self.date(offset), self.date_delivered(offset)) {
                (Some(start), Some(end)) => readable_diff(start, end),
                _ => None,
            }
        } else {
            None
        }
    }

    /// Determine the service the message was sent from.
    pub fn service<'a>(&'a self) -> (r: Service<'a>)
        ensures
            r@ == spec_service(view_opt(self.service)),
    {
        match &self.service {
            Some(name) => {
                if str_eq(name.as_str(), "iMessage") {
                    Service::iMessage
                } else if str_eq(name.as_str(), "SMS") {
                    Service::SMS
                } else {
                    Service::Other(name.as_str())
                }
            },
            None => Service::Unknown,
        }
    }

    /// Determine which expressive the message was sent with.
    pub fn get_expressive<'a>(&'a self) -> (r: Expressive<'a>)
        ensures
            r@ == spec_expressive(view_opt(self.expressive_send_style_id)),
    {
        match &self.expressive_send_style_id {
            Some(content) => {
                let s = content.as_str();
                if str_eq(s, "com.apple.MobileSMS.expressivesend.gentle") {
                    Expressive::Bubble(BubbleEffect::Gentle)
                } else if str_eq(s, "com.apple.MobileSMS.expressivesend.impact") {
                    Expressive::Bubble(BubbleEffect::Slam)
                } else if str_eq(s, "com.apple.MobileSMS.expressivesend.invisibleink") {
                    Expressive::Bubble(BubbleEffect::InvisibleInk)
                } else if str_eq(s, "com.apple.MobileSMS.expressivesend.loud") {
                    Expressive::Bubble(BubbleEffect::Loud)
                } else if str_eq(s, "com.apple.messages.effect.CKConfettiEffect") {
                    Expressive::Screen(ScreenEffect::Confetti)
                } else if str_eq(s, "com.apple.messages.effect.CKEchoEffect") {
                    Expressive::Screen(ScreenEffect::Echo)
                } else if str_eq(s, "com.apple.messages.effect.CKFireworksEffect") {
                    Expressive::Screen(ScreenEffect::Fireworks)
                } else if str_eq(s, "com.apple.messages.effect.CKHappyBirthdayEffect") {
                    Expressive::Screen(ScreenEffect::Balloons)
                } else if str_eq(s, "com.apple.messages.effect.CKHeartEffect") {
                    Expressive::Screen(ScreenEffect::Heart)
                } else if str_eq(s, "com.apple.messages.effect.CKLasersEffect") {
                    Expressive::Screen(ScreenEffect::Lasers)
                } else if str_eq(s, "com.apple.messages.effect.CKShootingStarEffect") {
                    Expressive::Screen(ScreenEffect::ShootingStar)
                } else if str_eq(s, "com.apple.messages.effect.CKSparklesEffect") {
                    Expressive::Screen(ScreenEffect::Sparkles)
                } else if str_eq(s, "com.apple.messages.effect.CKSpotlightEffect") {
                    Expressive::Screen(ScreenEffect::Spotlight)
                } else {
                    Expressive::Unknown(s)
                }
            },
            None => Expressive::Normal,
        }
    }
}

/// The effective extension identifier a raw colon-delimited bundle
/// identifier resolves to: the sole part when there is no colon, the third
/// part when there are at least three parts, absent otherwise.
pub open spec fn spec_effective_bundle_id(s: Seq<char>) -> Option<Seq<char>> {
    let k1 = spec_find(s, 0, ':');
    if k1 == s.len() {
        Some(s)
    } else {
        let k2 = spec_find(s, k1 + 1, ':');
        if k2 == s.len() {
            None
        } else {
            let k3 = spec_find(s, k2 + 1, ':');
            Some(s.subrange(k2 + 1, k3))
        }
    }
}

/// The effective extension identifier of an optional raw bundle identifier.
pub open spec fn spec_parse_balloon(o: Option<Seq<char>>) -> Option<Seq<char>> {
    match o {
        Some(b) => spec_effective_bundle_id(b),
        None => None,
    }
}

/// The character sequence an optional string slice holds.
pub open spec fn opt_str_view<'a>(o: Option<&'a str>) -> Option<Seq<char>> {
    match o {
        Some(s) => Some(s@),
        None => None,
    }
}

/// A decoded association identifier: the sub-part index it addresses and
/// the guid of the target message. `p:<index>/<target>` carries both (the
/// target runs to the next `/`, if any); `bp:<target>` and a bare target
/// address sub-part zero.
pub open spec fn spec_decode_assoc(g: Seq<char>) -> (int, Seq<char>) {
    if spec_starts_with(g, "p:"@) {
        let k = spec_find(g, 0, '/');
        let idx = match spec_parse_index(g.subrange(2, k)) {
            Some(v) => v,
            None => 0,
        };
        (idx, g.subrange(k + 1, spec_find(g, k + 1, '/')))
    } else if spec_starts_with(g, "bp:"@) {
        (0, g.subrange(3, g.len() as int))
    } else {
        (0, g)
    }
}

/// An association identifier is well-formed when the `p:` form carries its
/// `/` separator; without it there is no target part to decode.
pub open spec fn wf_assoc(g: Seq<char>) -> bool {
    spec_starts_with(g, "p:"@) ==> spec_find(g, 0, '/') < g.len()
}

/// The sub-part index an optional association identifier addresses.
pub open spec fn spec_reaction_index(assoc: Option<Seq<char>>) -> int {
    match assoc {
        Some(g) => spec_decode_assoc(g).0,
        None => 0,
    }
}

/// The sub-part index a reply's thread-originator-part specifier
/// addresses: the decimal value before the first `:`, or zero when the
/// specifier is absent or unparseable.
pub open spec fn spec_reply_index(part: Option<Seq<char>>) -> int {
    match part {
        Some(p) => {
            let k = spec_find(p, 0, ':');
            match spec_parse_index(p.subrange(0, k)) {
                Some(v) => v,
                None => 0,
            }
        },
        None => 0,
    }
}

/// The reaction kind of a reaction code's last decimal digit.
pub open spec fn spec_reaction_kind(k: int) -> Reaction {
    if k == 0 {
        Reaction::Loved
    } else if k == 1 {
        Reaction::Liked
    } else if k == 2 {
        Reaction::Disliked
    } else if k == 3 {
        Reaction::Laughed
    } else if k == 4 {
        Reaction::Emphasized
    } else {
        Reaction::Questioned
    }
}

/// The balloon kind an effective extension identifier denotes; a URL
/// balloon whose text starts with the music-service prefix is Music.
pub open spec fn spec_balloon(eid: Seq<char>, text: Option<Seq<char>>) -> BalloonView {
    if eid == "com.apple.messages.URLBalloonProvider"@ {
        match text {
            Some(t) => if spec_starts_with(t, "https://music.apple"@) {
                BalloonView::Music
            } else {
                BalloonView::URL
            },
            None => BalloonView::URL,
        }
    } else if eid == "com.apple.Handwriting.HandwritingProvider"@ {
        BalloonView::Handwriting
    } else if eid == "com.apple.PassbookUIService.PeerPaymentMessagesExtension"@ {
        BalloonView::ApplePay
    } else if eid == "com.apple.ActivityMessagesApp.MessagesExtension"@ {
        BalloonView::Fitness
    } else if eid == "com.apple.mobileslideshow.PhotosMessagesApp"@ {
        BalloonView::Slideshow
    } else {
        BalloonView::Application(eid)
    }
}

/// The variant a message's numeric code, bundle identifier, text and
/// association identifier classify to. Standard codes carry a balloon when
/// a bundle identifier resolves; 1000 is a sticker; 2000–2005 add and
/// 3000–3005 remove a reaction of the kind the last digit names; anything
/// else is unknown.
pub open spec fn spec_variant(
    code: int,
    bundle: Option<Seq<char>>,
    text: Option<Seq<char>>,
    assoc: Option<Seq<char>>,
) -> VariantView {
    if code == 0 || code == 2 || code == 3 {
        match spec_parse_balloon(bundle) {
            Some(eid) => VariantView::App(spec_balloon(eid, text)),
            None => VariantView::Normal,
        }
    } else if code == 1000 {
        VariantView::Sticker(spec_reaction_index(assoc))
    } else if 2000 <= code <= 2005 {
        VariantView::Reaction(spec_reaction_index(assoc), true, spec_reaction_kind(code - 2000))
    } else if 3000 <= code <= 3005 {
        VariantView::Reaction(spec_reaction_index(assoc), false, spec_reaction_kind(code - 3000))
    } else {
        VariantView::Unknown(code)
    }
}

/// The two sentinel code points that interrupt a text run.
pub open spec fn is_sentinel(c: char) -> bool {
    c == ATTACHMENT_CHAR || c == APP_CHAR
}

/// Index of the first sentinel in `s` at or after `from`, or `s.len()` if
/// there is none.
pub open spec fn spec_find_sentinel(s: Seq<char>, from: int) -> int
    decreases s.len() - from,
{
    if from < 0 || from >= s.len() {
        s.len() as int
    } else if is_sentinel(s[from]) {
        from
    } else {
        spec_find_sentinel(s, from + 1)
    }
}

pub proof fn lemma_find_sentinel_at(s: Seq<char>, from: int, k: int)
    requires
        0 <= from <= k <= s.len(),
        forall|j: int| from <= j < k ==> !is_sentinel(#[trigger] s[j]),
        k < s.len() ==> is_sentinel(s[k]),
    ensures
        spec_find_sentinel(s, from) == k,
    decreases k - from,
{
    if from < k {
        lemma_find_sentinel_at(s, from + 1, k);
    }
}

/// The segments a (trimmed) text run contributes: one text segment, or
/// nothing when the trimmed run is empty.
pub open spec fn emit_text(t: Seq<char>) -> Seq<Segment> {
    if spec_trim(t).len() == 0 {
        Seq::<Segment>::empty()
    } else {
        seq![Segment::Text(spec_trim(t))]
    }
}

/// The placeholder segment a sentinel produces.
pub open spec fn sentinel_segment(c: char) -> Segment {
    if c == ATTACHMENT_CHAR {
        Segment::Attachment
    } else {
        Segment::App
    }
}

/// The ordered segments of a message text: each sentinel yields its
/// placeholder, each run between sentinels yields its trimmed text when
/// that is non-empty, in text order.
pub open spec fn spec_segments(s: Seq<char>) -> Seq<Segment>
    decreases s.len(),
{
    let k = spec_find_sentinel(s, 0);
    if 0 <= k < s.len() {
        emit_text(s.subrange(0, k)) + seq![sentinel_segment(s[k])] + spec_segments(
            s.subrange(k + 1, s.len() as int),
        )
    } else {
        emit_text(s)
    }
}

/// The mathematical image of a segment vector.
pub open spec fn segs_view<'a>(v: Seq<BubbleType<'a>>) -> Seq<Segment> {
    v.map(|i: int, b: BubbleType<'a>| b@)
}

pub proof fn lemma_segs_view_push<'a>(v: Seq<BubbleType<'a>>, b: BubbleType<'a>)
    ensures
        segs_view(v.push(b)) == segs_view(v).push(b@),
{
    assert(segs_view(v.push(b)) =~= segs_view(v).push(b@));
}

/// Splits raw message text into its ordered content segments around the
/// two sentinel code points.
pub fn segment_text<'a>(text: &'a str) -> (r: Vec<BubbleType<'a>>)
    ensures
        segs_view(r@) == spec_segments(text@),
{
    let n = text.unicode_len();
    let mut out: Vec<BubbleType<'a>> = Vec::new();
    let mut run_start: usize = 0;
    let mut i: usize = 0;
    proof {
        assert(text@.subrange(0, n as int) =~= text@);
    }
    while i < n
        invariant
            run_start <= i <= n,
            n == text@.len(),
            forall|j: int| run_start <= j < i ==> !is_sentinel(#[trigger] text@[j]),
            spec_segments(text@) == segs_view(out@) + spec_segments(
                text@.subrange(run_start as int, n as int),
            ),
        decreases n - i,
    {
        let c = text.get_char(i);
        if c == ATTACHMENT_CHAR || c == APP_CHAR {
            let ghost suffix = text@.subrange(run_start as int, n as int);
            let ghost fs = i - run_start;
            let ghost run = text@.subrange(run_start as int, i as int);
            proof {
                assert forall|j: int| 0 <= j < fs implies !is_sentinel(#[trigger] suffix[j]) by {
                    assert(suffix[j] == text@[run_start + j]);
                }
                assert(suffix[fs] == text@[i as int]);
                lemma_find_sentinel_at(suffix, 0, fs);
                assert(spec_segments(suffix) == emit_text(suffix.subrange(0, fs)) + seq![
                    sentinel_segment(suffix[fs]),
                ] + spec_segments(suffix.subrange(fs + 1, suffix.len() as int)));
                assert(suffix.subrange(0, fs) =~= run);
                assert(suffix.subrange(fs + 1, suffix.len() as int) =~= text@.subrange(
                    i + 1,
                    n as int,
                ));
            }
            let (a, b) = trim_bounds(text, run_start, i);
            let ghost out0 = out@;
            if a < b {
                let piece = text.substring_char(a, b);
                out.push(BubbleType::Text(piece));
                proof {
                    lemma_segs_view_push(out0, BubbleType::Text(piece));
                    assert(segs_view(out@) =~= segs_view(out0) + emit_text(run));
                }
            } else {
                proof {
                    assert(spec_trim(run).len() == 0);
                    assert(segs_view(out@) =~= segs_view(out0) + emit_text(run));
                }
            }
            let ghost out1 = out@;
            if c == ATTACHMENT_CHAR {
                out.push(BubbleType::Attachment);
            } else {
                out.push(BubbleType::App);
            }
            proof {
                if c == ATTACHMENT_CHAR {
                    lemma_segs_view_push(out1, BubbleType::Attachment);
                } else {
                    lemma_segs_view_push(out1, BubbleType::App);
                }
                assert(segs_view(out@) =~= segs_view(out0) + emit_text(run) + seq![
                    sentinel_segment(text@[i as int]),
                ]);
                assert(segs_view(out@) + spec_segments(text@.subrange(i + 1, n as int)) =~= segs_view(
                    out0,
                ) + spec_segments(suffix));
            }
            run_start = i + 1;
        }
        i = i + 1;
    }
    let ghost suffix = text@.subrange(run_start as int, n as int);
    proof {
        assert forall|j: int| 0 <= j < suffix.len() implies !is_sentinel(#[trigger] suffix[j]) by {
            assert(suffix[j] == text@[run_start + j]);
        }
        lemma_find_sentinel_at(suffix, 0, suffix.len() as int);
        assert(spec_segments(suffix) == emit_text(suffix));
    }
    let (a, b) = trim_bounds(text, run_start, n);
    let ghost out0 = out@;
    if a < b {
        let piece = text.substring_char(a, b);
        out.push(BubbleType::Text(piece));
        proof {
            lemma_segs_view_push(out0, BubbleType::Text(piece));
            assert(segs_view(out@) =~= segs_view(out0) + emit_text(suffix));
        }
    } else {
        proof {
            assert(spec_trim(suffix).len() == 0);
            assert(segs_view(out@) =~= segs_view(out0) + emit_text(suffix));
        }
    }
    out
}

/// Law: text containing no sentinel code points, and not all whitespace,
/// segments to exactly one text segment holding the trimmed text.
pub proof fn lemma_segments_plain_text(text: Seq<char>)
    requires
        forall|i: int| 0 <= i < text.len() ==> !is_sentinel(#[trigger] text[i]),
        spec_trim(text).len() > 0,
    ensures
        spec_segments(text) == seq![Segment::Text(spec_trim(text))],
{
    lemma_find_sentinel_at(text, 0, text.len() as int);
}

/// Law: segmentation never emits an empty text segment — in particular no
/// empty leading or trailing segment when the text begins or ends with a
/// sentinel.
pub proof fn lemma_segments_no_empty_text(text: Seq<char>)
    ensures
        forall|i: int|
            0 <= i < spec_segments(text).len() ==> (#[trigger] spec_segments(text)[i] matches
            Segment::Text(t) ==> t.len() > 0),
    decreases text.len(),
{
    let k = spec_find_sentinel(text, 0);
    if 0 <= k < text.len() {
        let rest = text.subrange(k + 1, text.len() as int);
        lemma_segments_no_empty_text(rest);
        let pre = emit_text(text.subrange(0, k));
        let mid = seq![sentinel_segment(text[k])];
        assert forall|i: int|
            0 <= i < spec_segments(text).len() implies (#[trigger] spec_segments(text)[i] matches
        Segment::Text(t) ==> t.len() > 0) by {
            if i < pre.len() {
                assert(spec_segments(text)[i] == pre[i]);
            } else if i < pre.len() + 1 {
                assert(spec_segments(text)[i] == mid[0]);
            } else {
                assert(spec_segments(text)[i] == spec_segments(rest)[i - pre.len() - 1]);
            }
        }
    }
}

/// The service a raw service-name string denotes.
pub open spec fn spec_service(name: Option<Seq<char>>) -> ServiceView {
    match name {
        Some(s) => if s == "iMessage"@ {
            ServiceView::iMessageService
        } else if s == "SMS"@ {
            ServiceView::Sms
        } else {
            ServiceView::Other(s)
        },
        None => ServiceView::Unknown,
    }
}

} // verus!
