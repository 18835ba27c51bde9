//! Visual send-effects ("expressives") a message can carry, and the mapping
//! from raw style-identifier strings to them.

use vstd::prelude::*;

verus! {

/// Effects that animate the message bubble itself.
#[derive(Clone, Copy, Debug, PartialEq, Eq)]
pub enum BubbleEffect {
    Gentle,
    Slam,
    InvisibleInk,
    Loud,
}

/// Effects that take over the whole screen.
#[derive(Clone, Copy, Debug, PartialEq, Eq)]
pub enum ScreenEffect {
    Confetti,
    Echo,
    Fireworks,
    Balloons,
    Heart,
    Lasers,
    ShootingStar,
    Sparkles,
    Spotlight,
}

/// The visual effect a message was sent with.
#[derive(Debug, PartialEq, Eq)]
pub enum Expressive<'a> {
    /// No effect
    Normal,
    /// A bubble animation
    Bubble(BubbleEffect),
    /// A full-screen effect
    Screen(ScreenEffect),
    /// An unrecognized style identifier, kept verbatim
    Unknown(&'a str),
}

/// Mathematical image of `Expressive`, with the raw identifier as a
/// character sequence.
pub enum ExpressiveView {
    Normal,
    Bubble(BubbleEffect),
    Screen(ScreenEffect),
    Unknown(Seq<char>),
}

impl<'a> View for Expressive<'a> {
    type V = ExpressiveView;

    open spec fn view(&self) -> ExpressiveView {
        match self {
            Expressive::Normal => ExpressiveView::Normal,
            Expressive::Bubble(e) => ExpressiveView::Bubble(*e),
            Expressive::Screen(e) => ExpressiveView::Screen(*e),
            Expressive::Unknown(s) => ExpressiveView::Unknown(s@),
        }
    }
}

/// The effect a raw style identifier denotes: absent styles are no effect,
/// recognized identifiers map to their fixed effect, anything else is kept
/// verbatim as unknown.
pub open spec fn spec_expressive(style: Option<Seq<char>>) -> ExpressiveView {
    match style {
        None => ExpressiveView::Normal,
        Some(s) => if s == "com.apple.MobileSMS.expressivesend.gentle"@ {
            ExpressiveView::Bubble(BubbleEffect::Gentle)
        } else if s == "com.apple.MobileSMS.expressivesend.impact"@ {
            ExpressiveView::Bubble(BubbleEffect::Slam)
        } else if s == "com.apple.MobileSMS.expressivesend.invisibleink"@ {
            ExpressiveView::Bubble(BubbleEffect::InvisibleInk)
        } else if s == "com.apple.MobileSMS.expressivesend.loud"@ {
            ExpressiveView::Bubble(BubbleEffect::Loud)
        } else if s == "com.apple.messages.effect.CKConfettiEffect"@ {
            ExpressiveView::Screen(ScreenEffect::Confetti)
        } else if s == "com.apple.messages.effect.CKEchoEffect"@ {
            ExpressiveView::Screen(ScreenEffect::Echo)
        } else if s == "com.apple.messages.effect.CKFireworksEffect"@ {
            ExpressiveView::Screen(ScreenEffect::Fireworks)
        } else if s == "com.apple.messages.effect.CKHappyBirthdayEffect"@ {
            ExpressiveView::Screen(ScreenEffect::Balloons)
        } else if s == "com.apple.messages.effect.CKHeartEffect"@ {
            ExpressiveView::Screen(ScreenEffect::Heart)
        } else if s == "com.apple.messages.effect.CKLasersEffect"@ {
            ExpressiveView::Screen(ScreenEffect::Lasers)
        } else if s == "com.apple.messages.effect.CKShootingStarEffect"@ {
            ExpressiveView::Screen(ScreenEffect::ShootingStar)
        } else if s == "com.apple.messages.effect.CKSparklesEffect"@ {
            ExpressiveView::Screen(ScreenEffect::Sparkles)
        } else if s == "com.apple.messages.effect.CKSpotlightEffect"@ {
            ExpressiveView::Screen(ScreenEffect::Spotlight)
        } else {
            ExpressiveView::Unknown(s)
        },
    }
}

} // verus!
