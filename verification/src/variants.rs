//! Semantic classification values for a message: its variant, the kind of
//! rich-app balloon it carries, and the kind of reaction it expresses.

use vstd::prelude::*;

verus! {

/// Kinds of rich, app-rendered balloon payloads.
#[derive(Debug, PartialEq, Eq)]
pub enum CustomBalloon<'a> {
    /// A URL preview
    URL,
    /// A music-service preview
    Music,
    /// A handwritten note
    Handwriting,
    /// A peer payment
    ApplePay,
    /// A fitness-sharing notice
    Fitness,
    /// A photo slideshow
    Slideshow,
    /// Any other extension, by its effective bundle identifier
    Application(&'a str),
}

/// Kinds of reactions that can be placed on a message.
#[derive(Clone, Copy, Debug, PartialEq, Eq)]
pub enum Reaction {
    Loved,
    Liked,
    Disliked,
    Laughed,
    Emphasized,
    Questioned,
}

/// Semantic classification of a message.
#[derive(Debug, PartialEq, Eq)]
pub enum Variant<'a> {
    /// An ordinary message
    Normal,
    /// A rich-app payload of the given kind
    App(CustomBalloon<'a>),
    /// A sticker overlaid on the given sub-part of the target message
    Sticker(usize),
    /// A reaction on the given sub-part; the flag is whether it was added
    /// (true) or removed (false)
    Reaction(usize, bool, Reaction),
    /// An unrecognized numeric type code
    Unknown(i32),
}

/// Mathematical image of `CustomBalloon`, with the identifier as a
/// character sequence.
pub enum BalloonView {
    URL,
    Music,
    Handwriting,
    ApplePay,
    Fitness,
    Slideshow,
    Application(Seq<char>),
}

/// Mathematical image of `Variant`.
pub enum VariantView {
    Normal,
    App(BalloonView),
    Sticker(int),
    Reaction(int, bool, Reaction),
    Unknown(int),
}

impl<'a> View for CustomBalloon<'a> {
    type V = BalloonView;

    open spec fn view(&self) -> BalloonView {
        match self {
            CustomBalloon::URL => BalloonView::URL,
            CustomBalloon::Music => BalloonView::Music,
            CustomBalloon::Handwriting => BalloonView::Handwriting,
            CustomBalloon::ApplePay => BalloonView::ApplePay,
            CustomBalloon::Fitness => BalloonView::Fitness,
            CustomBalloon::Slideshow => BalloonView::Slideshow,
            CustomBalloon::Application(s) => BalloonView::Application(s@),
        }
    }
}

impl<'a> View for Variant<'a> {
    type V = VariantView;

    open spec fn view(&self) -> VariantView {
        match self {
            Variant::Normal => VariantView::Normal,
            Variant::App(b) => VariantView::App(b@),
            Variant::Sticker(i) => VariantView::Sticker(*i as int),
            Variant::Reaction(i, added, kind) => VariantView::Reaction(*i as int, *added, *kind),
            Variant::Unknown(c) => VariantView::Unknown(*c as int),
        }
    }
}

} // verus!
