//! The flat color of a polygon.

use vstd::prelude::*;

use crate::model::settings::{
    CHANGE_COLOR_PROB, DARKEN_COLOR_PROB, LIGHTEN_COLOR_PROB, MAX_ALPHA,
    MICRO_ADJUSTMENT_PROBABILITY, MIN_ALPHA,
};
use crate::random::{coin_flip, happens, random_byte};

verus! {

/// An RGBA color of four 8-bit channels.
#[derive(Clone, Copy, Debug, PartialEq, Eq, Structural)]
pub struct Color {
    pub r: u8,
    pub g: u8,
    pub b: u8,
    pub a: u8,
}

/// Names one channel of a [`Color`].
#[derive(Clone, Copy, Debug, PartialEq, Eq, Structural)]
pub enum Channel {
    Red,
    Green,
    Blue,
    Alpha,
}

/// What one mutation of a color does. Each channel may be drawn afresh,
/// with the new value given, and may then move by one step, upward where
/// the flag is set; then red, green and blue may rise together and may
/// fall together.
#[derive(Clone, Copy, Debug)]
pub struct ColorMutation {
    pub red: Option<u8>,
    pub green: Option<u8>,
    pub blue: Option<u8>,
    pub alpha: Option<u8>,
    pub adjust_red: Option<bool>,
    pub adjust_green: Option<bool>,
    pub adjust_blue: Option<bool>,
    pub adjust_alpha: Option<bool>,
    pub lighten: bool,
    pub darken: bool,
}

/// The alpha nearest to `value` inside `[MIN_ALPHA, MAX_ALPHA]`.
pub open spec fn clamped_alpha(value: u8) -> u8 {
    if value < MIN_ALPHA {
        MIN_ALPHA
    } else if value > MAX_ALPHA {
        MAX_ALPHA
    } else {
        value
    }
}

/// A channel value one step away from `value`: upward where asked and
/// possible, downward where asked and possible, and the other way at the
/// end of the range, so that the value never wraps.
pub open spec fn micro_adjusted(value: u8, upward: bool) -> u8 {
    if upward {
        if value < u8::MAX {
            (value + 1) as u8
        } else {
            (value - 1) as u8
        }
    } else {
        if value > u8::MIN {
            (value - 1) as u8
        } else {
            (value + 1) as u8
        }
    }
}

/// Computes [`clamped_alpha`].
pub fn clamp_alpha(value: u8) -> (alpha: u8)
    ensures
        alpha == clamped_alpha(value),
        MIN_ALPHA <= alpha <= MAX_ALPHA,
{
    if value < MIN_ALPHA {
        MIN_ALPHA
    } else if value > MAX_ALPHA {
        MAX_ALPHA
    } else {
        value
    }
}

/// Computes [`micro_adjusted`].
pub fn micro_adjust_toward(value: u8, upward: bool) -> (adjusted: u8)
    ensures
        adjusted == micro_adjusted(value, upward),
        adjusted == value + 1 || adjusted == value - 1,
{
    if upward {
        if value < u8::MAX {
            value + 1
        } else {
            value - 1
        }
    } else {
        if value > u8::MIN {
            value - 1
        } else {
            value + 1
        }
    }
}

impl Color {
    /// The alpha lies inside the configured window.
    pub open spec fn wf(&self) -> bool {
        MIN_ALPHA <= self.a <= MAX_ALPHA
    }

    /// The value of one channel.
    pub open spec fn channel(self, channel: Channel) -> u8 {
        match channel {
            Channel::Red => self.r,
            Channel::Green => self.g,
            Channel::Blue => self.b,
            Channel::Alpha => self.a,
        }
    }

    /// The color with one channel replaced; a new alpha is clamped to the
    /// configured window.
    pub open spec fn with_channel(self, channel: Channel, value: u8) -> Color {
        match channel {
            Channel::Red => Color { r: value, ..self },
            Channel::Green => Color { g: value, ..self },
            Channel::Blue => Color { b: value, ..self },
            Channel::Alpha => Color { a: clamped_alpha(value), ..self },
        }
    }

    /// Red, green and blue can all rise by one.
    pub open spec fn can_lighten(self) -> bool {
        self.r < u8::MAX && self.g < u8::MAX && self.b < u8::MAX
    }

    /// Red, green and blue can all fall by one.
    pub open spec fn can_darken(self) -> bool {
        self.r > u8::MIN && self.g > u8::MIN && self.b > u8::MIN
    }

    /// The color one step lighter, or the same color where a channel is
    /// already at its top.
    pub open spec fn lightened(self) -> Color {
        if self.can_lighten() {
            Color { r: (self.r + 1) as u8, g: (self.g + 1) as u8, b: (self.b + 1) as u8, a: self.a }
        } else {
            self
        }
    }

    /// The color one step darker, or the same color where a channel is
    /// already at its bottom.
    pub open spec fn darkened(self) -> Color {
        if self.can_darken() {
            Color { r: (self.r - 1) as u8, g: (self.g - 1) as u8, b: (self.b - 1) as u8, a: self.a }
        } else {
            self
        }
    }

    /// The color after one channel was drawn afresh, where it was.
    pub open spec fn resampled(self, channel: Channel, value: Option<u8>) -> Color {
        match value {
            Some(v) => self.with_channel(channel, v),
            None => self,
        }
    }

    /// The color after one channel moved by one step, where it did.
    pub open spec fn adjusted(self, channel: Channel, upward: Option<bool>) -> Color {
        match upward {
            Some(up) => self.with_channel(channel, micro_adjusted(self.channel(channel), up)),
            None => self,
        }
    }

    /// The color after a lightening, where there was one.
    pub open spec fn lightened_if(self, lighten: bool) -> Color {
        if lighten {
            self.lightened()
        } else {
            self
        }
    }

    /// The color after a darkening, where there was one.
    pub open spec fn darkened_if(self, darken: bool) -> Color {
        if darken {
            self.darkened()
        } else {
            self
        }
    }

    /// The color after a mutation: the fresh draws of red, green, blue and
    /// alpha, then the one-step adjustments in the same order, then the
    /// lightening, then the darkening.
    pub open spec fn applied(self, mutation: ColorMutation) -> Color {
        self.resampled(Channel::Red, mutation.red).resampled(
            Channel::Green,
            mutation.green,
        ).resampled(Channel::Blue, mutation.blue).resampled(Channel::Alpha, mutation.alpha).adjusted(
            Channel::Red,
            mutation.adjust_red,
        ).adjusted(Channel::Green, mutation.adjust_green).adjusted(
            Channel::Blue,
            mutation.adjust_blue,
        ).adjusted(Channel::Alpha, mutation.adjust_alpha).lightened_if(
            mutation.lighten,
        ).darkened_if(mutation.darken)
    }

    /// A color with random channels and an alpha inside the window.
    pub fn new_random() -> (color: Color)
        ensures
            color.wf(),
    {
        let r: u8 = random_byte();
        let g: u8 = random_byte();
        let b: u8 = random_byte();
        let a: u8 = clamp_alpha(random_byte());
        Color { r, g, b, a }
    }

    /// Reads one channel.
    pub fn get(&self, channel: Channel) -> (value: u8)
        ensures
            value == self.channel(channel),
    {
        match channel {
            Channel::Red => self.r,
            Channel::Green => self.g,
            Channel::Blue => self.b,
            Channel::Alpha => self.a,
        }
    }

    /// Replaces one channel, clamping a new alpha to the window. Tells
    /// whether the color has changed.
    pub fn resample(&mut self, channel: Channel, value: u8) -> (changed: bool)
        ensures
            *final(self) == old(self).with_channel(channel, value),
            changed == (*final(self) != *old(self)),
    {
        let before: u8 = self.get(channel);
        match channel {
            Channel::Red => {
                self.r = value;
            },
            Channel::Green => {
                self.g = value;
            },
            Channel::Blue => {
                self.b = value;
            },
            Channel::Alpha => {
                self.a = clamp_alpha(value);
            },
        }
        self.get(channel) != before
    }

    /// Raises red, green and blue by one, unless one of them would
    /// overflow. Tells whether the color has changed.
    pub fn lighten(&mut self) -> (changed: bool)
        ensures
            *final(self) == old(self).lightened(),
            changed == old(self).can_lighten(),
            changed == (*final(self) != *old(self)),
    {
        if self.r < u8::MAX && self.g < u8::MAX && self.b < u8::MAX {
            self.r += 1;
            self.g += 1;
            self.b += 1;
            true
        } else {
            false
        }
    }

    /// Lowers red, green and blue by one, unless one of them would
    /// underflow. Tells whether the color has changed.
    pub fn darken(&mut self) -> (changed: bool)
        ensures
            *final(self) == old(self).darkened(),
            changed == old(self).can_darken(),
            changed == (*final(self) != *old(self)),
    {
        if self.r > u8::MIN && self.g > u8::MIN && self.b > u8::MIN {
            self.r -= 1;
            self.g -= 1;
            self.b -= 1;
            true
        } else {
            false
        }
    }

    /// Moves one channel by one step, upward where asked, turning round at
    /// the ends of the range and clamping a new alpha to the window. Tells
    /// whether the color has changed.
    pub fn micro_adjust(&mut self, channel: Channel, upward: bool) -> (changed: bool)
        ensures
            *final(self) == old(self).adjusted(channel, Some(upward)),
            changed == (*final(self) != *old(self)),
    {
        let adjusted: u8 = micro_adjust_toward(self.get(channel), upward);
        self.resample(channel, adjusted)
    }

    fn resample_if(&mut self, channel: Channel, value: Option<u8>)
        ensures
            *final(self) == old(self).resampled(channel, value),
    {
        match value {
            Some(v) => {
                self.resample(channel, v);
            },
            None => {},
        }
    }

    fn micro_adjust_if(&mut self, channel: Channel, upward: Option<bool>)
        ensures
            *final(self) == old(self).adjusted(channel, upward),
    {
        match upward {
            Some(up) => {
                self.micro_adjust(channel, up);
            },
            None => {},
        }
    }

    fn lighten_if(&mut self, lighten: bool)
        ensures
            *final(self) == old(self).lightened_if(lighten),
    {
        if lighten {
            self.lighten();
        }
    }

    fn darken_if(&mut self, darken: bool)
        ensures
            *final(self) == old(self).darkened_if(darken),
    {
        if darken {
            self.darken();
        }
    }

    /// Carries out a mutation, step by step in the order of
    /// [`Color::applied`]. Tells whether the color has changed.
    pub fn apply(&mut self, mutation: &ColorMutation) -> (mutated: bool)
        ensures
            *final(self) == old(self).applied(*mutation),
            mutated == (*final(self) != *old(self)),
    {
        let before: Color = *self;
        self.resample_if(Channel::Red, mutation.red);
        self.resample_if(Channel::Green, mutation.green);
        self.resample_if(Channel::Blue, mutation.blue);
        self.resample_if(Channel::Alpha, mutation.alpha);
        self.micro_adjust_if(Channel::Red, mutation.adjust_red);
        self.micro_adjust_if(Channel::Green, mutation.adjust_green);
        self.micro_adjust_if(Channel::Blue, mutation.adjust_blue);
        self.micro_adjust_if(Channel::Alpha, mutation.adjust_alpha);
        self.lighten_if(mutation.lighten);
        self.darken_if(mutation.darken);
        self.r != before.r || self.g != before.g || self.b != before.b || self.a != before.a
    }

    /// Draws a mutation and carries it out. Tells whether the color has
    /// changed.
    pub fn mutate(&mut self) -> (mutated: bool)
        ensures
            exists|mutation: ColorMutation| #[trigger] old(self).applied(mutation) == *final(self),
            mutated == (*final(self) != *old(self)),
            final(self).a == old(self).a || final(self).wf(),
            old(self).wf() ==> final(self).wf(),
    {
        let mutation: ColorMutation = ColorMutation::new_random();
        self.apply(&mutation)
    }
}

impl ColorMutation {
    /// Decides, each with its own probability, on a fresh draw of each
    /// channel, on a one-step adjustment of each channel with even odds for
    /// either direction, on a lightening and on a darkening.
    pub fn new_random() -> (mutation: ColorMutation) {
        let red: Option<u8> = ColorMutation::fresh_channel();
        let green: Option<u8> = ColorMutation::fresh_channel();
        let blue: Option<u8> = ColorMutation::fresh_channel();
        let alpha: Option<u8> = ColorMutation::fresh_channel();
        let adjust_red: Option<bool> = ColorMutation::adjustment();
        let adjust_green: Option<bool> = ColorMutation::adjustment();
        let adjust_blue: Option<bool> = ColorMutation::adjustment();
        let adjust_alpha: Option<bool> = ColorMutation::adjustment();
        let lighten: bool = happens(LIGHTEN_COLOR_PROB);
        let darken: bool = happens(DARKEN_COLOR_PROB);
        ColorMutation {
            red,
            green,
            blue,
            alpha,
            adjust_red,
            adjust_green,
            adjust_blue,
            adjust_alpha,
            lighten,
            darken,
        }
    }

    fn fresh_channel() -> (value: Option<u8>) {
        if happens(CHANGE_COLOR_PROB) {
            Some(random_byte())
        } else {
            None
        }
    }

    fn adjustment() -> (upward: Option<bool>) {
        if happens(MICRO_ADJUSTMENT_PROBABILITY) {
            Some(coin_flip())
        } else {
            None
        }
    }
}

/// A mutation keeps the alpha inside the window, and brings a changed
/// alpha into it.
pub proof fn lemma_color_applied(color: Color, mutation: ColorMutation)
    ensures
        color.wf() ==> color.applied(mutation).wf(),
        color.applied(mutation).a == color.a || color.applied(mutation).wf(),
{
}

} // verus!
