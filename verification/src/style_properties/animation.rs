//! The animation properties, and the keyframes that they name.

use vstd::prelude::*;
use crate::style_properties::number::{clamp, Number};
use crate::style_properties::property::{AnimationItem, AnimationIterationCount, Property, Time};
use crate::style_properties::style_value_type::StyleValueType;
use crate::text::{opt_text, same_text};

verus! {

/// One step of an animation: how far the animation has run, as a
/// fraction between nothing and one, and the declarations that hold
/// there.
#[derive(Debug, PartialEq)]
pub struct KeyFrameItem<'a> {
    pub percentage: Number,
    pub declarations: Vec<StyleValueType<'a>>,
}

/// The keyframes of a stylesheet, by the names of their animations.
#[derive(Debug, PartialEq)]
pub struct KeyframeTable<'a> {
    pub entries: Vec<(String, Vec<KeyFrameItem<'a>>)>,
}

/// The place of the first entry named `name`, from `from` on.
pub open spec fn keyframes_position(
    entries: Seq<(String, Vec<KeyFrameItem>)>,
    name: Seq<char>,
    from: int,
) -> Option<int>
    decreases entries.len() - from,
{
    if 0 <= from < entries.len() {
        if entries[from].0@ == name {
            Some(from)
        } else {
            keyframes_position(entries, name, from + 1)
        }
    } else {
        None
    }
}

impl<'a> KeyframeTable<'a> {
    /// A table without keyframes.
    pub fn new() -> (t: KeyframeTable<'a>)
        ensures
            t.entries@.len() == 0,
    {
        KeyframeTable { entries: Vec::new() }
    }

    /// Where the first entry named `name` stands.
    pub fn position(&self, name: &str) -> (r: Option<usize>)
        ensures
            match r {
                Some(p) => keyframes_position(self.entries@, name@, 0) == Some(p as int) && p
                    < self.entries@.len(),
                None => keyframes_position(self.entries@, name@, 0) is None,
            },
    {
        let mut i: usize = 0;
        while i < self.entries.len()
            invariant
                i <= self.entries.len(),
                keyframes_position(self.entries@, name@, 0) == keyframes_position(
                    self.entries@,
                    name@,
                    i as int,
                ),
            decreases self.entries.len() - i,
        {
            if same_text(self.entries[i].0.as_str(), name) {
                return Some(i);
            }
            i += 1;
        }
        None
    }

    /// Sets the keyframes of the animation `name`; earlier keyframes of
    /// that name are replaced.
    pub fn insert(&mut self, name: String, items: Vec<KeyFrameItem<'a>>)
        ensures
            match keyframes_position(old(self).entries@, name@, 0) {
                Some(p) => final(self).entries@ == old(self).entries@.update(p, (name, items)),
                None => final(self).entries@ == old(self).entries@.push((name, items)),
            },
    {
        match self.position(name.as_str()) {
            Some(p) => {
                self.entries.set(p, (name, items));
            },
            None => {
                self.entries.push((name, items));
            },
        }
    }

    /// The keyframes of the animation `name`, if the table has them.
    pub fn get(&self, name: &str) -> (r: Option<&Vec<KeyFrameItem<'a>>>)
        ensures
            match r {
                Some(items) => keyframes_position(self.entries@, name@, 0) matches Some(p) && 0 <= p
                    < self.entries@.len() && *items == self.entries@[p].1,
                None => keyframes_position(self.entries@, name@, 0) is None,
            },
    {
        match self.position(name) {
            Some(p) => Some(&self.entries[p].1),
            None => None,
        }
    }
}

/// An animation declaration: the values that it gives, and the keyframes
/// among which its name is looked up. Times are held in milliseconds,
/// the timing function as CSS text.
#[derive(Debug, PartialEq)]
pub struct Animation<'a> {
    pub id: String,
    pub keyframes: Option<&'a KeyframeTable<'a>>,
    pub animation_name: Option<String>,
    pub animation_duration: Option<Number>,
    pub animation_delay: Option<Number>,
    pub animation_iteration: Option<Number>,
    pub animation_timeing_function: Option<String>,
}

/// A time in milliseconds: seconds times a thousand; milliseconds times
/// sixty. A product that `i64` cannot hold is held at the bound nearest
/// to it.
pub open spec fn time_millis(t: Time) -> Number {
    match t {
        Time::Seconds(s) => Number { micros: clamp(s.micros * 1000) as i64 },
        Time::Milliseconds(m) => Number { micros: clamp(m.micros * 60) as i64 },
    }
}

/// An iteration count as a number: minus one for `infinite`.
pub open spec fn iteration_number(c: AnimationIterationCount) -> Number {
    match c {
        AnimationIterationCount::Number(n) => n,
        AnimationIterationCount::Infinite => Number { micros: (-1_000_000i64) },
    }
}

/// The name that a declaration gives: that of the last animation of the
/// shorthand, or the text of `animation-name`.
pub open spec fn animation_name_of(property: Property) -> Option<Seq<char>> {
    match property {
        Property::Animation(list) => if list@.len() > 0 {
            Some(list@.last().name@)
        } else {
            None
        },
        Property::AnimationName(name) => Some(name@),
        _ => None,
    }
}

/// The duration that a declaration gives: that of the last animation of
/// the shorthand, or the first of `animation-duration`.
pub open spec fn animation_duration_of(property: Property) -> Option<Number> {
    match property {
        Property::Animation(list) => if list@.len() > 0 {
            Some(time_millis(list@.last().duration))
        } else {
            None
        },
        Property::AnimationDuration(list) => if list@.len() > 0 {
            Some(time_millis(list@[0]))
        } else {
            None
        },
        _ => None,
    }
}

/// The delay that a declaration gives: that of the last animation of the
/// shorthand, or the first of `animation-delay`.
pub open spec fn animation_delay_of(property: Property) -> Option<Number> {
    match property {
        Property::Animation(list) => if list@.len() > 0 {
            Some(time_millis(list@.last().delay))
        } else {
            None
        },
        Property::AnimationDelay(list) => if list@.len() > 0 {
            Some(time_millis(list@[0]))
        } else {
            None
        },
        _ => None,
    }
}

/// The iteration count that a declaration gives: that of the last
/// animation of the shorthand, or the first of
/// `animation-iteration-count`.
pub open spec fn animation_iteration_of(property: Property) -> Option<Number> {
    match property {
        Property::Animation(list) => if list@.len() > 0 {
            Some(iteration_number(list@.last().iteration_count))
        } else {
            None
        },
        Property::AnimationIterationCount(list) => if list@.len() > 0 {
            Some(iteration_number(list@[0]))
        } else {
            None
        },
        _ => None,
    }
}

/// The timing function that a declaration gives: that of the last
/// animation of the shorthand, or the first of
/// `animation-timing-function`.
pub open spec fn animation_timing_of(property: Property) -> Option<Seq<char>> {
    match property {
        Property::Animation(list) => if list@.len() > 0 {
            Some(list@.last().timing_function@)
        } else {
            None
        },
        Property::AnimationTimingFunction(list) => if list@.len() > 0 {
            Some(list@[0]@)
        } else {
            None
        },
        _ => None,
    }
}

/// A time in milliseconds.
pub fn millis(t: &Time) -> (n: Number)
    ensures
        n == time_millis(*t),
{
    match t {
        Time::Seconds(s) => s.scale(1000),
        Time::Milliseconds(m) => m.scale(60),
    }
}

/// An iteration count as a number.
pub fn iterations(c: &AnimationIterationCount) -> (n: Number)
    ensures
        n == iteration_number(*c),
{
    match c {
        AnimationIterationCount::Number(n) => *n,
        AnimationIterationCount::Infinite => Number::from_integer(-1),
    }
}

impl<'a> Animation<'a> {
    /// The animation values of a declaration, under the name `id`, with
    /// the keyframes among which a name is looked up.
    pub fn from(id: String, property: &Property, keyframes: Option<&'a KeyframeTable<'a>>) -> (a:
        Animation<'a>)
        ensures
            a.id == id,
            a.keyframes == keyframes,
            opt_text(a.animation_name) == animation_name_of(*property),
            a.animation_duration == animation_duration_of(*property),
            a.animation_delay == animation_delay_of(*property),
            a.animation_iteration == animation_iteration_of(*property),
            opt_text(a.animation_timeing_function) == animation_timing_of(*property),
    {
        let mut animation_name: Option<String> = None;
        let mut animation_duration: Option<Number> = None;
        let mut animation_delay: Option<Number> = None;
        let mut animation_iteration: Option<Number> = None;
        let mut animation_timeing_function: Option<String> = None;
        match property {
            Property::Animation(animation_list) => {
                if animation_list.len() > 0 {
                    let animation: &AnimationItem = &animation_list[animation_list.len() - 1];
                    animation_name = Some(animation.name.clone());
                    animation_duration = Some(millis(&animation.duration));
                    animation_delay = Some(millis(&animation.delay));
                    animation_iteration = Some(iterations(&animation.iteration_count));
                    animation_timeing_function = Some(animation.timing_function.clone());
                }
            },
            Property::AnimationDelay(delay) => {
                if delay.len() > 0 {
                    animation_delay = Some(millis(&delay[0]));
                }
            },
            Property::AnimationDuration(duration) => {
                if duration.len() > 0 {
                    animation_duration = Some(millis(&duration[0]));
                }
            },
            Property::AnimationIterationCount(iteration) => {
                if iteration.len() > 0 {
                    animation_iteration = Some(iterations(&iteration[0]));
                }
            },
            Property::AnimationName(name) => {
                animation_name = Some(name.clone());
            },
            Property::AnimationTimingFunction(timing_function) => {
                if timing_function.len() > 0 {
                    animation_timeing_function = Some(timing_function[0].clone());
                }
            },
            _ => {},
        }
        Animation {
            id,
            keyframes,
            animation_name,
            animation_duration,
            animation_delay,
            animation_iteration,
            animation_timeing_function,
        }
    }
}

} // verus!
