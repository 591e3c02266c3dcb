//! A value that the user sees through a mapping: a knob's position and the
//! quantity it stands for.

use std::ops::RangeInclusive;
use vstd::prelude::*;

verus! {

/// `RangeInclusive::start`: the lower end of the range.
pub assume_specification<Idx>[ RangeInclusive::<Idx>::start ](r: &RangeInclusive<Idx>) -> (s: &Idx)
    ensures
        *s == r@.start,
;

/// `RangeInclusive::end`: the upper end of the range.
pub assume_specification<Idx>[ RangeInclusive::<Idx>::end ](r: &RangeInclusive<Idx>) -> (e: &Idx)
    ensures
        *e == r@.end,
;

/// `RangeInclusive::clone`: a range with clones of the two ends, which has
/// been walked to its end if and only if this one has.
pub assume_specification<Idx: Clone>[ <RangeInclusive<Idx> as Clone>::clone ](
    r: &RangeInclusive<Idx>,
) -> (c: RangeInclusive<Idx>)
    ensures
        cloned(r@.start, c@.start),
        cloned(r@.end, c@.end),
        c@.exhausted == r@.exhausted,
;

/// A value with the range it may take, the names it is shown under, and a
/// mapping between the value as it is held and the value as it is shown.
///
/// `map` leads from the held value to the shown one, `rev_map` back.
#[verifier::reject_recursive_types(T)]
pub struct Model<T: Copy, F: Fn(T) -> T, G: Fn(T) -> T> {
    pub value: T,
    pub range: Option<RangeInclusive<T>>,
    pub display_name: String,
    pub full_display_name: Option<String>,
    pub was_changed: bool,
    pub map: F,
    pub rev_map: G,
}

impl<T: Copy, F: Fn(T) -> T, G: Fn(T) -> T> Model<T, F, G> {
    /// A model that holds `value` and has not been changed.
    pub fn new(
        value: T,
        range: Option<RangeInclusive<T>>,
        display_name: String,
        map: F,
        rev_map: G,
    ) -> (m: Self)
        ensures
            m.value == value,
            m.range == range,
            m.display_name == display_name,
            m.full_display_name is None,
            !m.was_changed,
            m.map == map,
            m.rev_map == rev_map,
    {
        Model {
            value,
            range,
            display_name,
            full_display_name: None,
            was_changed: false,
            map,
            rev_map,
        }
    }

    /// The value as it is shown: what `map` makes of the held value.
    pub fn get_value(&self) -> (shown: T)
        requires
            self.map.requires((self.value,)),
        ensures
            self.map.ensures((self.value,), shown),
    {
        (self.map)(self.value)
    }

    /// Holds what `rev_map` makes of the shown value `value`, and notes the
    /// change.
    pub fn set_value(&mut self, value: T)
        requires
            old(self).rev_map.requires((value,)),
        ensures
            old(self).rev_map.ensures((value,), final(self).value),
            final(self).was_changed,
            final(self).range == old(self).range,
            final(self).display_name == old(self).display_name,
            final(self).full_display_name == old(self).full_display_name,
            final(self).map == old(self).map,
            final(self).rev_map == old(self).rev_map,
    {
        self.value = (self.rev_map)(value);
        self.was_changed = true;
    }

    /// The value as it is held.
    pub fn get_unmapped_value(&self) -> (held: T)
        ensures
            held == self.value,
    {
        self.value
    }

    /// Holds `value`, and notes the change.
    pub fn set_unmapped_value(&mut self, value: T)
        ensures
            final(self).value == value,
            final(self).was_changed,
            final(self).range == old(self).range,
            final(self).display_name == old(self).display_name,
            final(self).full_display_name == old(self).full_display_name,
            final(self).map == old(self).map,
            final(self).rev_map == old(self).rev_map,
    {
        self.value = value;
        self.was_changed = true;
    }

    /// What `map` makes of `value`.
    pub fn map(&self, value: T) -> (shown: T)
        requires
            self.map.requires((value,)),
        ensures
            self.map.ensures((value,), shown),
    {
        (self.map)(value)
    }

    /// What `rev_map` makes of `value`.
    pub fn reverse_map(&self, value: T) -> (held: T)
        requires
            self.rev_map.requires((value,)),
        ensures
            self.rev_map.ensures((value,), held),
    {
        (self.rev_map)(value)
    }

    /// A copy of the range of the held value.
    pub fn range(&self) -> (r: Option<RangeInclusive<T>>)
        ensures
            match self.range {
                Some(own) => r matches Some(x) && cloned(own@.start, x@.start) && cloned(
                    own@.end,
                    x@.end,
                ) && x@.exhausted == own@.exhausted,
                None => r is None,
            },
    {
        match &self.range {
            Some(own) => Some(own.clone()),
            None => None,
        }
    }

    /// The range of the shown value. Its ends are those of the held value's
    /// range: the mapping is not applied to them.
    pub fn mapped_range(&self) -> (r: Option<RangeInclusive<T>>)
        ensures
            match self.range {
                Some(own) => r matches Some(x) && x@.start == own@.start && x@.end == own@.end
                    && !x@.exhausted,
                None => r is None,
            },
    {
        match &self.range {
            Some(own) => Some(RangeInclusive::new(*own.start(), *own.end())),
            None => None,
        }
    }

    /// Replaces the mapping and its reverse.
    pub fn set_map(&mut self, map: F, rev_map: G)
        ensures
            final(self).map == map,
            final(self).rev_map == rev_map,
            final(self).value == old(self).value,
            final(self).was_changed == old(self).was_changed,
            final(self).range == old(self).range,
            final(self).display_name == old(self).display_name,
            final(self).full_display_name == old(self).full_display_name,
    {
        self.map = map;
        self.rev_map = rev_map;
    }

    /// The name that the value is shown under.
    pub fn display_name(&self) -> (name: &String)
        ensures
            name == self.display_name,
    {
        &self.display_name
    }

    /// The long name that the value is shown under, where it has one.
    pub fn full_display_name(&self) -> (name: &Option<String>)
        ensures
            name == self.full_display_name,
    {
        &self.full_display_name
    }

    /// Gives the value the name `display_name`.
    pub fn set_display_name(&mut self, display_name: String)
        ensures
            final(self).display_name == display_name,
            final(self).value == old(self).value,
            final(self).was_changed == old(self).was_changed,
            final(self).range == old(self).range,
            final(self).full_display_name == old(self).full_display_name,
            final(self).map == old(self).map,
            final(self).rev_map == old(self).rev_map,
    {
        self.display_name = display_name;
    }

    /// Gives the value the long name `full_display_name`, or none.
    pub fn set_full_display_name(&mut self, full_display_name: Option<String>)
        ensures
            final(self).full_display_name == full_display_name,
            final(self).value == old(self).value,
            final(self).was_changed == old(self).was_changed,
            final(self).range == old(self).range,
            final(self).display_name == old(self).display_name,
            final(self).map == old(self).map,
            final(self).rev_map == old(self).rev_map,
    {
        self.full_display_name = full_display_name;
    }
}

} // verus!
