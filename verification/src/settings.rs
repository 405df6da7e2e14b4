//! The hub's settings, as far as the notifications read them.

use vstd::prelude::*;

use crate::text::same;

verus! {

/// A snapshot of stored settings. Of two entries for one key the later one
/// counts.
#[derive(Debug)]
pub struct Settings {
    pub entries: Vec<(String, String)>,
}

/// The values that entries give to their keys.
pub open spec fn values_of(entries: Seq<(String, String)>) -> Map<Seq<char>, Seq<char>>
    decreases entries.len(),
{
    if entries.len() == 0 {
        Map::empty()
    } else {
        values_of(entries.drop_last()).insert(entries.last().0@, entries.last().1@)
    }
}

impl View for Settings {
    type V = Map<Seq<char>, Seq<char>>;

    open spec fn view(&self) -> Map<Seq<char>, Seq<char>> {
        values_of(self.entries@)
    }
}

/// The value stored under `key`.
pub open spec fn stored(settings: Map<Seq<char>, Seq<char>>, key: Seq<char>) -> Option<Seq<char>> {
    if settings.dom().contains(key) {
        Some(settings[key])
    } else {
        None
    }
}

/// The switch `key` is on.
pub open spec fn switched_on(settings: Map<Seq<char>, Seq<char>>, key: Seq<char>) -> bool {
    stored(settings, key) == Some("on"@)
}

/// The field `key` holds something.
pub open spec fn filled(settings: Map<Seq<char>, Seq<char>>, key: Seq<char>) -> bool {
    match stored(settings, key) {
        Some(value) => value.len() > 0,
        None => false,
    }
}

/// The value stored under `key`, or nothing.
pub open spec fn stored_or_empty(settings: Map<Seq<char>, Seq<char>>, key: Seq<char>) -> Seq<char> {
    match stored(settings, key) {
        Some(value) => value,
        None => Seq::empty(),
    }
}

impl Settings {
    /// A snapshot without entries.
    pub fn new() -> (r: Settings)
        ensures
            r@ == Map::<Seq<char>, Seq<char>>::empty(),
    {
        Settings { entries: Vec::new() }
    }

    /// Stores `value` under `key`.
    pub fn set(&mut self, key: &str, value: &str)
        ensures
            final(self)@ == old(self)@.insert(key@, value@),
    {
        let ghost before = self.entries@;
        self.entries.push((key.to_owned(), value.to_owned()));
        assert(self.entries@.drop_last() =~= before);
    }

    /// The value stored under `key`.
    pub fn get(&self, key: &str) -> (r: Option<&str>)
        ensures
            match r {
                Some(value) => stored(self@, key@) == Some(value@),
                None => stored(self@, key@) == None::<Seq<char>>,
            },
    {
        let mut i: usize = self.entries.len();
        assert(self.entries@.take(i as int) =~= self.entries@);
        while i > 0
            invariant
                i <= self.entries@.len(),
                stored(self@, key@) == stored(values_of(self.entries@.take(i as int)), key@),
            decreases i,
        {
            i -= 1;
            assert(self.entries@.take(i + 1).drop_last() =~= self.entries@.take(i as int));
            assert(self.entries@.take(i + 1).last() == self.entries@[i as int]);
            if same(self.entries[i].0.as_str(), key) {
                return Some(self.entries[i].1.as_str());
            }
        }
        None
    }

    /// Whether the switch `key` is on.
    pub fn is_on(&self, key: &str) -> (r: bool)
        ensures
            r == switched_on(self@, key@),
    {
        match self.get(key) {
            Some(value) => same(value, "on"),
            None => false,
        }
    }

    /// Whether the field `key` holds something.
    pub fn has(&self, key: &str) -> (r: bool)
        ensures
            r == filled(self@, key@),
    {
        match self.get(key) {
            Some(value) => !value.is_empty(),
            None => false,
        }
    }

    /// The value stored under `key`, or nothing.
    pub fn get_or_empty(&self, key: &str) -> (r: String)
        ensures
            r@ == stored_or_empty(self@, key@),
    {
        match self.get(key) {
            Some(value) => value.to_owned(),
            None => String::new(),
        }
    }
}

} // verus!
