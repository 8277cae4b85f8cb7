//! Channel-aware message dispatch: which poster delivers to which channel. Posting
//! itself is left to the caller.
use vstd::prelude::*;

use crate::keyed::{has_key, keyed_map, keys_unique, lemma_keyed_index, lemma_keyed_push, lemma_keyed_update};
use crate::text::{str_eq, str_to_string};

verus! {

/// The channel name of a registration.
pub open spec fn registration_channel<P>() -> spec_fn((String, P)) -> Seq<char> {
    |e: (String, P)| e.0@
}

/// Registry of channel posters keyed by channel name.
pub struct ChannelDispatcher<P> {
    posters: Vec<(String, P)>,
}

impl<P> ChannelDispatcher<P> {
    /// The poster registered for each channel.
    pub closed spec fn posters(&self) -> Map<Seq<char>, P> {
        keyed_map(self.posters@, registration_channel()).map_values(|e: (String, P)| e.1)
    }

    /// The dispatcher's internal consistency.
    pub closed spec fn inv(&self) -> bool {
        keys_unique(self.posters@, registration_channel())
    }

    /// Create an empty dispatcher.
    pub fn new() -> (r: Self)
        ensures
            r.inv(),
            r.posters() == Map::<Seq<char>, P>::empty(),
    {
        let r = ChannelDispatcher { posters: Vec::new() };
        assert(keyed_map(r.posters@, registration_channel()) =~= Map::empty());
        assert(r.posters() =~= Map::empty());
        r
    }

    /// Register a poster for a channel; the poster it replaces, if any, is returned.
    pub fn register_poster(&mut self, channel: &str, poster: P) -> (r: Option<P>)
        requires
            old(self).inv(),
        ensures
            final(self).inv(),
            final(self).posters() == old(self).posters().insert(channel@, poster),
            match r {
                Some(p) => old(self).posters().contains_key(channel@) && p == old(self).posters()[channel@],
                None => !old(self).posters().contains_key(channel@),
            },
    {
        let ghost s0 = self.posters@;
        let mut i: usize = 0;
        while i < self.posters.len()
            invariant
                s0 == self.posters@,
                s0 == old(self).posters@,
                keys_unique(s0, registration_channel()),
                i <= s0.len(),
                forall|j: int| 0 <= j < i ==> #[trigger] s0[j].0@ != channel@,
            decreases self.posters.len() - i,
        {
            if str_eq(self.posters[i].0.as_str(), channel) {
                let entry = (str_to_string(channel), poster);
                let ghost e = entry;
                proof {
                    lemma_keyed_index(s0, registration_channel(), i as int);
                    lemma_keyed_update(s0, registration_channel(), i as int, e);
                }
                let old_entry = self.posters.remove(i);
                self.posters.insert(i, entry);
                proof {
                    assert(self.posters@ =~= s0.update(i as int, e));
                    assert(old_entry == s0[i as int]);
                    let km0 = keyed_map(s0, registration_channel());
                    let km1 = keyed_map(self.posters@, registration_channel());
                    assert(km1 == km0.insert(channel@, e));
                    assert(self.posters() =~= old(self).posters().insert(channel@, e.1));
                }
                return Some(old_entry.1);
            }
            i = i + 1;
        }
        let entry = (str_to_string(channel), poster);
        let ghost e = entry;
        proof {
            assert(!has_key(s0, registration_channel(), channel@)) by {
                if has_key(s0, registration_channel(), channel@) {
                    let j = choose|j: int| 0 <= j < s0.len() && registration_channel::<P>()(s0[j]) == channel@;
                    assert(s0[j].0@ == channel@);
                }
            }
            lemma_keyed_push(s0, registration_channel(), e);
        }
        self.posters.push(entry);
        proof {
            let km0 = keyed_map(s0, registration_channel());
            let km1 = keyed_map(self.posters@, registration_channel());
            assert(km1 == km0.insert(channel@, e));
            assert(self.posters() =~= old(self).posters().insert(channel@, e.1));
        }
        None
    }

    /// The poster registered for a channel, if any.
    pub fn poster(&self, channel: &str) -> (r: Option<&P>)
        requires
            self.inv(),
        ensures
            match r {
                Some(p) => self.posters().contains_key(channel@) && *p == self.posters()[channel@],
                None => !self.posters().contains_key(channel@),
            },
    {
        let mut i: usize = 0;
        while i < self.posters.len()
            invariant
                i <= self.posters.len(),
                keys_unique(self.posters@, registration_channel()),
                forall|j: int| 0 <= j < i ==> #[trigger] self.posters@[j].0@ != channel@,
            decreases self.posters.len() - i,
        {
            if str_eq(self.posters[i].0.as_str(), channel) {
                proof {
                    lemma_keyed_index(self.posters@, registration_channel(), i as int);
                }
                return Some(&self.posters[i].1);
            }
            i = i + 1;
        }
        proof {
            if has_key(self.posters@, registration_channel(), channel@) {
                let j = choose|j: int|
                    0 <= j < self.posters@.len() && registration_channel::<P>()(self.posters@[j]) == channel@;
                assert(self.posters@[j].0@ == channel@);
            }
        }
        None
    }
}

} // verus!
