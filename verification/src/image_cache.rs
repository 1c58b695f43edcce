//! Key images remembered per device serial number, so that they can be redrawn.
use vstd::prelude::*;
use crate::keyed_map::KeyedMap;
use std::collections::HashMap;

verus! {

broadcast use vstd::std_specs::hash::group_hash_axioms;

/// The images of each device (by serial number), by key position.
pub struct KeyImageCache<T> {
    images: KeyedMap<HashMap<u8, T>>,
}

impl<T> View for KeyImageCache<T> {
    type V = Map<Seq<char>, Map<u8, T>>;

    closed spec fn view(&self) -> Map<Seq<char>, Map<u8, T>> {
        self.images@.map_values(|m: HashMap<u8, T>| m@)
    }
}

impl<T> KeyImageCache<T> {
    /// The images recorded for `serial`; none when the device is unknown.
    pub open spec fn images_of(&self, serial: Seq<char>) -> Map<u8, T> {
        if self@.dom().contains(serial) {
            self@[serial]
        } else {
            Map::empty()
        }
    }

    /// No device known.
    pub fn new() -> (r: Self)
        ensures
            r@ == Map::<Seq<char>, Map<u8, T>>::empty(),
    {
        let r = KeyImageCache { images: KeyedMap::new() };
        assert(r@ =~= Map::<Seq<char>, Map<u8, T>>::empty());
        r
    }

    /// Records `image` for key `position` of device `serial`.
    pub fn set_key_image(&mut self, serial: &str, position: u8, image: T)
        ensures
            final(self)@ == old(self)@.insert(serial@, old(self).images_of(serial@).insert(position, image)),
    {
        let ghost before = self.images@;
        let mut map = match self.images.take(serial) {
            Some(m) => m,
            None => HashMap::new(),
        };
        let _ = map.insert(position, image);
        let ghost inner = map@;
        self.images.insert(String::from_str(serial), map);
        proof {
            assert(self.images@ == before.remove(serial@).insert(serial@, self.images@[serial@]));
            assert(self@ =~= old(self)@.insert(serial@, old(self).images_of(serial@).insert(position, image)));
        }
    }

    /// Forgets the image of key `position` of device `serial`.
    pub fn remove_key_image(&mut self, serial: &str, position: u8)
        ensures
            final(self)@ == (if old(self)@.dom().contains(serial@) {
                old(self)@.insert(serial@, old(self)@[serial@].remove(position))
            } else {
                old(self)@
            }),
    {
        let ghost before = self.images@;
        match self.images.take(serial) {
            Some(mut map) => {
                let _ = map.remove(&position);
                self.images.insert(String::from_str(serial), map);
                proof {
                    assert(self@ =~= old(self)@.insert(serial@, old(self)@[serial@].remove(position)));
                }
            },
            None => {
                proof {
                    assert(self.images@ =~= before);
                }
            },
        }
    }

    /// Forgets every image of device `serial`.
    pub fn clear_key_images(&mut self, serial: &str)
        ensures
            final(self)@ == old(self)@.remove(serial@),
    {
        self.images.remove(serial);
        assert(self@ =~= old(self)@.remove(serial@));
    }
}

impl<T: Clone> KeyImageCache<T> {
    /// A copy of the images recorded for `serial`; empty when the device is unknown.
    pub fn get_key_images(&self, serial: &str) -> (r: HashMap<u8, T>)
        ensures
            r@ == self.images_of(serial@),
    {
        match self.images.get(serial) {
            Some(m) => m.clone(),
            None => HashMap::new(),
        }
    }
}

/// What was recorded for a key is what is read back for it, and recording it touches
/// no other key and no other device; forgetting a key or a device removes exactly that.
pub proof fn lemma_cache_read_after_write<T>(
    c: KeyImageCache<T>,
    d: KeyImageCache<T>,
    serial: Seq<char>,
    position: u8,
    image: T,
)
    requires
        d@ == c@.insert(serial, c.images_of(serial).insert(position, image)),
    ensures
        d.images_of(serial).dom().contains(position),
        d.images_of(serial)[position] == image,
        forall|p: u8| p != position ==> (#[trigger] d.images_of(serial).dom().contains(p)) == c.images_of(
            serial,
        ).dom().contains(p),
        forall|s: Seq<char>| s != serial ==> #[trigger] d.images_of(s) == c.images_of(s),
{
}

} // verus!
