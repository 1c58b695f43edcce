//! What the display does with an image event from OpenDeck, and the key images it
//! remembers so that keys can be redrawn over a new background.
use vstd::prelude::*;
use crate::layout::{KEY_COUNT, opendeck_key_to_device, spec_device_key};
use std::collections::HashMap;
use crate::text::{opt_view, str_eq};

verus! {

broadcast use vstd::std_specs::hash::group_hash_axioms;

/// A `setImage` request from OpenDeck.
pub struct ImageEvent {
    pub device: String,
    /// The controller the image is meant for; only `Keypad` (or none) concerns keys.
    pub controller: Option<String>,
    /// The key, or none for the whole panel.
    pub position: Option<u8>,
    /// A data URL, or none.
    pub image: Option<String>,
}

/// What the display does with an image event.
#[derive(Debug, PartialEq, Eq)]
pub enum ImageAction {
    /// The event is for another controller.
    Skip,
    /// Draw this image as the background, then redraw the remembered keys over it.
    Background(String),
    /// Draw this image on the key at this position.
    SetKey(u8, String),
    /// Blank the key at this position.
    ClearKey(u8),
    /// Blank every key.
    ClearAllKeys,
}

/// The action for an event with the given fields.
pub open spec fn spec_image_action(
    controller: Option<Seq<char>>,
    position: Option<u8>,
    image: Option<Seq<char>>,
) -> ImageActionModel {
    if controller is Some && controller->0 != "Keypad"@ {
        ImageActionModel::Skip
    } else if position is None && image is Some {
        ImageActionModel::Background(image->0)
    } else if position is Some {
        if image is Some && image->0.len() > 0 {
            ImageActionModel::SetKey(position->0, image->0)
        } else {
            ImageActionModel::ClearKey(position->0)
        }
    } else {
        ImageActionModel::ClearAllKeys
    }
}

/// An event meant for another controller than the keypad is skipped, whatever its key
/// and image.
pub proof fn lemma_other_controllers_are_skipped(controller: Seq<char>, position: Option<u8>, image: Option<Seq<char>>)
    requires
        controller != "Keypad"@,
    ensures
        spec_image_action(Some(controller), position, image) is Skip,
{
}

/// For the keypad (named, or with no controller given): an image without a key is the
/// background; a non-empty image for a key is drawn on that key; a key with no image or
/// an empty one is blanked; an event with neither blanks every key.
pub proof fn lemma_keypad_events(controller: Option<Seq<char>>, p: u8, i: Seq<char>)
    requires
        controller is None || controller == Some("Keypad"@),
    ensures
        spec_image_action(controller, None, Some(i)) == ImageActionModel::Background(i),
        i.len() > 0 ==> spec_image_action(controller, Some(p), Some(i)) == ImageActionModel::SetKey(p, i),
        i.len() == 0 ==> spec_image_action(controller, Some(p), Some(i)) == ImageActionModel::ClearKey(p),
        spec_image_action(controller, Some(p), None) == ImageActionModel::ClearKey(p),
        spec_image_action(controller, None, None) == ImageActionModel::ClearAllKeys,
{
}

/// `ImageAction` with its images as character sequences.
pub enum ImageActionModel {
    Skip,
    Background(Seq<char>),
    SetKey(u8, Seq<char>),
    ClearKey(u8),
    ClearAllKeys,
}

impl View for ImageAction {
    type V = ImageActionModel;

    open spec fn view(&self) -> ImageActionModel {
        match self {
            ImageAction::Skip => ImageActionModel::Skip,
            ImageAction::Background(i) => ImageActionModel::Background(i@),
            ImageAction::SetKey(p, i) => ImageActionModel::SetKey(*p, i@),
            ImageAction::ClearKey(p) => ImageActionModel::ClearKey(*p),
            ImageAction::ClearAllKeys => ImageActionModel::ClearAllKeys,
        }
    }
}

impl ImageEvent {
    /// An event with neither key nor image announces a profile switch.
    pub fn is_profile_switch(&self) -> (r: bool)
        ensures
            r == (self.position is None && self.image is None),
    {
        self.position.is_none() && self.image.is_none()
    }
}

/// Decides what an image event does: events for other controllers are skipped; an
/// image without a key is the background; an image for a key is drawn on it, unless
/// it is empty, which blanks the key; an event with neither blanks every key.
pub fn apply_image_event(event: ImageEvent) -> (r: ImageAction)
    ensures
        r@ == spec_image_action(opt_view(event.controller), event.position, opt_view(event.image)),
{
    let is_other = match &event.controller {
        Some(c) => !str_eq(c.as_str(), "Keypad"),
        None => false,
    };
    if is_other {
        return ImageAction::Skip;
    }
    match event.position {
        None => match event.image {
            Some(image) => ImageAction::Background(image),
            None => ImageAction::ClearAllKeys,
        },
        Some(position) => match event.image {
            Some(image) => {
                if !image.as_str().is_empty() {
                    ImageAction::SetKey(position, image)
                } else {
                    ImageAction::ClearKey(position)
                }
            },
            None => ImageAction::ClearKey(position),
        },
    }
}

/// The remembered key images, by OpenDeck key position.
pub struct Keys<T> {
    pub images: HashMap<u8, T>,
}

/// The (position, device key) pairs of the remembered keys among the first `n`
/// positions, in position order.
pub open spec fn refresh_plan<T>(images: Map<u8, T>, n: nat) -> Seq<(u8, u8)>
    decreases n,
{
    if n == 0 {
        Seq::empty()
    } else {
        let p = (n - 1) as u8;
        let rest = refresh_plan(images, (n - 1) as nat);
        if images.dom().contains(p) {
            rest.push((p, spec_device_key(p as int) as u8))
        } else {
            rest
        }
    }
}

impl<T> Keys<T> {
    /// No key remembered.
    pub fn new() -> (r: Self)
        ensures
            r.images@ == Map::<u8, T>::empty(),
    {
        Keys { images: HashMap::new() }
    }

    /// Remembers `image` for key `position`; returns the device key to draw it on.
    pub fn set(&mut self, position: u8, image: T) -> (r: u8)
        requires
            position < KEY_COUNT,
        ensures
            final(self).images@ == old(self).images@.insert(position, image),
            r == spec_device_key(position as int),
    {
        let _ = self.images.insert(position, image);
        match opendeck_key_to_device(position) {
            Some(k) => k,
            None => 0,
        }
    }

    /// Forgets the image of key `position`; returns the device key to blank.
    pub fn clear(&mut self, position: u8) -> (r: u8)
        requires
            position < KEY_COUNT,
        ensures
            final(self).images@ == old(self).images@.remove(position),
            r == spec_device_key(position as int),
    {
        let _ = self.images.remove(&position);
        match opendeck_key_to_device(position) {
            Some(k) => k,
            None => 0,
        }
    }

    /// Forgets every image; returns the device keys to blank, one per key of the grid
    /// in OpenDeck order.
    pub fn clear_all(&mut self) -> (r: Vec<u8>)
        ensures
            final(self).images@ == Map::<u8, T>::empty(),
            r@ == Seq::new(KEY_COUNT as nat, |p: int| spec_device_key(p) as u8),
    {
        self.images.clear();
        let mut r: Vec<u8> = Vec::new();
        let mut p: u8 = 0;
        while p < 15
            invariant
                p <= KEY_COUNT,
                r@ == Seq::new(p as nat, |q: int| spec_device_key(q) as u8),
            decreases KEY_COUNT - p,
        {
            let k = match opendeck_key_to_device(p) {
                Some(k) => k,
                None => 0,
            };
            r.push(k);
            assert(r@ =~= Seq::new((p + 1) as nat, |q: int| spec_device_key(q) as u8));
            p = p + 1;
        }
        r
    }

    /// The remembered keys to redraw, as (position, device key) pairs in position order.
    pub fn refresh(&self) -> (r: Vec<(u8, u8)>)
        ensures
            r@ == refresh_plan(self.images@, KEY_COUNT as nat),
    {
        let mut r: Vec<(u8, u8)> = Vec::new();
        let mut p: u8 = 0;
        while p < 15
            invariant
                p <= KEY_COUNT,
                r@ == refresh_plan(self.images@, p as nat),
            decreases KEY_COUNT - p,
        {
            if self.images.contains_key(&p) {
                let k = match opendeck_key_to_device(p) {
                    Some(k) => k,
                    None => 0,
                };
                r.push((p, k));
            }
            p = p + 1;
        }
        r
    }

    /// The image remembered for key `position`.
    pub fn get(&self, position: u8) -> (r: Option<&T>)
        ensures
            r is Some <==> self.images@.dom().contains(position),
            r is Some ==> *r->0 == self.images@[position],
    {
        self.images.get(&position)
    }
}

/// A redraw covers exactly the remembered keys of the grid, each once, each on the
/// device key that the layout maps it to.
pub proof fn lemma_refresh_covers_remembered<T>(images: Map<u8, T>, n: nat)
    requires
        n <= KEY_COUNT,
    ensures
        forall|p: u8| p < n ==> (images.dom().contains(p) <==> refresh_plan(images, n).contains(
            (p, #[trigger] spec_device_key(p as int) as u8),
        )),
        forall|i: int|
            0 <= i < refresh_plan(images, n).len() ==> {
                let (p, k) = #[trigger] refresh_plan(images, n)[i];
                &&& p < n
                &&& images.dom().contains(p)
                &&& k == spec_device_key(p as int) as u8
            },
        forall|i: int, j: int|
            0 <= i < j < refresh_plan(images, n).len() ==> (#[trigger] refresh_plan(images, n)[i]).0 < (
            #[trigger] refresh_plan(images, n)[j]).0,
    decreases n,
{
    if n > 0 {
        lemma_refresh_covers_remembered(images, (n - 1) as nat);
        let rest = refresh_plan(images, (n - 1) as nat);
        let q = (n - 1) as u8;
        assert forall|p: u8| p < n implies (images.dom().contains(p) <==> refresh_plan(images, n).contains(
            (p, #[trigger] spec_device_key(p as int) as u8),
        )) by {
            if p < q {
                if refresh_plan(images, n).contains((p, spec_device_key(p as int) as u8)) {
                    let i = choose|i: int| 0 <= i < refresh_plan(images, n).len() && refresh_plan(images, n)[i] == (p, spec_device_key(p as int) as u8);
                    if i < rest.len() {
                        assert(rest[i] == (p, spec_device_key(p as int) as u8));
                    }
                }
                if images.dom().contains(p) {
                    let i = choose|i: int| 0 <= i < rest.len() && rest[i] == (p, spec_device_key(p as int) as u8);
                    assert(refresh_plan(images, n)[i] == (p, spec_device_key(p as int) as u8));
                }
            } else {
                if refresh_plan(images, n).contains((p, spec_device_key(p as int) as u8)) {
                    let i = choose|i: int| 0 <= i < refresh_plan(images, n).len() && refresh_plan(images, n)[i] == (p, spec_device_key(p as int) as u8);
                    if i < rest.len() {
                        assert(rest[i] == (p, spec_device_key(p as int) as u8));
                    }
                }
                if images.dom().contains(p) {
                    assert(refresh_plan(images, n)[rest.len() as int] == (p, spec_device_key(p as int) as u8));
                }
            }
        }
    }
}

} // verus!
