//! The slideshow: a fixed list of the images of one directory listing, and
//! a position that moves through it in a circle.
use vstd::prelude::*;

verus! {

/// The positions of `flags` that hold `true`, in rising order.
pub open spec fn image_indices(flags: Seq<bool>) -> Seq<usize>
    decreases flags.len(),
{
    if flags.len() == 0 {
        Seq::empty()
    } else {
        let before = image_indices(flags.drop_last());
        if flags.last() {
            before.push((flags.len() - 1) as usize)
        } else {
            before
        }
    }
}

/// The first position of `s` that holds `value`, if there is one.
pub open spec fn position_of(s: Seq<usize>, value: usize) -> Option<int>
    decreases s.len(),
{
    if s.len() == 0 {
        None
    } else {
        match position_of(s.drop_last(), value) {
            Some(p) => Some(p),
            None => if s.last() == value {
                Some(s.len() - 1)
            } else {
                None
            },
        }
    }
}

/// Every index of the list is an image of the listing, and the list rises.
pub proof fn lemma_image_indices(flags: Seq<bool>)
    requires
        flags.len() <= usize::MAX,
    ensures
        image_indices(flags).len() <= flags.len(),
        forall|k: int|
            0 <= k < image_indices(flags).len() ==> (#[trigger] image_indices(flags)[k])
                < flags.len() && flags[image_indices(flags)[k] as int],
        forall|j: int, k: int|
            0 <= j < k < image_indices(flags).len() ==> image_indices(flags)[j] < image_indices(
                flags,
            )[k],
        forall|i: int|
            0 <= i < flags.len() && flags[i] ==> position_of(image_indices(flags), i as usize)
                is Some,
    decreases flags.len(),
{
    if flags.len() > 0 {
        let shorter = flags.drop_last();
        lemma_image_indices(shorter);
        let before = image_indices(shorter);
        assert forall|i: int| 0 <= i < flags.len() && flags[i] implies position_of(
            image_indices(flags),
            i as usize,
        ) is Some by {
            if i < flags.len() - 1 {
                assert(shorter[i] == flags[i]);
                assert(position_of(before, i as usize) is Some);
                if flags.last() {
                    assert(image_indices(flags).drop_last() =~= before);
                }
            } else {
                assert(image_indices(flags).drop_last() =~= before);
            }
        }
    }
}

/// Where `position_of` finds a value, the value stands.
pub proof fn lemma_position_of(s: Seq<usize>, value: usize)
    ensures
        match position_of(s, value) {
            Some(p) => 0 <= p < s.len() && s[p] == value,
            None => forall|k: int| 0 <= k < s.len() ==> s[k] != value,
        },
    decreases s.len(),
{
    if s.len() > 0 {
        lemma_position_of(s.drop_last(), value);
        match position_of(s.drop_last(), value) {
            Some(p) => {
                assert(s.drop_last()[p] == s[p]);
            },
            None => {
                assert forall|k: int| 0 <= k < s.len() - 1 implies s[k] != value by {
                    assert(s.drop_last()[k] == s[k]);
                }
            },
        }
    }
}

/// A running slideshow.
#[derive(Debug)]
pub struct SlideshowState {
    image_files: Vec<usize>,
    start_index: usize,
    current_index: usize,
}

impl SlideshowState {
    #[verifier::type_invariant]
    spec fn valid(self) -> bool {
        self.current_index < self.image_files@.len()
    }

    /// The images of the slideshow, as indices into the listing it was made
    /// from; never empty.
    pub closed spec fn indices(self) -> Seq<usize> {
        self.image_files@
    }

    /// The index into the listing at which the slideshow began.
    pub closed spec fn anchor(self) -> usize {
        self.start_index
    }

    /// The place of the current image in [`indices`](Self::indices).
    pub closed spec fn position(self) -> int {
        self.current_index as int
    }

    /// The place after `position` in a circle of `len` places.
    pub open spec fn next_position(position: int, len: int) -> int {
        if position + 1 >= len {
            0
        } else {
            position + 1
        }
    }

    /// The place before `position` in a circle of `len` places.
    pub open spec fn previous_position(position: int, len: int) -> int {
        if position <= 0 {
            len - 1
        } else {
            position - 1
        }
    }

    /// Starts a slideshow over a listing.  `is_image` says of each entry
    /// whether it is an image; `selected` is the entry that is selected.
    /// The slideshow holds the images in the listing's order and begins at
    /// the selected entry if that is an image, else at the first image.
    /// Without images there is no slideshow.
    pub fn enter(is_image: &Vec<bool>, selected: usize) -> (r: Option<Self>)
        ensures
            r is None <==> image_indices(is_image@).len() == 0,
            r matches Some(show) ==> {
                &&& show.indices() == image_indices(is_image@)
                &&& 0 <= show.position() < show.indices().len()
                &&& show.position() == match position_of(image_indices(is_image@), selected) {
                    Some(p) => p,
                    None => 0,
                }
                &&& show.anchor() == show.indices()[show.position()]
            },
    {
        let mut image_files: Vec<usize> = Vec::new();
        let mut found: Option<usize> = None;
        let mut i: usize = 0;
        while i < is_image.len()
            invariant
                i <= is_image@.len(),
                image_files@ == image_indices(is_image@.take(i as int)),
                image_files@.len() <= i,
                match found {
                    Some(p) => position_of(image_files@, selected) == Some(p as int),
                    None => position_of(image_files@, selected) is None,
                },
            decreases is_image@.len() - i,
        {
            proof {
                assert(is_image@.take(i + 1).drop_last() =~= is_image@.take(i as int));
                assert(is_image@.take(i + 1).last() == is_image@[i as int]);
            }
            if is_image[i] {
                if found.is_none() && i == selected {
                    found = Some(image_files.len());
                }
                proof {
                    assert(image_files@.push(i).drop_last() =~= image_files@);
                }
                image_files.push(i);
            }
            i += 1;
        }
        proof {
            assert(is_image@.take(is_image@.len() as int) =~= is_image@);
            lemma_position_of(image_files@, selected);
        }
        if image_files.len() == 0 {
            return None;
        }
        let current_index: usize = match found {
            Some(p) => p,
            None => 0,
        };
        let start_index: usize = image_files[current_index];
        Some(SlideshowState { image_files, start_index, current_index })
    }

    /// Moves to the next image; after the last comes the first.
    pub fn advance(&mut self)
        ensures
            final(self).indices() == old(self).indices(),
            final(self).anchor() == old(self).anchor(),
            final(self).position() == Self::next_position(
                old(self).position(),
                old(self).indices().len() as int,
            ),
            0 <= final(self).position() < final(self).indices().len(),
    {
        proof {
            use_type_invariant(&*self);
        }
        let len: usize = self.image_files.len();
        if self.current_index + 1 >= len {
            self.current_index = 0;
        } else {
            self.current_index = self.current_index + 1;
        }
    }

    /// Moves to the image before; before the first comes the last.
    pub fn go_backward(&mut self)
        ensures
            final(self).indices() == old(self).indices(),
            final(self).anchor() == old(self).anchor(),
            final(self).position() == Self::previous_position(
                old(self).position(),
                old(self).indices().len() as int,
            ),
            0 <= final(self).position() < final(self).indices().len(),
    {
        proof {
            use_type_invariant(&*self);
        }
        if self.current_index == 0 {
            self.current_index = self.image_files.len() - 1;
        } else {
            self.current_index = self.current_index - 1;
        }
    }

    /// The index into the listing of the current image: the entry to show
    /// now, and the entry to select when the slideshow ends.
    pub fn current_file_index(&self) -> (r: usize)
        ensures
            0 <= self.position() < self.indices().len(),
            r == self.indices()[self.position()],
    {
        proof {
            use_type_invariant(self);
        }
        self.image_files[self.current_index]
    }

    /// The place of the current image, counted from 0.
    pub fn current_position(&self) -> (r: usize)
        ensures
            r == self.position(),
            r < self.indices().len(),
    {
        proof {
            use_type_invariant(self);
        }
        self.current_index
    }

    /// The number of images.
    pub fn len(&self) -> (r: usize)
        ensures
            r == self.indices().len(),
            r > 0,
    {
        proof {
            use_type_invariant(self);
        }
        self.image_files.len()
    }

    /// The index into the listing at which the slideshow began.
    pub fn start_index(&self) -> (r: usize)
        ensures
            r == self.anchor(),
    {
        self.start_index
    }

    /// Ends the slideshow and says which entry of the listing to select:
    /// the image that was showing.
    pub fn exit(self) -> (r: usize)
        ensures
            0 <= self.position() < self.indices().len(),
            r == self.indices()[self.position()],
    {
        self.current_file_index()
    }
}

/// Going forward from the last image leads to the first, going backward
/// from the first leads to the last, and the two steps undo each other.
pub proof fn lemma_wraparound(position: int, len: int)
    requires
        0 <= position < len,
    ensures
        position == len - 1 ==> SlideshowState::next_position(position, len) == 0,
        position == 0 ==> SlideshowState::previous_position(position, len) == len - 1,
        0 <= SlideshowState::next_position(position, len) < len,
        0 <= SlideshowState::previous_position(position, len) < len,
        SlideshowState::previous_position(SlideshowState::next_position(position, len), len)
            == position,
        SlideshowState::next_position(SlideshowState::previous_position(position, len), len)
            == position,
{
}

/// Whether a step of the slideshow is animated: transitions are switched
/// on, the converter's text can be animated, and both the content that was
/// showing and the new content are text.
pub fn should_start_transition(
    transitions_enabled: bool,
    converter_supports_transitions: bool,
    previous_is_text: bool,
    next_is_text: bool,
) -> (r: bool)
    ensures
        r == (transitions_enabled && converter_supports_transitions && previous_is_text
            && next_is_text),
{
    transitions_enabled && converter_supports_transitions && previous_is_text && next_is_text
}

/// Whether the slideshow moves on by itself now: the delay has passed since
/// the last change, and no transition is playing.
pub fn is_advance_due(elapsed_ms: u64, delay_ms: u64, in_transition: bool) -> (r: bool)
    ensures
        r == (elapsed_ms >= delay_ms && !in_transition),
{
    elapsed_ms >= delay_ms && !in_transition
}

} // verus!
